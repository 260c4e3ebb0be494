use std::collections::HashMap;
use vetkd_notes::note_ids::{entry_with, entry_without, IndexUpdate, NoteIds};
use vetkd_notes::rules::{
    check_owner, check_refresh_note, check_update_note, plan_add_user, plan_create_note, plan_delete_note,
    plan_remove_user, share_key, within_char_limit, NoteGate, NotesError, ShareEntry, MAX_NOTES_PER_USER,
    MAX_NOTE_CHARS, MAX_SHARES_PER_NOTE, MAX_USERS,
};

fn ids(v: &[u128]) -> NoteIds {
    NoteIds::from_vec(v.to_vec())
}

#[test]
fn note_ids_basic_operations() {
    let mut l = NoteIds::new();
    assert!(l.is_empty());
    l.push(3);
    l.push(7);
    l.push(3);
    assert_eq!(l.len(), 3);
    assert!(l.contains(7));
    assert!(!l.contains(4));
    let walked: Vec<u128> = l.iter().copied().collect();
    assert_eq!(walked, vec![3, 7, 3]);
    l.remove_id(3);
    assert_eq!(l.as_vec(), &vec![7]);
    l.remove_id(9);
    assert_eq!(l.as_vec(), &vec![7]);
}

#[test]
fn entry_without_cases() {
    assert_eq!(entry_without(None, 1), IndexUpdate::Unchanged);
    assert_eq!(entry_without(Some(ids(&[1])), 1), IndexUpdate::Remove);
    assert_eq!(entry_without(Some(ids(&[1, 2, 1])), 1), IndexUpdate::Put(ids(&[2])));
    assert_eq!(entry_without(Some(ids(&[2, 3])), 1), IndexUpdate::Put(ids(&[2, 3])));
}

#[test]
fn entry_with_cases() {
    assert_eq!(entry_with(None, 5), Some(ids(&[5])));
    assert_eq!(entry_with(Some(ids(&[1, 2])), 5), Some(ids(&[1, 2, 5])));
    assert_eq!(entry_with(Some(ids(&[1, 5])), 5), None);
}

#[test]
fn law_filing_twice_writes_once() {
    let first = entry_with(Some(ids(&[4])), 9).unwrap();
    assert_eq!(first, ids(&[4, 9]));
    assert_eq!(entry_with(Some(first), 9), None);
}

#[test]
fn law_removal_of_absent_id_keeps_entry() {
    assert_eq!(entry_without(Some(ids(&[4, 6])), 5), IndexUpdate::Put(ids(&[4, 6])));
}

#[test]
fn law_removal_undoes_filing() {
    let filed = entry_with(Some(ids(&[4, 6])), 8).unwrap();
    assert_eq!(entry_without(Some(filed), 8), IndexUpdate::Put(ids(&[4, 6])));
    let filed = entry_with(None, 8).unwrap();
    assert_eq!(entry_without(Some(filed), 8), IndexUpdate::Remove);
}

#[test]
fn create_note_for_new_and_known_owners() {
    let p = plan_create_note(1, None, 0, false).unwrap();
    assert_eq!(p.note_id, 1);
    assert_eq!(p.next_note_id, 2);
    assert_eq!(p.owner_ids, ids(&[1]));
    let p = plan_create_note(12, Some(ids(&[3, 5])), 10, false).unwrap();
    assert_eq!(p.note_id, 12);
    assert_eq!(p.next_note_id, 13);
    assert_eq!(p.owner_ids, ids(&[3, 5, 12]));
}

#[test]
fn create_note_refusals() {
    let full: Vec<u128> = (0..MAX_NOTES_PER_USER as u128).collect();
    assert_eq!(
        plan_create_note(100, Some(NoteIds::from_vec(full)), 1, false).err(),
        Some(NotesError::TooManyNotes)
    );
    let almost: Vec<u128> = (0..MAX_NOTES_PER_USER as u128 - 1).collect();
    assert!(plan_create_note(100, Some(NoteIds::from_vec(almost)), 1, false).is_ok());
    assert_eq!(plan_create_note(100, None, MAX_USERS, false).err(), Some(NotesError::TooManyUsers));
    assert!(plan_create_note(100, None, MAX_USERS - 1, false).is_ok());
    assert_eq!(plan_create_note(100, None, 0, true).err(), Some(NotesError::NoteIdTaken));
    assert_eq!(plan_create_note(u128::MAX, None, 0, false).err(), Some(NotesError::NoteIdOverflow));
}

#[test]
fn law_created_ids_are_fresh_and_increasing() {
    let a = plan_create_note(1, None, 0, false).unwrap();
    let b = plan_create_note(a.next_note_id, Some(a.owner_ids), 1, false).unwrap();
    assert_eq!(b.note_id, 2);
    assert_eq!(b.owner_ids, ids(&[1, 2]));
    assert!(b.next_note_id > b.note_id);
}

#[test]
fn delete_note_plan() {
    let alice = "alice".to_string();
    let bob = "bob".to_string();
    assert_eq!(
        plan_delete_note(&bob, 1, &alice, None, vec![]).err(),
        Some(NotesError::DeleteByNonOwner)
    );
    let shares = vec![
        ShareEntry { key: "bob".to_string(), ids: Some(ids(&[1])) },
        ShareEntry { key: "everybody".to_string(), ids: Some(ids(&[1, 2])) },
        ShareEntry { key: "carol".to_string(), ids: None },
    ];
    let p = plan_delete_note(&alice, 1, &alice, Some(ids(&[1, 3])), shares).unwrap();
    assert_eq!(p.owner_update, IndexUpdate::Put(ids(&[3])));
    assert_eq!(p.share_updates.len(), 3);
    assert_eq!(p.share_updates[0].key, "bob");
    assert_eq!(p.share_updates[0].update, IndexUpdate::Remove);
    assert_eq!(p.share_updates[1].key, "everybody");
    assert_eq!(p.share_updates[1].update, IndexUpdate::Put(ids(&[2])));
    assert_eq!(p.share_updates[2].update, IndexUpdate::Unchanged);
}

#[test]
fn add_user_plan() {
    let alice = "alice".to_string();
    assert_eq!(
        plan_add_user(&"bob".to_string(), 1, &alice, 0, &None, None).err(),
        Some(NotesError::NotOwner)
    );
    assert_eq!(
        plan_add_user(&alice, 1, &alice, MAX_SHARES_PER_NOTE, &None, None).err(),
        Some(NotesError::TooManyShares)
    );
    let w = plan_add_user(&alice, 1, &alice, 0, &None, None).unwrap();
    assert_eq!(w.key, "everybody");
    assert_eq!(w.ids, Some(ids(&[1])));
    let w = plan_add_user(&alice, 1, &alice, 3, &Some("bob".to_string()), Some(ids(&[1]))).unwrap();
    assert_eq!(w.key, "bob");
    assert_eq!(w.ids, None);
    let w = plan_add_user(&alice, 1, &alice, 2, &Some("bob".to_string()), Some(ids(&[7]))).unwrap();
    assert_eq!(w.ids, Some(ids(&[7, 1])));
}

#[test]
fn add_user_again_has_no_effect_even_at_the_share_limit() {
    let alice = "alice".to_string();
    let bob = Some("bob".to_string());
    let w = plan_add_user(&alice, 1, &alice, MAX_SHARES_PER_NOTE, &bob, Some(ids(&[1]))).unwrap();
    assert_eq!(w.key, "bob");
    assert_eq!(w.ids, None);
    assert_eq!(
        plan_add_user(&alice, 1, &alice, MAX_SHARES_PER_NOTE, &bob, Some(ids(&[2]))).err(),
        Some(NotesError::TooManyShares)
    );
}

#[test]
fn remove_user_plan() {
    let alice = "alice".to_string();
    let bob = Some("bob".to_string());
    assert_eq!(
        plan_remove_user(&"bob".to_string(), 1, &alice, &bob, true, None).err(),
        Some(NotesError::NotOwner)
    );
    assert!(plan_remove_user(&alice, 1, &alice, &bob, false, Some(ids(&[1]))).unwrap().is_none());
    let u = plan_remove_user(&alice, 1, &alice, &bob, true, Some(ids(&[1, 2]))).unwrap().unwrap();
    assert_eq!(u.key, "bob");
    assert_eq!(u.update, IndexUpdate::Put(ids(&[2])));
    let u = plan_remove_user(&alice, 1, &alice, &None, true, Some(ids(&[1]))).unwrap().unwrap();
    assert_eq!(u.key, "everybody");
    assert_eq!(u.update, IndexUpdate::Remove);
}

#[test]
fn share_keys() {
    assert_eq!(share_key(&None), "everybody");
    assert_eq!(share_key(&Some("x".to_string())), "x");
}

#[test]
fn update_note_checks() {
    let alice: &[u8] = &[1, 2, 3];
    let open = || Some(NoteGate { authorized: true });
    let short = "abc".to_string();
    assert_eq!(check_update_note(alice, open(), &short), Ok(true));
    assert_eq!(check_update_note(alice, None, &short), Ok(false));
    assert_eq!(
        check_update_note(alice, Some(NoteGate { authorized: false }), &short),
        Err(NotesError::UnauthorizedUpdate)
    );
    let at_limit = "é".repeat(MAX_NOTE_CHARS);
    assert_eq!(check_update_note(alice, open(), &at_limit), Ok(true));
    let over = "a".repeat(MAX_NOTE_CHARS + 1);
    assert_eq!(check_update_note(alice, open(), &over), Err(NotesError::NoteTooLong));
}

#[test]
fn update_note_refuses_anonymous_caller() {
    let short = "abc".to_string();
    let open = Some(NoteGate { authorized: true });
    assert_eq!(check_update_note(&[4], open, &short), Err(NotesError::AnonymousCaller));
    assert_eq!(check_update_note(&[4], None, &short), Err(NotesError::AnonymousCaller));
}

#[test]
fn char_limit_counts_characters() {
    assert!(within_char_limit(&"ééé".to_string(), 3));
    assert!(!within_char_limit(&"ééé".to_string(), 2));
    assert!(within_char_limit(&String::new(), 0));
}

#[test]
fn refresh_note_checks() {
    let alice: &[u8] = &[1, 2, 3];
    assert_eq!(check_refresh_note(alice, false, true), Err(NotesError::NoteNotFound));
    assert_eq!(check_refresh_note(alice, true, false), Err(NotesError::UnauthorizedRefresh));
    assert_eq!(check_refresh_note(alice, true, true), Ok(()));
    assert_eq!(check_refresh_note(&[4], true, true), Err(NotesError::AnonymousCaller));
}

#[test]
fn owner_checks() {
    assert_eq!(check_owner(&"a".to_string(), &"a".to_string()), Ok(()));
    assert_eq!(check_owner(&"a".to_string(), &"b".to_string()), Err(NotesError::NotOwner));
}

#[test]
fn law_removal_unfiles_id() {
    match entry_without(Some(ids(&[7, 3, 7, 1])), 7) {
        IndexUpdate::Put(rest) => assert!(!rest.contains(7)),
        other => panic!("unexpected {:?}", other),
    }
}

#[test]
fn law_removal_is_idempotent() {
    let once = entry_without(Some(ids(&[2, 9, 4])), 9);
    assert_eq!(once, IndexUpdate::Put(ids(&[2, 4])));
    assert_eq!(entry_without(Some(ids(&[2, 4])), 9), IndexUpdate::Put(ids(&[2, 4])));
}

/// Applies an index update to a map of the test's own.
fn apply_update(m: &mut std::collections::HashMap<String, NoteIds>, key: String, u: IndexUpdate) {
    match u {
        IndexUpdate::Unchanged => {}
        IndexUpdate::Put(v) => {
            m.insert(key, v);
        }
        IndexUpdate::Remove => {
            m.remove(&key);
        }
    }
}

#[test]
fn law_store_invariant_through_create_share_and_delete() {
    let mut owner_of: HashMap<u128, String> = HashMap::new();
    let mut owners: HashMap<String, NoteIds> = HashMap::new();
    let mut shares: HashMap<String, NoteIds> = HashMap::new();
    let mut next: u128 = 1;
    let alice = "alice".to_string();
    for _ in 0..3 {
        assert!(!owner_of.contains_key(&next));
        let p = plan_create_note(next, owners.get(&alice).cloned(), owners.len() as u64, owner_of.contains_key(&next))
            .unwrap();
        owner_of.insert(p.note_id, alice.clone());
        owners.insert(alice.clone(), p.owner_ids);
        next = p.next_note_id;
    }
    let bob = Some("bob".to_string());
    let w = plan_add_user(&alice, 2, &alice, 0, &bob, shares.get("bob").cloned()).unwrap();
    if let Some(v) = w.ids {
        shares.insert(w.key, v);
    }
    let entries = vec![ShareEntry { key: "bob".to_string(), ids: shares.get("bob").cloned() }];
    let plan = plan_delete_note(&alice, 2, &alice, owners.get(&alice).cloned(), entries).unwrap();
    apply_update(&mut owners, alice.clone(), plan.owner_update);
    for u in plan.share_updates {
        apply_update(&mut shares, u.key, u.update);
    }
    owner_of.remove(&2);
    assert!(owners.values().all(|v| !v.is_empty()));
    assert!(shares.values().all(|v| !v.is_empty()));
    assert!(!shares.contains_key("bob"));
    for (u, v) in &owners {
        for id in v.iter() {
            assert_eq!(owner_of.get(id), Some(u));
        }
    }
    assert!(owner_of.keys().all(|id| *id < next));
    assert_eq!(owners[&alice], NoteIds::from_vec(vec![1, 3]));
}

#[test]
fn law_note_ids_never_reused_after_delete() {
    let alice = "alice".to_string();
    let first = plan_create_note(1, None, 0, false).unwrap();
    let del = plan_delete_note(&alice, first.note_id, &alice, Some(first.owner_ids), vec![]).unwrap();
    assert_eq!(del.owner_update, IndexUpdate::Remove);
    let second = plan_create_note(first.next_note_id, None, 0, false).unwrap();
    assert!(second.note_id > first.note_id);
    assert_eq!(second.owner_ids, ids(&[2]));
}

#[test]
fn owner_deletes_any_own_note() {
    let alice = "alice".to_string();
    let p = plan_delete_note(&alice, 5, &alice, Some(ids(&[5])), vec![]).unwrap();
    assert_eq!(p.owner_update, IndexUpdate::Remove);
    assert!(p.share_updates.is_empty());
}
