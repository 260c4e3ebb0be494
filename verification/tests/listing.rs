use vetkd_notes::note_ids::NoteIds;
use vetkd_notes::rules::plan_create_note;
use vetkd_notes::listing::{insert_sorted, is_readable, list_note_ids, Lookup, NoteAccess, Reader};
use vetkd_notes::rules::NotesError;

fn reader(name: &str, when: Option<u64>) -> Reader {
    Reader { name: name.to_string(), when }
}

fn found(id: u128, readers: Vec<Reader>) -> Lookup {
    Lookup { id, note: Some(NoteAccess { id, readers }) }
}

fn missing(id: u128) -> Lookup {
    Lookup { id, note: None }
}

const EVERYONE: &str = "everyone";

#[test]
fn readability_rules() {
    let user = "bob".to_string();
    let everyone = EVERYONE.to_string();
    let n = NoteAccess { id: 1, readers: vec![reader("bob", Some(10))] };
    assert!(!is_readable(&n, &user, &everyone, 9));
    assert!(is_readable(&n, &user, &everyone, 10));
    assert!(!is_readable(&n, &"carol".to_string(), &everyone, 10));
    let n = NoteAccess { id: 1, readers: vec![reader(EVERYONE, None)] };
    assert!(is_readable(&n, &"carol".to_string(), &everyone, 0));
    let n = NoteAccess { id: 1, readers: vec![reader(EVERYONE, Some(5)), reader("dan", None)] };
    assert!(!is_readable(&n, &"carol".to_string(), &everyone, 4));
    assert!(is_readable(&n, &"dan".to_string(), &everyone, 4));
    let n = NoteAccess { id: 1, readers: vec![] };
    assert!(!is_readable(&n, &user, &everyone, 100));
}

#[test]
fn listing_merges_sorts_and_dedups() {
    let user = "bob".to_string();
    let everyone = EVERYONE.to_string();
    let owned = vec![found(7, vec![]), found(2, vec![])];
    let shared = vec![
        found(5, vec![reader("bob", None)]),
        found(2, vec![reader("bob", None)]),
        found(9, vec![reader("bob", Some(100))]),
        missing(11),
    ];
    let public = vec![
        found(3, vec![reader(EVERYONE, Some(40))]),
        found(4, vec![reader(EVERYONE, Some(60))]),
        found(5, vec![reader(EVERYONE, None)]),
    ];
    let r = list_note_ids(&user, &everyone, 50, &owned, &shared, &public).unwrap();
    assert_eq!(r, vec![2, 3, 5, 7]);
    let r = list_note_ids(&user, &everyone, 100, &owned, &shared, &public).unwrap();
    assert_eq!(r, vec![2, 3, 4, 5, 7, 9]);
}

#[test]
fn listing_refuses_missing_owned_note() {
    let user = "bob".to_string();
    let everyone = EVERYONE.to_string();
    let owned = vec![found(1, vec![]), missing(4), missing(6)];
    assert_eq!(
        list_note_ids(&user, &everyone, 0, &owned, &vec![], &vec![]),
        Err(NotesError::MissingNote(4))
    );
}

#[test]
fn listing_nothing() {
    let r = list_note_ids(&"a".to_string(), &EVERYONE.to_string(), 0, &vec![], &vec![], &vec![]).unwrap();
    assert!(r.is_empty());
}

#[test]
fn insert_sorted_keeps_order() {
    let mut v = vec![1, 4, 9];
    insert_sorted(&mut v, 5);
    assert_eq!(v, vec![1, 4, 5, 9]);
    insert_sorted(&mut v, 4);
    assert_eq!(v, vec![1, 4, 5, 9]);
    insert_sorted(&mut v, 0);
    insert_sorted(&mut v, 10);
    assert_eq!(v, vec![0, 1, 4, 5, 9, 10]);
}

#[test]
fn law_created_note_is_listed_for_owner() {
    let plan = plan_create_note(8, Some(NoteIds::from_vec(vec![2, 5])), 1, false).unwrap();
    let owned: Vec<Lookup> = plan.owner_ids.iter().map(|id| found(*id, vec![])).collect();
    let r = list_note_ids(&"bob".to_string(), &EVERYONE.to_string(), 0, &owned, &vec![], &vec![])
        .unwrap();
    assert_eq!(r, vec![2, 5, 8]);
}
