use vstd::prelude::*;
use crate::note_ids::{
    IndexChange, entry_after_write, filing_write, ids_without, lemma_without_contains,
    removal_change,
};
use crate::rules::{create_refusal, owner_list_after_create};

verus! {

/// The canister's stores as the rules see them: the owner of each stored
/// note (the note store, by id), the owner index and the share index (ids by
/// name), and the note id counter.
pub struct NotesModel {
    pub owner_of: Map<u128, Seq<char>>,
    pub owners: Map<Seq<char>, Seq<u128>>,
    pub shares: Map<Seq<char>, Seq<u128>>,
    pub next_note_id: u128,
}

/// What an index holds under `key`, as the canister reads it.
pub open spec fn lookup(m: Map<Seq<char>, Seq<u128>>, key: Seq<char>) -> Option<Seq<u128>> {
    if m.contains_key(key) {
        Some(m[key])
    } else {
        None
    }
}

/// The index after a change under `key`.
pub open spec fn apply_change(m: Map<Seq<char>, Seq<u128>>, key: Seq<char>, c: IndexChange) -> Map<
    Seq<char>,
    Seq<u128>,
> {
    match c {
        IndexChange::Keep => m,
        IndexChange::Store(s) => m.insert(key, s),
        IndexChange::Delete => m.remove(key),
    }
}

/// The index after changes applied one after the other, first to last.
pub open spec fn apply_changes(
    m: Map<Seq<char>, Seq<u128>>,
    cs: Seq<(Seq<char>, IndexChange)>,
) -> Map<Seq<char>, Seq<u128>>
    decreases cs.len(),
{
    if cs.len() == 0 {
        m
    } else {
        apply_change(apply_changes(m, cs.drop_last()), cs.last().0, cs.last().1)
    }
}

/// No index entry holds an empty list.
pub open spec fn entries_non_empty(m: Map<Seq<char>, Seq<u128>>) -> bool {
    forall|k: Seq<char>| #[trigger] m.contains_key(k) ==> m[k].len() > 0
}

/// Every id filed under an owner names a stored note of that owner.
pub open spec fn owners_consistent(s: NotesModel) -> bool {
    forall|u: Seq<char>, i: int|
        #![trigger s.owners[u][i]]
        s.owners.contains_key(u) && 0 <= i < s.owners[u].len() ==> s.owner_of.contains_key(
            s.owners[u][i],
        ) && s.owner_of[s.owners[u][i]] == u
}

/// Every stored note's id is below the id counter.
pub open spec fn ids_below_counter(s: NotesModel) -> bool {
    forall|id: u128| #[trigger] s.owner_of.contains_key(id) ==> id < s.next_note_id
}

/// The invariant of the indexes: no empty list is stored, and every owned
/// id names a stored note of its owner.
pub open spec fn index_inv(s: NotesModel) -> bool {
    &&& entries_non_empty(s.owners)
    &&& entries_non_empty(s.shares)
    &&& owners_consistent(s)
}

/// The invariant of the canister's stores: the index invariant, and every
/// stored note's id below the id counter.
pub open spec fn store_inv(s: NotesModel) -> bool {
    &&& index_inv(s)
    &&& ids_below_counter(s)
}

/// A change that never writes an empty list.
pub open spec fn writes_non_empty(c: IndexChange) -> bool {
    c matches IndexChange::Store(s) ==> s.len() > 0
}

/// The stores after `delete_note(note_id)` on a note of `owner`: the note is
/// removed, the owner index gets `owner_change` under `owner`, and the share
/// index gets `share_changes` one after the other.
pub open spec fn after_delete(
    s: NotesModel,
    note_id: u128,
    owner: Seq<char>,
    owner_change: IndexChange,
    share_changes: Seq<(Seq<char>, IndexChange)>,
) -> NotesModel {
    NotesModel {
        owner_of: s.owner_of.remove(note_id),
        owners: apply_change(s.owners, owner, owner_change),
        shares: apply_changes(s.shares, share_changes),
        next_note_id: s.next_note_id,
    }
}

/// The stores after `create_note` by `owner`: the counter's id is stored as a
/// note of `owner`, appended to the owner's list, and the counter advanced.
pub open spec fn after_create(s: NotesModel, owner: Seq<char>) -> NotesModel {
    NotesModel {
        owner_of: s.owner_of.insert(s.next_note_id, owner),
        owners: s.owners.insert(
            owner,
            owner_list_after_create(lookup(s.owners, owner), s.next_note_id),
        ),
        shares: s.shares,
        next_note_id: (s.next_note_id + 1) as u128,
    }
}

proof fn lemma_apply_change_non_empty(m: Map<Seq<char>, Seq<u128>>, key: Seq<char>, c: IndexChange)
    requires
        entries_non_empty(m),
        writes_non_empty(c),
    ensures
        entries_non_empty(apply_change(m, key, c)),
{
    let r = apply_change(m, key, c);
    assert forall|k: Seq<char>| #[trigger] r.contains_key(k) implies r[k].len() > 0 by {
        assert(m.contains_key(k) || k == key);
    }
}

proof fn lemma_apply_changes_non_empty(
    m: Map<Seq<char>, Seq<u128>>,
    cs: Seq<(Seq<char>, IndexChange)>,
)
    requires
        entries_non_empty(m),
        forall|i: int| 0 <= i < cs.len() ==> writes_non_empty(#[trigger] cs[i].1),
    ensures
        entries_non_empty(apply_changes(m, cs)),
    decreases cs.len(),
{
    if cs.len() > 0 {
        let rest = cs.drop_last();
        assert forall|i: int| 0 <= i < rest.len() implies writes_non_empty(#[trigger] rest[i].1) by {
            assert(rest[i] == cs[i]);
        }
        lemma_apply_changes_non_empty(m, rest);
        assert(writes_non_empty(cs[cs.len() - 1].1));
        lemma_apply_change_non_empty(apply_changes(m, rest), cs.last().0, cs.last().1);
    }
}

/// The no collision half of the invariant: the counter's id holds no note.
pub proof fn law_counter_id_is_free(s: NotesModel)
    requires
        store_inv(s),
    ensures
        !s.owner_of.contains_key(s.next_note_id),
{
}

/// `delete_note` keeps the index invariant: when the owner-index and
/// share-index changes are the removals of the note id from what those
/// indexes held under the owner and under each share key (as
/// `plan_delete_note` computes them from the entries it is given), no empty
/// list is stored, every owned id still names a stored note of its owner, and
/// the deleted id holds no note.
pub proof fn law_delete_keeps_index_invariant(
    s: NotesModel,
    note_id: u128,
    owner: Seq<char>,
    owner_change: IndexChange,
    share_changes: Seq<(Seq<char>, IndexChange)>,
)
    requires
        index_inv(s),
        s.owner_of.contains_key(note_id),
        s.owner_of[note_id] == owner,
        owner_change == removal_change(lookup(s.owners, owner), note_id),
        forall|i: int|
            0 <= i < share_changes.len() ==> (#[trigger] share_changes[i]).1 == removal_change(
                lookup(s.shares, share_changes[i].0),
                note_id,
            ),
    ensures
        index_inv(after_delete(s, note_id, owner, owner_change, share_changes)),
        !after_delete(s, note_id, owner, owner_change, share_changes).owner_of.contains_key(
            note_id,
        ),
{
    let t = after_delete(s, note_id, owner, owner_change, share_changes);
    lemma_apply_change_non_empty(s.owners, owner, owner_change);
    assert forall|i: int| 0 <= i < share_changes.len() implies writes_non_empty(
        #[trigger] share_changes[i].1,
    ) by {
        assert(share_changes[i].1 == removal_change(lookup(s.shares, share_changes[i].0), note_id));
    }
    lemma_apply_changes_non_empty(s.shares, share_changes);
    assert forall|u: Seq<char>, i: int|
        #![trigger t.owners[u][i]]
        t.owners.contains_key(u) && 0 <= i < t.owners[u].len() implies t.owner_of.contains_key(
            t.owners[u][i],
        ) && t.owner_of[t.owners[u][i]] == u by {
        let x = t.owners[u][i];
        if u == owner {
            let old_list = s.owners[owner];
            assert(s.owners.contains_key(owner));
            assert(t.owners[u] == ids_without(old_list, note_id));
            assert(ids_without(old_list, note_id).contains(x));
            lemma_without_contains(old_list, note_id, x);
            let j = choose|j: int| 0 <= j < old_list.len() && old_list[j] == x;
            assert(s.owners[owner][j] == x);
        } else {
            assert(t.owners[u] == s.owners[u]);
            assert(s.owners[u][i] == x);
            assert(s.owner_of[x] == u);
        }
    }
}

/// `delete_note` keeps the whole invariant of the stores as well: the counter
/// is left alone and only a note is removed, so every stored id stays below it.
pub proof fn law_delete_keeps_store_invariant(
    s: NotesModel,
    note_id: u128,
    owner: Seq<char>,
    owner_change: IndexChange,
    share_changes: Seq<(Seq<char>, IndexChange)>,
)
    requires
        store_inv(s),
        s.owner_of.contains_key(note_id),
        s.owner_of[note_id] == owner,
        owner_change == removal_change(lookup(s.owners, owner), note_id),
        forall|i: int|
            0 <= i < share_changes.len() ==> (#[trigger] share_changes[i]).1 == removal_change(
                lookup(s.shares, share_changes[i].0),
                note_id,
            ),
    ensures
        store_inv(after_delete(s, note_id, owner, owner_change, share_changes)),
{
    law_delete_keeps_index_invariant(s, note_id, owner, owner_change, share_changes);
    let t = after_delete(s, note_id, owner, owner_change, share_changes);
    assert forall|id: u128| #[trigger] t.owner_of.contains_key(id) implies id < t.next_note_id by {
        assert(s.owner_of.contains_key(id));
    }
}

/// `create_note` keeps the invariant of the stores: when it goes through
/// (the id is never taken while the invariant holds), the new note is stored
/// under the counter's id as a note of its owner, appended to the owner's
/// list, and every stored id stays below the advanced counter.
pub proof fn law_create_keeps_store_invariant(s: NotesModel, owner: Seq<char>, owner_count: u64)
    requires
        store_inv(s),
        create_refusal(s.next_note_id, lookup(s.owners, owner), owner_count, false) is None,
    ensures
        create_refusal(
            s.next_note_id,
            lookup(s.owners, owner),
            owner_count,
            s.owner_of.contains_key(s.next_note_id),
        ) is None,
        store_inv(after_create(s, owner)),
{
    let t = after_create(s, owner);
    let next = s.next_note_id;
    assert(!s.owner_of.contains_key(next));
    assert(next < u128::MAX);
    assert forall|k: Seq<char>| #[trigger] t.owners.contains_key(k) implies t.owners[k].len() > 0 by {
        if k != owner {
            assert(s.owners.contains_key(k));
        }
    }
    assert forall|id: u128| #[trigger] t.owner_of.contains_key(id) implies id < t.next_note_id by {
        if id != next {
            assert(s.owner_of.contains_key(id));
        }
    }
    assert forall|u: Seq<char>, i: int|
        #![trigger t.owners[u][i]]
        t.owners.contains_key(u) && 0 <= i < t.owners[u].len() implies t.owner_of.contains_key(
            t.owners[u][i],
        ) && t.owner_of[t.owners[u][i]] == u by {
        let x = t.owners[u][i];
        if u == owner {
            match lookup(s.owners, owner) {
                Some(old_list) => {
                    if i < old_list.len() {
                        assert(x == old_list[i]);
                        assert(s.owners[owner][i] == x);
                        assert(s.owner_of.contains_key(x));
                        assert(x != next);
                    } else {
                        assert(x == next);
                    }
                },
                None => {
                    assert(x == next);
                },
            }
        } else {
            assert(t.owners[u] == s.owners[u]);
            assert(s.owners[u][i] == x);
            assert(s.owner_of.contains_key(x));
            assert(x != next);
        }
    }
}

/// `add_user` and `remove_user` keep the invariant of the stores: filing the
/// note id under a share key, or taking it out, changes only the share index
/// and never stores an empty list there.
pub proof fn law_share_updates_keep_store_invariant(s: NotesModel, key: Seq<char>, note_id: u128)
    requires
        store_inv(s),
    ensures
        store_inv(
            NotesModel {
                shares: match entry_after_write(
                    lookup(s.shares, key),
                    filing_write(lookup(s.shares, key), note_id),
                ) {
                    Some(w) => s.shares.insert(key, w),
                    None => s.shares,
                },
                ..s
            },
        ),
        store_inv(
            NotesModel {
                shares: apply_change(
                    s.shares,
                    key,
                    removal_change(lookup(s.shares, key), note_id),
                ),
                ..s
            },
        ),
{
    lemma_apply_change_non_empty(s.shares, key, removal_change(lookup(s.shares, key), note_id));
    let w = entry_after_write(lookup(s.shares, key), filing_write(lookup(s.shares, key), note_id));
    if let Some(ws) = w {
        let m = s.shares.insert(key, ws);
        assert(ws.len() > 0);
        assert forall|k: Seq<char>| #[trigger] m.contains_key(k) implies m[k].len() > 0 by {
            if k != key {
                assert(s.shares.contains_key(k));
            }
        }
    }
}


/// How each operation moves the note id counter: `create_note` hands out the
/// counter's id and advances the counter by one; `delete_note` and the share
/// updates leave it as it is.
pub proof fn law_counter_moves_only_forward(
    s: NotesModel,
    owner: Seq<char>,
    note_id: u128,
    owner_change: IndexChange,
    share_changes: Seq<(Seq<char>, IndexChange)>,
    shares: Map<Seq<char>, Seq<u128>>,
)
    requires
        s.next_note_id < u128::MAX,
    ensures
        after_create(s, owner).next_note_id == s.next_note_id + 1,
        after_create(s, owner).owner_of.contains_key(s.next_note_id),
        after_delete(s, note_id, owner, owner_change, share_changes).next_note_id
            == s.next_note_id,
        (NotesModel { shares, ..s }).next_note_id == s.next_note_id,
{
}

/// Note ids are never reused: along a history of stores in which no step
/// lowers the counter (as `law_counter_moves_only_forward` shows of every
/// operation), a note created at step `i` (which hands out `hist[i]`'s
/// counter and advances it) has a smaller id than any note created at a later
/// step `j`, even with deletions in between.
pub proof fn law_created_ids_increase(hist: Seq<NotesModel>, i: int, j: int)
    requires
        forall|k: int|
            0 <= k < hist.len() - 1 ==> (#[trigger] hist[k + 1]).next_note_id
                >= hist[k].next_note_id,
        0 <= i < j < hist.len(),
        hist[i + 1].next_note_id == hist[i].next_note_id + 1,
    ensures
        hist[j].next_note_id > hist[i].next_note_id,
    decreases j - i,
{
    if j > i + 1 {
        law_created_ids_increase(hist, i, j - 1);
        assert(hist[(j - 1) + 1].next_note_id >= hist[j - 1].next_note_id);
    }
}

} // verus!
