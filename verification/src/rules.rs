use vstd::prelude::*;
use crate::principal::{anonymous_bytes, is_anonymous};
use crate::note_ids::{
    NoteIds, IndexUpdate, entry_view, entry_with, entry_without, filing_write, removal_change,
};

verus! {

/// Most distinct owners the canister keeps notes for.
pub const MAX_USERS: u64 = 1_000;

/// Most notes one owner may hold.
pub const MAX_NOTES_PER_USER: usize = 50;

/// Most characters of a note's encrypted text.
pub const MAX_NOTE_CHARS: usize = 100000;

/// Most readers a note may be shared with.
pub const MAX_SHARES_PER_NOTE: usize = 50;

/// Why a canister call is refused. The canister traps on each of them, which
/// undoes every change the call made.
#[derive(Debug, Clone, PartialEq, Eq)]
pub enum NotesError {
    /// The caller is the anonymous principal.
    AnonymousCaller,
    /// `refresh_note` on an id that holds no note.
    NoteNotFound,
    /// `refresh_note` by a caller the note does not authorize.
    UnauthorizedRefresh,
    /// An owner's list names a note that is not stored.
    MissingNote(u128),
    /// `delete_note` by someone other than the note's owner.
    DeleteByNonOwner,
    /// `update_note` by a caller the note does not authorize.
    UnauthorizedUpdate,
    /// The encrypted text has more than `MAX_NOTE_CHARS` characters.
    NoteTooLong,
    /// The owner already holds `MAX_NOTES_PER_USER` notes.
    TooManyNotes,
    /// A first note for a new owner while `MAX_USERS` owners are filed.
    TooManyUsers,
    /// The next note id already holds a note.
    NoteIdTaken,
    /// The note id counter cannot be advanced any further.
    NoteIdOverflow,
    /// Sharing or unsharing by someone other than the owner.
    NotOwner,
    /// The note already has `MAX_SHARES_PER_NOTE` readers.
    TooManyShares,
    /// A key request for a note the caller may not open; carries the caller.
    UnauthorizedKeyRequest(String),
    /// A key request for an id that holds no note.
    NoteDoesNotExist(u128),
}

/// The share-index key under which a note shared with `user` is filed:
/// the user's name, or "everybody" for a note shared with everyone.
pub open spec fn share_key_view(user: Option<String>) -> Seq<char> {
    match user {
        Some(u) => u@,
        None => "everybody"@,
    }
}

/// The share-index key for `user`.
pub fn share_key(user: &Option<String>) -> (key: String)
    ensures
        key@ == share_key_view(*user),
{
    match user {
        Some(u) => u.clone(),
        None => "everybody".to_owned(),
    }
}

/// A note about to be created: its id, the owner's new list, and the next id.
pub struct CreatePlan {
    pub note_id: u128,
    pub owner_ids: NoteIds,
    pub next_note_id: u128,
}

/// Why `create_note` refuses, in the order the canister checks, or `None`.
pub open spec fn create_refusal(
    next_note_id: u128,
    owner_entry: Option<Seq<u128>>,
    owner_count: u64,
    note_id_taken: bool,
) -> Option<NotesError> {
    match owner_entry {
        Some(s) if s.len() >= MAX_NOTES_PER_USER => Some(NotesError::TooManyNotes),
        None if owner_count >= MAX_USERS => Some(NotesError::TooManyUsers),
        _ => if note_id_taken {
            Some(NotesError::NoteIdTaken)
        } else if next_note_id == u128::MAX {
            Some(NotesError::NoteIdOverflow)
        } else {
            None
        },
    }
}

/// Plans `create_note` for the caller: `next_note_id` is the id counter,
/// `owner_entry` the caller's entry in the owner index, `owner_count` the number
/// of owners filed, and `note_id_taken` whether a note is stored under the id.
pub fn plan_create_note(
    next_note_id: u128,
    owner_entry: Option<NoteIds>,
    owner_count: u64,
    note_id_taken: bool,
) -> (r: Result<CreatePlan, NotesError>)
    ensures
        match create_refusal(next_note_id, entry_view(owner_entry), owner_count, note_id_taken) {
            Some(e) => r == Err::<CreatePlan, NotesError>(e),
            None => r matches Ok(p) && p.note_id == next_note_id && p.next_note_id
                == next_note_id + 1 && p.owner_ids@ == (match entry_view(owner_entry) {
                Some(s) => s.push(next_note_id),
                None => seq![next_note_id],
            }),
        },
{
    let owner_ids = match owner_entry {
        Some(ids) => {
            if ids.len() >= MAX_NOTES_PER_USER {
                return Err(NotesError::TooManyNotes);
            }
            let mut ids = ids;
            ids.push(next_note_id);
            ids
        },
        None => {
            if owner_count >= MAX_USERS {
                return Err(NotesError::TooManyUsers);
            }
            let mut ids = NoteIds::new();
            ids.push(next_note_id);
            assert(ids@ =~= seq![next_note_id]);
            ids
        },
    };
    if note_id_taken {
        return Err(NotesError::NoteIdTaken);
    }
    if next_note_id == u128::MAX {
        return Err(NotesError::NoteIdOverflow);
    }
    Ok(CreatePlan { note_id: next_note_id, owner_ids, next_note_id: next_note_id + 1 })
}

/// A looked-up share entry: the key and what the share index holds under it.
pub struct ShareEntry {
    pub key: String,
    pub ids: Option<NoteIds>,
}

/// An update of the share index under `key`.
pub struct KeyedUpdate {
    pub key: String,
    pub update: IndexUpdate,
}

/// The index updates that delete a note.
pub struct DeletePlan {
    pub owner_update: IndexUpdate,
    pub share_updates: Vec<KeyedUpdate>,
}

/// Plans `delete_note(note_id)` by `caller` on a stored note with `owner`,
/// the owner's entry in the owner index, and the share-index entry
/// under each of the note's reader names.
pub fn plan_delete_note(
    caller: &String,
    note_id: u128,
    owner: &String,
    owner_entry: Option<NoteIds>,
    share_entries: Vec<ShareEntry>,
) -> (r: Result<DeletePlan, NotesError>)
    ensures
        owner@ != caller@ ==> r == Err::<DeletePlan, NotesError>(NotesError::DeleteByNonOwner),
        owner@ == caller@ ==> (r matches Ok(p) && {
            &&& p.owner_update.change() == removal_change(entry_view(owner_entry), note_id)
            &&& p.share_updates@.len() == share_entries@.len()
            &&& forall|i: int|
                0 <= i < share_entries@.len() ==> {
                    &&& (#[trigger] p.share_updates@[i]).key@ == share_entries@[i].key@
                    &&& p.share_updates@[i].update.change() == removal_change(
                        entry_view(share_entries@[i].ids),
                        note_id,
                    )
                }
        }),
{
    if !(*owner == *caller) {
        return Err(NotesError::DeleteByNonOwner);
    }
    let owner_update = entry_without(owner_entry, note_id);
    let mut share_updates: Vec<KeyedUpdate> = Vec::new();
    let mut rest = share_entries;
    let ghost entries = rest@;
    let n = rest.len();
    let mut i: usize = 0;
    while i < n
        invariant
            n == entries.len(),
            i <= n,
            rest@ == entries.skip(i as int),
            share_updates@.len() == i,
            forall|j: int|
                0 <= j < i ==> {
                    &&& (#[trigger] share_updates@[j]).key@ == entries[j].key@
                    &&& share_updates@[j].update.change() == removal_change(
                        entry_view(entries[j].ids),
                        note_id,
                    )
                },
        decreases n - i,
    {
        assert(rest@[0] == entries[i as int]);
        let entry = rest.remove(0);
        assert(rest@ =~= entries.skip(i + 1));
        let update = entry_without(entry.ids, note_id);
        share_updates.push(KeyedUpdate { key: entry.key, update });
        i = i + 1;
    }
    Ok(DeletePlan { owner_update, share_updates })
}


/// What `add_user` writes to the share index: under `key`, the list `ids`
/// when it is `Some`, nothing when it is `None`.
pub struct ShareWrite {
    pub key: String,
    pub ids: Option<NoteIds>,
}

/// The looked-up entry already files `id`: the note is already shared under that key.
pub open spec fn already_filed(entry: Option<Seq<u128>>, id: u128) -> bool {
    entry matches Some(s) && s.contains(id)
}

/// Plans `add_user(note_id, user, ...)` by `caller` on a stored note with
/// `owner` and `reader_count` readers; `entry` is what the share index holds
/// under `share_key(user)`. Sharing a note that is already shared with the
/// user has no effect, whatever the number of readers; a new share needs
/// fewer than `MAX_SHARES_PER_NOTE` readers.
pub fn plan_add_user(
    caller: &String,
    note_id: u128,
    owner: &String,
    reader_count: usize,
    user: &Option<String>,
    entry: Option<NoteIds>,
) -> (r: Result<ShareWrite, NotesError>)
    ensures
        owner@ != caller@ ==> r == Err::<ShareWrite, NotesError>(NotesError::NotOwner),
        owner@ == caller@ && already_filed(entry_view(entry), note_id) ==> (r matches Ok(w)
            && w.key@ == share_key_view(*user) && w.ids is None),
        owner@ == caller@ && !already_filed(entry_view(entry), note_id) && reader_count
            >= MAX_SHARES_PER_NOTE ==> r == Err::<ShareWrite, NotesError>(
            NotesError::TooManyShares,
        ),
        owner@ == caller@ && !already_filed(entry_view(entry), note_id) && reader_count
            < MAX_SHARES_PER_NOTE ==> (r matches Ok(w) && w.key@ == share_key_view(*user)
            && entry_view(w.ids) == filing_write(entry_view(entry), note_id)),
{
    if check_owner(caller, owner).is_err() {
        return Err(NotesError::NotOwner);
    }
    let key = share_key(user);
    let filed = match &entry {
        Some(ids) => ids.contains(note_id),
        None => false,
    };
    if filed {
        return Ok(ShareWrite { key, ids: None });
    }
    if reader_count >= MAX_SHARES_PER_NOTE {
        return Err(NotesError::TooManyShares);
    }
    let ids = entry_with(entry, note_id);
    Ok(ShareWrite { key, ids })
}

/// Checks that `caller` owns the note, as sharing and unsharing require.
pub fn check_owner(caller: &String, owner: &String) -> (r: Result<(), NotesError>)
    ensures
        owner@ != caller@ ==> r == Err::<(), NotesError>(NotesError::NotOwner),
        owner@ == caller@ ==> r == Ok::<(), NotesError>(()),
{
    if *owner == *caller {
        Ok(())
    } else {
        Err(NotesError::NotOwner)
    }
}

/// Plans `remove_user(note_id, user)` by `caller` on a stored note with
/// `owner`; `reader_removed` tells whether the note dropped the reader, and
/// `entry` is what the share index holds under `share_key(user)`. `Ok(None)`
/// means the share index is left alone.
pub fn plan_remove_user(
    caller: &String,
    note_id: u128,
    owner: &String,
    user: &Option<String>,
    reader_removed: bool,
    entry: Option<NoteIds>,
) -> (r: Result<Option<KeyedUpdate>, NotesError>)
    ensures
        owner@ != caller@ ==> r == Err::<Option<KeyedUpdate>, NotesError>(NotesError::NotOwner),
        owner@ == caller@ && !reader_removed ==> r == Ok::<Option<KeyedUpdate>, NotesError>(None),
        owner@ == caller@ && reader_removed ==> (r matches Ok(Some(u)) && u.key@ == share_key_view(
            *user,
        ) && u.update.change() == removal_change(entry_view(entry), note_id)),
{
    if check_owner(caller, owner).is_err() {
        return Err(NotesError::NotOwner);
    }
    if !reader_removed {
        return Ok(None);
    }
    let key = share_key(user);
    let update = entry_without(entry, note_id);
    Ok(Some(KeyedUpdate { key, update }))
}

/// Whether `text` has at most `limit` characters.
pub fn within_char_limit(text: &String, limit: usize) -> (r: bool)
    ensures
        r == (text@.len() <= limit),
{
    broadcast use vstd::string::group_string_axioms;

    let mut n: usize = 0;
    for c in it: text.as_str().chars()
        invariant
            n == it.index(),
            n <= limit,
            it.seq() == text@,
    {
        if n == limit {
            return false;
        }
        n = n + 1;
    }
    true
}

/// What the update check reads of a stored note: whether it authorizes the
/// caller (its owner, or a user it is shared with).
pub struct NoteGate {
    pub authorized: bool,
}

/// Checks `update_note` by the caller (given by its principal's bytes) on the
/// note under the id (`None` when no note is stored there). Only registered
/// callers may call: the anonymous principal is refused. A missing note is
/// left alone (`Ok(false)`). Otherwise the note must authorize the caller and
/// the new text have at most `MAX_NOTE_CHARS` characters;
/// `Ok(true)` means the note is to be updated.
pub fn check_update_note(caller: &[u8], note: Option<NoteGate>, encrypted_text: &String) -> (r:
    Result<bool, NotesError>)
    requires
        caller@.len() <= 29,
    ensures
        caller@ == anonymous_bytes() ==> r == Err::<bool, NotesError>(
            NotesError::AnonymousCaller,
        ),
        caller@ != anonymous_bytes() && note is None ==> r == Ok::<bool, NotesError>(false),
        caller@ != anonymous_bytes() ==> (note matches Some(n) ==> (
            !n.authorized ==> r == Err::<bool, NotesError>(
                NotesError::UnauthorizedUpdate,
            ))),
        caller@ != anonymous_bytes() ==> (note matches Some(n) ==> (
            (n.authorized && encrypted_text@.len() > MAX_NOTE_CHARS) ==> r == Err::<
                bool,
                NotesError,
            >(NotesError::NoteTooLong))),
        caller@ != anonymous_bytes() ==> (note matches Some(n) ==> (
            (n.authorized && encrypted_text@.len() <= MAX_NOTE_CHARS) ==> r
                == Ok::<bool, NotesError>(true))),
{
    if is_anonymous(caller) {
        return Err(NotesError::AnonymousCaller);
    }
    match note {
        None => Ok(false),
        Some(n) => {
            if !n.authorized {
                return Err(NotesError::UnauthorizedUpdate);
            }
            if !within_char_limit(encrypted_text, MAX_NOTE_CHARS) {
                return Err(NotesError::NoteTooLong);
            }
            Ok(true)
        },
    }
}

/// Checks `refresh_note` by the caller (given by its principal's bytes): the
/// anonymous principal is refused, and the note must be stored and authorize
/// the caller.
pub fn check_refresh_note(caller: &[u8], found: bool, authorized: bool) -> (r: Result<
    (),
    NotesError,
>)
    requires
        caller@.len() <= 29,
    ensures
        caller@ == anonymous_bytes() ==> r == Err::<(), NotesError>(NotesError::AnonymousCaller),
        caller@ != anonymous_bytes() && !found ==> r == Err::<(), NotesError>(
            NotesError::NoteNotFound,
        ),
        caller@ != anonymous_bytes() && found && !authorized ==> r == Err::<(), NotesError>(
            NotesError::UnauthorizedRefresh,
        ),
        caller@ != anonymous_bytes() && found && authorized ==> r == Ok::<(), NotesError>(()),
{
    if is_anonymous(caller) {
        Err(NotesError::AnonymousCaller)
    } else if !found {
        Err(NotesError::NoteNotFound)
    } else if !authorized {
        Err(NotesError::UnauthorizedRefresh)
    } else {
        Ok(())
    }
}

/// Every id of `s` is below `bound`.
pub open spec fn ids_below(s: Seq<u128>, bound: u128) -> bool {
    forall|i: int| 0 <= i < s.len() ==> s[i] < bound
}

/// The owner's list after `create_note` files `id`.
pub open spec fn owner_list_after_create(entry: Option<Seq<u128>>, id: u128) -> Seq<u128> {
    match entry {
        Some(s) => s.push(id),
        None => seq![id],
    }
}

/// When every id the owner holds is below the id counter and the owner holds at
/// most `MAX_NOTES_PER_USER` notes, a `create_note` that goes through files an
/// id the owner did not hold, keeps all the owner's ids below the advanced
/// counter, and keeps the owner within `MAX_NOTES_PER_USER` notes.
pub proof fn law_create_files_fresh_id(
    next_note_id: u128,
    entry: Option<Seq<u128>>,
    owner_count: u64,
    note_id_taken: bool,
)
    requires
        create_refusal(next_note_id, entry, owner_count, note_id_taken) is None,
        entry matches Some(s) ==> ids_below(s, next_note_id) && s.len() <= MAX_NOTES_PER_USER,
    ensures
        entry matches Some(s) ==> !s.contains(next_note_id),
        ids_below(owner_list_after_create(entry, next_note_id), (next_note_id + 1) as u128),
        owner_list_after_create(entry, next_note_id).len() <= MAX_NOTES_PER_USER,
{
    if let Some(s) = entry {
        if s.contains(next_note_id) {
            let k = choose|k: int| 0 <= k < s.len() && s[k] == next_note_id;
            assert(s[k] < next_note_id);
        }
    }
}


/// When `create_note` goes through, said directly: an owner who already has
/// notes needs fewer than `MAX_NOTES_PER_USER` of them, whatever the number of
/// owners filed; only an owner with no notes filed needs fewer than
/// `MAX_USERS` owners filed; and the next id must hold no note and not be the
/// last id.
pub proof fn law_create_goes_through_iff(
    next_note_id: u128,
    owner_entry: Option<Seq<u128>>,
    owner_count: u64,
    note_id_taken: bool,
)
    ensures
        create_refusal(next_note_id, owner_entry, owner_count, note_id_taken) is None <==> (
        (owner_entry is Some ==> owner_entry->0.len() < MAX_NOTES_PER_USER) && (owner_entry is None
            ==> owner_count < MAX_USERS) && !note_id_taken && next_note_id < u128::MAX),
        create_refusal(next_note_id, owner_entry, owner_count, note_id_taken) == Some(
            NotesError::TooManyUsers,
        ) ==> owner_entry is None && owner_count >= MAX_USERS,
        create_refusal(next_note_id, owner_entry, owner_count, note_id_taken) == Some(
            NotesError::TooManyNotes,
        ) ==> owner_entry is Some && owner_entry->0.len() >= MAX_NOTES_PER_USER,
{
}

/// A note shared with a named user is filed under that user's full name, the
/// key under which the user's own listing looks; a note shared with everyone
/// is filed under "everybody". Distinct users get distinct keys.
pub proof fn law_share_key_is_the_user_name(user: Option<String>, other: Option<String>)
    ensures
        user is Some ==> share_key_view(user) == user->0@,
        user is None ==> share_key_view(user) == "everybody"@,
        (user is Some && other is Some && user->0@ != other->0@) ==> share_key_view(user)
            != share_key_view(other),
{
}

} // verus!
