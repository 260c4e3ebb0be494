use vstd::prelude::*;

verus! {

/// The ids of the notes filed under one owner or one share name.
#[derive(Debug, Clone, PartialEq, Eq)]
pub struct NoteIds {
    ids: Vec<u128>,
}

impl View for NoteIds {
    type V = Seq<u128>;

    closed spec fn view(&self) -> Seq<u128> {
        self.ids@
    }
}

/// `s` with every occurrence of `id` taken out, the others kept in order.
pub open spec fn ids_without(s: Seq<u128>, id: u128) -> Seq<u128>
    decreases s.len(),
{
    if s.len() == 0 {
        s
    } else {
        let rest = ids_without(s.drop_last(), id);
        if s.last() == id {
            rest
        } else {
            rest.push(s.last())
        }
    }
}

impl NoteIds {
    /// An empty list.
    pub fn new() -> (r: NoteIds)
        ensures
            r@ == Seq::<u128>::empty(),
    {
        NoteIds { ids: Vec::new() }
    }

    /// A list holding exactly `ids`, in order.
    pub fn from_vec(ids: Vec<u128>) -> (r: NoteIds)
        ensures
            r@ == ids@,
    {
        NoteIds { ids }
    }

    /// The ids, in order.
    pub fn as_vec(&self) -> (r: &Vec<u128>)
        ensures
            r@ == self@,
    {
        &self.ids
    }

    /// Walks the ids in order.
    pub fn iter(&self) -> (it: std::slice::Iter<'_, u128>)
        ensures
            vstd::std_specs::slice::into_iter_elts(it) == self@,
    {
        broadcast use vstd::std_specs::slice::group_slice_axioms;

        let it = self.ids.iter();
        assert(vstd::std_specs::slice::into_iter_elts(it) =~= self@);
        it
    }

    pub fn len(&self) -> (r: usize)
        ensures
            r == self@.len(),
    {
        self.ids.len()
    }

    pub fn is_empty(&self) -> (r: bool)
        ensures
            r == (self@.len() == 0),
    {
        self.ids.len() == 0
    }

    pub fn contains(&self, id: u128) -> (r: bool)
        ensures
            r == self@.contains(id),
    {
        let mut i: usize = 0;
        while i < self.ids.len()
            invariant
                i <= self.ids.len(),
                forall|j: int| 0 <= j < i ==> self.ids@[j] != id,
            decreases self.ids.len() - i,
        {
            if self.ids[i] == id {
                return true;
            }
            i = i + 1;
        }
        false
    }

    /// Appends `id` at the end.
    pub fn push(&mut self, id: u128)
        ensures
            final(self)@ == old(self)@.push(id),
    {
        self.ids.push(id);
    }

    /// Takes every occurrence of `id` out of the list; the others keep their order.
    pub fn remove_id(&mut self, id: u128)
        ensures
            final(self)@ == ids_without(old(self)@, id),
    {
        let mut kept: Vec<u128> = Vec::new();
        let mut i: usize = 0;
        while i < self.ids.len()
            invariant
                i <= self.ids.len(),
                kept@ == ids_without(self.ids@.take(i as int), id),
            decreases self.ids.len() - i,
        {
            assert(self.ids@.take(i + 1).drop_last() =~= self.ids@.take(i as int));
            let x = self.ids[i];
            if x != id {
                kept.push(x);
            }
            i = i + 1;
        }
        assert(self.ids@.take(self.ids.len() as int) =~= self.ids@);
        self.ids = kept;
    }
}


/// The view of a looked-up index entry: `None` when the key is not filed.
pub open spec fn entry_view(entry: Option<NoteIds>) -> Option<Seq<u128>> {
    match entry {
        Some(ids) => Some(ids@),
        None => None,
    }
}

/// What an update does to one entry of an index (owner map or share map).
pub enum IndexChange {
    /// The entry is left as it is.
    Keep,
    /// The entry is (re)written with these ids.
    Store(Seq<u128>),
    /// The entry is removed.
    Delete,
}

/// An update of one entry of an index, as the canister applies it to storage.
#[derive(Debug, Clone, PartialEq, Eq)]
pub enum IndexUpdate {
    Unchanged,
    Put(NoteIds),
    Remove,
}

impl IndexUpdate {
    pub open spec fn change(self) -> IndexChange {
        match self {
            IndexUpdate::Unchanged => IndexChange::Keep,
            IndexUpdate::Put(ids) => IndexChange::Store(ids@),
            IndexUpdate::Remove => IndexChange::Delete,
        }
    }
}

/// Taking `id` out of a looked-up entry: an absent entry is left alone, an entry
/// left empty is removed, any other is rewritten without `id`.
pub open spec fn removal_change(entry: Option<Seq<u128>>, id: u128) -> IndexChange {
    match entry {
        None => IndexChange::Keep,
        Some(s) => {
            let rest = ids_without(s, id);
            if rest.len() == 0 {
                IndexChange::Delete
            } else {
                IndexChange::Store(rest)
            }
        },
    }
}

/// Filing `id` in a looked-up entry: the value to write, or `None` when the
/// entry already holds `id` and nothing is written.
pub open spec fn filing_write(entry: Option<Seq<u128>>, id: u128) -> Option<Seq<u128>> {
    match entry {
        None => Some(seq![id]),
        Some(s) => if s.contains(id) {
            None
        } else {
            Some(s.push(id))
        },
    }
}

/// The entry as it stands after a change.
pub open spec fn entry_after(entry: Option<Seq<u128>>, change: IndexChange) -> Option<Seq<u128>> {
    match change {
        IndexChange::Keep => entry,
        IndexChange::Store(s) => Some(s),
        IndexChange::Delete => None,
    }
}

/// The entry as it stands after a filing write (or none).
pub open spec fn entry_after_write(entry: Option<Seq<u128>>, write: Option<Seq<u128>>) -> Option<
    Seq<u128>,
> {
    match write {
        Some(s) => Some(s),
        None => entry,
    }
}

/// The update that takes `note_id` out of the looked-up `entry`.
pub fn entry_without(entry: Option<NoteIds>, note_id: u128) -> (u: IndexUpdate)
    ensures
        u.change() == removal_change(entry_view(entry), note_id),
{
    match entry {
        None => IndexUpdate::Unchanged,
        Some(ids) => {
            let mut ids = ids;
            ids.remove_id(note_id);
            if ids.is_empty() {
                IndexUpdate::Remove
            } else {
                IndexUpdate::Put(ids)
            }
        },
    }
}

/// What to write to file `note_id` in the looked-up `entry`; `None` when the
/// entry already holds it.
pub fn entry_with(entry: Option<NoteIds>, note_id: u128) -> (w: Option<NoteIds>)
    ensures
        entry_view(w) == filing_write(entry_view(entry), note_id),
{
    match entry {
        None => {
            let mut ids = NoteIds::new();
            ids.push(note_id);
            assert(ids@ =~= seq![note_id]);
            Some(ids)
        },
        Some(ids) => {
            if ids.contains(note_id) {
                None
            } else {
                let mut ids = ids;
                ids.push(note_id);
                Some(ids)
            }
        },
    }
}

/// An id is in `ids_without(s, id)` exactly when it is in `s` and is not `id`.
pub proof fn lemma_without_contains(s: Seq<u128>, id: u128, x: u128)
    ensures
        ids_without(s, id).contains(x) <==> (s.contains(x) && x != id),
    decreases s.len(),
{
    if s.len() > 0 {
        lemma_without_contains(s.drop_last(), id, x);
        let rest = ids_without(s.drop_last(), id);
        assert(s =~= s.drop_last().push(s.last()));
        if s.contains(x) && x != id && !s.drop_last().contains(x) {
            let k = choose|k: int| 0 <= k < s.len() && s[k] == x;
            if k < s.len() - 1 {
                assert(s.drop_last()[k] == x);
            }
            assert(s.last() == x);
            assert(rest.push(s.last())[rest.len() as int] == x);
        }
        if ids_without(s, id).contains(x) && s.last() != id {
            let k = choose|k: int| 0 <= k < rest.push(s.last()).len() && rest.push(s.last())[k] == x;
            if k < rest.len() {
                assert(rest[k] == x);
            }
        }
        if s.drop_last().contains(x) {
            let k = choose|k: int| 0 <= k < s.drop_last().len() && s.drop_last()[k] == x;
            assert(s[k] == x);
        }
        if rest.contains(x) && s.last() != id {
            let k = choose|k: int| 0 <= k < rest.len() && rest[k] == x;
            assert(rest.push(s.last())[k] == x);
        }
    }
}

/// Taking out an id that is not there leaves the list as it was.
pub proof fn lemma_without_absent(s: Seq<u128>, id: u128)
    requires
        !s.contains(id),
    ensures
        ids_without(s, id) == s,
    decreases s.len(),
{
    if s.len() > 0 {
        assert(!s.drop_last().contains(id)) by {
            if s.drop_last().contains(id) {
                let k = choose|k: int| 0 <= k < s.drop_last().len() && s.drop_last()[k] == id;
                assert(s[k] == id);
            }
        }
        lemma_without_absent(s.drop_last(), id);
        assert(s.last() != id) by {
            assert(s[s.len() - 1] == s.last());
        }
        assert(s =~= s.drop_last().push(s.last()));
    }
}

/// Appending `id` and then taking `id` out is the same as only taking it out.
pub proof fn lemma_without_after_push(s: Seq<u128>, id: u128)
    ensures
        ids_without(s.push(id), id) == ids_without(s, id),
{
    assert(s.push(id).drop_last() =~= s);
}


/// An index entry as the canister keeps it: absent, or holding at least one id.
pub open spec fn stored_entry(entry: Option<Seq<u128>>) -> bool {
    match entry {
        Some(s) => s.len() > 0,
        None => true,
    }
}

/// Filing an id that an entry already holds writes nothing: sharing a note
/// with a user twice is the same as sharing it once.
pub proof fn law_filing_is_idempotent(entry: Option<Seq<u128>>, id: u128)
    ensures
        filing_write(entry_after_write(entry, filing_write(entry, id)), id) is None,
        entry_after_write(entry, filing_write(entry, id)) matches Some(s) && s.contains(id),
{
    match entry {
        None => {
            assert(seq![id][0] == id);
        },
        Some(s) => {
            if !s.contains(id) {
                assert(s.push(id)[s.len() as int] == id);
            }
        },
    }
}

/// Taking out an id that an entry does not hold leaves the entry as it was:
/// deleting or unsharing a note that is not filed there changes nothing.
pub proof fn law_removal_of_absent_id(entry: Option<Seq<u128>>, id: u128)
    requires
        stored_entry(entry),
        entry matches Some(s) ==> !s.contains(id),
    ensures
        entry_after(entry, removal_change(entry, id)) == entry,
{
    if let Some(s) = entry {
        lemma_without_absent(s, id);
    }
}

/// Updates keep every entry of an index non-empty: an entry emptied by a
/// removal is deleted, and a filing always writes the id it files.
pub proof fn law_entries_stay_non_empty(entry: Option<Seq<u128>>, id: u128)
    requires
        stored_entry(entry),
    ensures
        stored_entry(entry_after(entry, removal_change(entry, id))),
        stored_entry(entry_after_write(entry, filing_write(entry, id))),
{
}

/// Filing a new id and then taking it out again restores the entry: a note
/// created (or shared) and then deleted (or unshared) leaves the index as it
/// was.
pub proof fn law_removal_undoes_filing(entry: Option<Seq<u128>>, id: u128)
    requires
        stored_entry(entry),
        entry matches Some(s) ==> !s.contains(id),
    ensures
        ({
            let filed = entry_after_write(entry, filing_write(entry, id));
            entry_after(filed, removal_change(filed, id)) == entry
        }),
{
    match entry {
        None => {
            let s = seq![id];
            assert(s.drop_last() =~= Seq::<u128>::empty());
            assert(s.last() == id);
            assert(ids_without(Seq::<u128>::empty(), id) == Seq::<u128>::empty());
            assert(ids_without(s, id) =~= Seq::<u128>::empty());
        },
        Some(s) => {
            lemma_without_after_push(s, id);
            lemma_without_absent(s, id);
        },
    }
}


/// After a removal, the entry no longer holds the id: a deleted (or unshared)
/// note is filed under no key it was taken out of.
pub proof fn law_removal_unfiles_id(entry: Option<Seq<u128>>, id: u128)
    ensures
        entry_after(entry, removal_change(entry, id)) matches Some(s) ==> !s.contains(id),
{
    if let Some(s) = entry {
        lemma_without_contains(s, id, id);
    }
}


/// Taking an id out twice is the same as taking it out once; so a delete that
/// meets the same share key twice leaves the same index as meeting it once.
pub proof fn law_removal_is_idempotent(entry: Option<Seq<u128>>, id: u128)
    ensures
        ({
            let once = entry_after(entry, removal_change(entry, id));
            entry_after(once, removal_change(once, id)) == once
        }),
{
    if let Some(s) = entry {
        let rest = ids_without(s, id);
        if rest.len() > 0 {
            assert(!rest.contains(id)) by {
                lemma_without_contains(s, id, id);
            }
            lemma_without_absent(rest, id);
        }
    }
}

} // verus!
