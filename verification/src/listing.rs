use vstd::prelude::*;
use crate::rules::NotesError;

verus! {

/// One reader of a note: the reader's name (a principal's text, or the name
/// that stands for everyone) and the time from which it may read, if any.
pub struct Reader {
    pub name: String,
    pub when: Option<u64>,
}

/// What the listing reads of a stored note: its id and its readers.
pub struct NoteAccess {
    pub id: u128,
    pub readers: Vec<Reader>,
}

/// An id from an index, looked up in the note store.
pub struct Lookup {
    pub id: u128,
    pub note: Option<NoteAccess>,
}

/// The reader's time has come: it has none, or it is not after `now`.
pub open spec fn time_reached(when: Option<u64>, now: u64) -> bool {
    match when {
        None => true,
        Some(t) => t <= now,
    }
}

/// The reader entry lets `user` read at time `now`: an entry for everyone
/// (named `everyone`) once its time has come, any other entry only for the
/// user it names, once its time has come.
pub open spec fn grants(r: Reader, user: Seq<char>, everyone: Seq<char>, now: u64) -> bool {
    if r.name@ != everyone {
        r.name@ == user && time_reached(r.when, now)
    } else {
        time_reached(r.when, now)
    }
}

/// Some reader entry of the note lets `user` read it at `now`.
pub open spec fn readable(n: NoteAccess, user: Seq<char>, everyone: Seq<char>, now: u64) -> bool {
    exists|i: int| 0 <= i < n.readers@.len() && grants(#[trigger] n.readers@[i], user, everyone, now)
}

/// The looked-up entry is a stored note with id `x`.
pub open spec fn holds_id(l: Lookup, x: u128) -> bool {
    l.note matches Some(n) && n.id == x
}

/// The looked-up entry is a stored note with id `x` that `user` may read at `now`.
pub open spec fn holds_readable(
    l: Lookup,
    x: u128,
    user: Seq<char>,
    everyone: Seq<char>,
    now: u64,
) -> bool {
    l.note matches Some(n) && n.id == x && readable(n, user, everyone, now)
}

/// Some looked-up entry is a stored note with id `x`.
pub open spec fn found_id(lookups: Seq<Lookup>, x: u128) -> bool {
    exists|i: int| 0 <= i < lookups.len() && holds_id(#[trigger] lookups[i], x)
}

/// Some looked-up entry is a stored note with id `x` that `user` may read at `now`.
pub open spec fn found_readable_id(
    lookups: Seq<Lookup>,
    x: u128,
    user: Seq<char>,
    everyone: Seq<char>,
    now: u64,
) -> bool {
    exists|i: int|
        0 <= i < lookups.len() && holds_readable(#[trigger] lookups[i], x, user, everyone, now)
}

/// The ids `get_notes` lists: every owned note, and every note shared with
/// the user or with everyone that the user may read now.
pub open spec fn listed(
    x: u128,
    user: Seq<char>,
    everyone: Seq<char>,
    now: u64,
    owned: Seq<Lookup>,
    shared: Seq<Lookup>,
    public: Seq<Lookup>,
) -> bool {
    found_id(owned, x) || found_readable_id(shared, x, user, everyone, now) || found_readable_id(
        public,
        x,
        user,
        everyone,
        now,
    )
}

/// Entry `i` is the first looked-up entry that holds no note.
pub open spec fn first_missing(lookups: Seq<Lookup>, i: int) -> bool {
    &&& 0 <= i < lookups.len()
    &&& lookups[i].note is None
    &&& forall|j: int| 0 <= j < i ==> (#[trigger] lookups[j]).note is Some
}

pub open spec fn strictly_increasing(s: Seq<u128>) -> bool {
    forall|i: int, j: int| 0 <= i < j < s.len() ==> s[i] < s[j]
}

/// Whether `n` lets `user` read it at `now`.
pub fn is_readable(n: &NoteAccess, user: &String, everyone: &String, now: u64) -> (r: bool)
    ensures
        r == readable(*n, user@, everyone@, now),
{
    let mut i: usize = 0;
    while i < n.readers.len()
        invariant
            i <= n.readers@.len(),
            forall|j: int| 0 <= j < i ==> !grants(#[trigger] n.readers@[j], user@, everyone@, now),
        decreases n.readers.len() - i,
    {
        let r = &n.readers[i];
        let time_ok = match r.when {
            None => true,
            Some(t) => t <= now,
        };
        let ok = if !(r.name == *everyone) {
            r.name == *user && time_ok
        } else {
            time_ok
        };
        if ok {
            assert(grants(n.readers@[i as int], user@, everyone@, now));
            return true;
        }
        i = i + 1;
    }
    false
}

/// Adds `x` to the strictly increasing `v`, keeping it strictly increasing.
pub fn insert_sorted(v: &mut Vec<u128>, x: u128)
    requires
        strictly_increasing(old(v)@),
    ensures
        strictly_increasing(final(v)@),
        forall|y: u128| final(v)@.contains(y) <==> (old(v)@.contains(y) || y == x),
{
    let mut p: usize = 0;
    while p < v.len() && v[p] < x
        invariant
            v@ == old(v)@,
            p <= v.len(),
            forall|j: int| 0 <= j < p ==> v@[j] < x,
        decreases v.len() - p,
    {
        p = p + 1;
    }
    if p < v.len() && v[p] == x {
        assert(v@[p as int] == x);
        assert(forall|y: u128| v@.contains(y) <==> (old(v)@.contains(y) || y == x));
        return;
    }
    let ghost before = v@;
    assert(before == old(v)@);
    v.insert(p, x);
    assert(v@ =~= before.take(p as int).push(x) + before.skip(p as int));
    assert forall|y: u128| v@.contains(y) <==> (before.contains(y) || y == x) by {
        if before.contains(y) {
            let k = choose|k: int| 0 <= k < before.len() && before[k] == y;
            if k < p {
                assert(v@[k] == y);
            } else {
                assert(v@[k + 1] == y);
            }
        }
        if y == x {
            assert(v@[p as int] == y);
        }
        if v@.contains(y) {
            let k = choose|k: int| 0 <= k < v@.len() && v@[k] == y;
            if k < p {
                assert(before[k] == y);
            } else if k > p {
                assert(before[k - 1] == y);
            }
        }
    }
    assert(forall|y: u128| v@.contains(y) <==> (old(v)@.contains(y) || y == x));
    assert(strictly_increasing(v@));
}

/// Adds to `out` the id of each stored note of `lookups` that `user` may read
/// at `now` (every stored note when `all`).
fn collect_ids(
    out: &mut Vec<u128>,
    lookups: &Vec<Lookup>,
    all: bool,
    user: &String,
    everyone: &String,
    now: u64,
)
    requires
        strictly_increasing(old(out)@),
    ensures
        strictly_increasing(final(out)@),
        forall|y: u128|
            #![trigger final(out)@.contains(y)]
            final(out)@.contains(y) <==> (old(out)@.contains(y) || (if all {
                found_id(lookups@, y)
            } else {
                found_readable_id(lookups@, y, user@, everyone@, now)
            })),
{
    let ghost start = out@;
    let mut i: usize = 0;
    while i < lookups.len()
        invariant
            i <= lookups@.len(),
            strictly_increasing(out@),
            forall|y: u128|
                #![trigger out@.contains(y)]
                out@.contains(y) <==> (start.contains(y) || (if all {
                    found_id(lookups@.take(i as int), y)
                } else {
                    found_readable_id(lookups@.take(i as int), y, user@, everyone@, now)
                })),
        decreases lookups.len() - i,
    {
        let ghost prev = lookups@.take(i as int);
        let ghost next = lookups@.take(i + 1);
        let ghost before = out@;
        assert(next =~= prev.push(lookups@[i as int]));
        let ghost item = lookups@[i as int];
        let ghost wanted = |y: u128|
            if all {
                holds_id(item, y)
            } else {
                holds_readable(item, y, user@, everyone@, now)
            };
        match &lookups[i].note {
            None => {},
            Some(n) => {
                if all || is_readable(n, user, everyone, now) {
                    insert_sorted(out, n.id);
                }
            },
        }
        assert forall|y: u128| #![trigger out@.contains(y)]
            out@.contains(y) <==> (before.contains(y) || wanted(y)) by {
            if out@.contains(y) && !before.contains(y) {
                assert(wanted(y));
            }
        }
        assert forall|y: u128| #![trigger out@.contains(y)]
            out@.contains(y) <==> (start.contains(y) || (if all {
                found_id(next, y)
            } else {
                found_readable_id(next, y, user@, everyone@, now)
            })) by {
            assert(next[i as int] == item);
            if before.contains(y) {
            }
            if found_id(next, y) && !found_id(prev, y) {
                let k = choose|k: int| 0 <= k < next.len() && holds_id(#[trigger] next[k], y);
                if k < prev.len() {
                    assert(prev[k] == next[k]);
                }
            }
            if found_id(prev, y) {
                let k = choose|k: int| 0 <= k < prev.len() && holds_id(#[trigger] prev[k], y);
                assert(next[k] == prev[k]);
            }
            if found_readable_id(next, y, user@, everyone@, now) && !found_readable_id(prev, y, user@, everyone@, now) {
                let k = choose|k: int| 0 <= k < next.len() && holds_readable(#[trigger] next[k], y, user@, everyone@, now);
                if k < prev.len() {
                    assert(prev[k] == next[k]);
                }
            }
            if found_readable_id(prev, y, user@, everyone@, now) {
                let k = choose|k: int| 0 <= k < prev.len() && holds_readable(#[trigger] prev[k], y, user@, everyone@, now);
                assert(next[k] == prev[k]);
            }
        }
        i = i + 1;
    }
    assert(lookups@.take(lookups@.len() as int) =~= lookups@);
}

/// The ids of the notes `get_notes` returns to `user` at time `now`, in
/// increasing order and each once: the user's own notes (`owned`, looked up
/// from the owner index), and the notes filed under the user's share entry
/// (`shared`) or under everyone's (`public`) that the user may read now.
/// `everyone` is the reader name that stands for everyone. An owned id that
/// holds no note refuses the call; shared or public ids that hold none are
/// passed over.
pub fn list_note_ids(
    user: &String,
    everyone: &String,
    now: u64,
    owned: &Vec<Lookup>,
    shared: &Vec<Lookup>,
    public: &Vec<Lookup>,
) -> (r: Result<Vec<u128>, NotesError>)
    ensures
        (exists|i: int| first_missing(owned@, i)) ==> (r matches Err(e) && exists|i: int|
            first_missing(owned@, i) && e == NotesError::MissingNote(owned@[i].id)),
        (forall|i: int| 0 <= i < owned@.len() ==> (#[trigger] owned@[i]).note is Some) ==> (
        r matches Ok(v) && strictly_increasing(v@) && forall|x: u128|
            #[trigger] v@.contains(x) <==> listed(
                x,
                user@,
                everyone@,
                now,
                owned@,
                shared@,
                public@,
            )),
{
    let mut i: usize = 0;
    while i < owned.len()
        invariant
            i <= owned@.len(),
            forall|j: int| 0 <= j < i ==> (#[trigger] owned@[j]).note is Some,
        decreases owned.len() - i,
    {
        if owned[i].note.is_none() {
            let id = owned[i].id;
            assert(first_missing(owned@, i as int));
            return Err(NotesError::MissingNote(id));
        }
        i = i + 1;
    }
    assert(forall|i: int| 0 <= i < owned@.len() ==> (#[trigger] owned@[i]).note is Some);
    assert(!exists|i: int| first_missing(owned@, i));
    let mut out: Vec<u128> = Vec::new();
    collect_ids(&mut out, owned, true, user, everyone, now);
    collect_ids(&mut out, shared, false, user, everyone, now);
    collect_ids(&mut out, public, false, user, everyone, now);
    Ok(out)
}


/// A note filed under the user's own list is listed for the user: when the
/// owned lookups are the stored notes of the ids `filed`, each stored under
/// its own id, every id of `filed` is listed (whatever `now`, the shares and
/// the readers). In particular a freshly created note, whose id `create_note`
/// appends to the owner's list, shows up in the owner's `get_notes`.
pub proof fn law_filed_notes_are_listed(
    filed: Seq<u128>,
    owned: Seq<Lookup>,
    shared: Seq<Lookup>,
    public: Seq<Lookup>,
    user: Seq<char>,
    everyone: Seq<char>,
    now: u64,
    k: int,
)
    requires
        owned.len() == filed.len(),
        forall|i: int| 0 <= i < owned.len() ==> holds_id(#[trigger] owned[i], filed[i]),
        0 <= k < filed.len(),
    ensures
        listed(filed[k], user, everyone, now, owned, shared, public),
{
    assert(holds_id(owned[k], filed[k]));
}


/// The reader entry `r` lets `user` read at `now`, said directly: it names
/// the user or everyone, and it has no time or a time not after `now`.
pub open spec fn entry_lets_read(r: Reader, user: Seq<char>, everyone: Seq<char>, now: u64) -> bool {
    (r.name@ == user || r.name@ == everyone) && (r.when is None || r.when->0 <= now)
}

/// A note is readable by a user exactly when at least one of its reader
/// entries, whichever it is among them, names the user or everyone and has
/// no time or a time that has come. Every entry counts, not only some
/// particular one.
pub proof fn law_readable_iff_some_entry_lets_read(
    n: NoteAccess,
    user: Seq<char>,
    everyone: Seq<char>,
    now: u64,
)
    ensures
        readable(n, user, everyone, now) <==> exists|i: int|
            0 <= i < n.readers@.len() && entry_lets_read(
                #[trigger] n.readers@[i],
                user,
                everyone,
                now,
            ),
{
    if readable(n, user, everyone, now) {
        let i = choose|i: int|
            0 <= i < n.readers@.len() && grants(#[trigger] n.readers@[i], user, everyone, now);
        assert(entry_lets_read(n.readers@[i], user, everyone, now));
    }
    if exists|i: int|
        0 <= i < n.readers@.len() && entry_lets_read(#[trigger] n.readers@[i], user, everyone, now) {
        let i = choose|i: int|
            0 <= i < n.readers@.len() && entry_lets_read(
                #[trigger] n.readers@[i],
                user,
                everyone,
                now,
            );
        assert(grants(n.readers@[i], user, everyone, now));
    }
}

/// Adding a reader entry to a note never takes it away from a user who could
/// read it before.
pub proof fn law_more_readers_keep_readability(
    n: NoteAccess,
    m: NoteAccess,
    extra: Reader,
    user: Seq<char>,
    everyone: Seq<char>,
    now: u64,
)
    requires
        readable(n, user, everyone, now),
        m.readers@ == n.readers@.push(extra),
    ensures
        readable(m, user, everyone, now),
{
    let i = choose|i: int|
        0 <= i < n.readers@.len() && grants(#[trigger] n.readers@[i], user, everyone, now);
    assert(m.readers@[i] == n.readers@[i]);
}

/// Which ids `get_notes` lists, said directly: `x` is listed exactly when an
/// owned lookup holds a stored note with id `x`, or a shared or public
/// lookup holds a stored note with id `x` one of whose reader entries names
/// the user or everyone and has no time or a time not after `now`.
pub proof fn law_listed_iff(
    x: u128,
    user: Seq<char>,
    everyone: Seq<char>,
    now: u64,
    owned: Seq<Lookup>,
    shared: Seq<Lookup>,
    public: Seq<Lookup>,
)
    ensures
        listed(x, user, everyone, now, owned, shared, public) <==> ((exists|k: int|
            0 <= k < owned.len() && (#[trigger] owned[k]).note is Some && owned[k].note->0.id
                == x) || (exists|k: int, i: int|
            0 <= k < shared.len() && (#[trigger] shared[k]).note is Some && shared[k].note->0.id
                == x && 0 <= i < shared[k].note->0.readers@.len() && entry_lets_read(
                #[trigger] shared[k].note->0.readers@[i],
                user,
                everyone,
                now,
            )) || (exists|k: int, i: int|
            0 <= k < public.len() && (#[trigger] public[k]).note is Some && public[k].note->0.id
                == x && 0 <= i < public[k].note->0.readers@.len() && entry_lets_read(
                #[trigger] public[k].note->0.readers@[i],
                user,
                everyone,
                now,
            ))),
{
    assert forall|k: int| 0 <= k < shared.len() && (#[trigger] shared[k]).note is Some implies
        readable(shared[k].note->0, user, everyone, now) <==> exists|i: int|
            0 <= i < shared[k].note->0.readers@.len() && entry_lets_read(
                #[trigger] shared[k].note->0.readers@[i],
                user,
                everyone,
                now,
            ) by {
        law_readable_iff_some_entry_lets_read(shared[k].note->0, user, everyone, now);
    }
    assert forall|k: int| 0 <= k < public.len() && (#[trigger] public[k]).note is Some implies
        readable(public[k].note->0, user, everyone, now) <==> exists|i: int|
            0 <= i < public[k].note->0.readers@.len() && entry_lets_read(
                #[trigger] public[k].note->0.readers@[i],
                user,
                everyone,
                now,
            ) by {
        law_readable_iff_some_entry_lets_read(public[k].note->0, user, everyone, now);
    }
    if found_readable_id(shared, x, user, everyone, now) {
        let k = choose|k: int|
            0 <= k < shared.len() && holds_readable(#[trigger] shared[k], x, user, everyone, now);
        let i = choose|i: int|
            0 <= i < shared[k].note->0.readers@.len() && entry_lets_read(
                #[trigger] shared[k].note->0.readers@[i],
                user,
                everyone,
                now,
            );
        assert(entry_lets_read(shared[k].note->0.readers@[i], user, everyone, now));
    }
    if found_readable_id(public, x, user, everyone, now) {
        let k = choose|k: int|
            0 <= k < public.len() && holds_readable(#[trigger] public[k], x, user, everyone, now);
        let i = choose|i: int|
            0 <= i < public[k].note->0.readers@.len() && entry_lets_read(
                #[trigger] public[k].note->0.readers@[i],
                user,
                everyone,
                now,
            );
        assert(entry_lets_read(public[k].note->0.readers@[i], user, everyone, now));
    }
    if found_id(owned, x) {
        let k = choose|k: int| 0 <= k < owned.len() && holds_id(#[trigger] owned[k], x);
        assert(owned[k].note is Some && owned[k].note->0.id == x);
    }
    if exists|k: int|
        0 <= k < owned.len() && (#[trigger] owned[k]).note is Some && owned[k].note->0.id == x {
        let k = choose|k: int|
            0 <= k < owned.len() && (#[trigger] owned[k]).note is Some && owned[k].note->0.id == x;
        assert(holds_id(owned[k], x));
    }
    if exists|k: int, i: int|
        0 <= k < shared.len() && (#[trigger] shared[k]).note is Some && shared[k].note->0.id == x
            && 0 <= i < shared[k].note->0.readers@.len() && entry_lets_read(
            #[trigger] shared[k].note->0.readers@[i],
            user,
            everyone,
            now,
        ) {
        let (k, i) = choose|k: int, i: int|
            0 <= k < shared.len() && (#[trigger] shared[k]).note is Some && shared[k].note->0.id
                == x && 0 <= i < shared[k].note->0.readers@.len() && entry_lets_read(
                #[trigger] shared[k].note->0.readers@[i],
                user,
                everyone,
                now,
            );
        assert(holds_readable(shared[k], x, user, everyone, now));
    }
    if exists|k: int, i: int|
        0 <= k < public.len() && (#[trigger] public[k]).note is Some && public[k].note->0.id == x
            && 0 <= i < public[k].note->0.readers@.len() && entry_lets_read(
            #[trigger] public[k].note->0.readers@[i],
            user,
            everyone,
            now,
        ) {
        let (k, i) = choose|k: int, i: int|
            0 <= k < public.len() && (#[trigger] public[k]).note is Some && public[k].note->0.id
                == x && 0 <= i < public[k].note->0.readers@.len() && entry_lets_read(
                #[trigger] public[k].note->0.readers@[i],
                user,
                everyone,
                now,
            );
        assert(holds_readable(public[k], x, user, everyone, now));
    }
}

} // verus!
