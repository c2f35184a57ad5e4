//! The policy of the snapshot cache: how a snapshot is named, which stored
//! snapshot a read picks, and when a snapshot is too old to be used.
//!
//! Listing the cache directory, reading the clock and reading or writing
//! files are left to the caller, which hands the file names and the present
//! time in and gets back the index of the snapshot to read, or the name of the
//! one to write.
use crate::text::{
    chars_of, decimal, is_digit, lemma_decimal_digits, parse_decimal,
    parse_unsigned, push_char, push_decimal, string_from, unsigned_body, views_of,
};
use vstd::prelude::*;

verus! {

/// How far, in seconds and either way, a snapshot's time may lie from the
/// present for the snapshot to be used: fifteen days.
pub const FRESHNESS_WINDOW: u64 = 1296000;

/// Why no cached catalog was returned.
#[derive(Debug, Clone, PartialEq, Eq)]
pub enum CacheError {
    /// The cache directory or a snapshot could not be read or written.
    Io(String),
    /// No snapshot of the catalog is stored.
    CacheNotFound,
    /// The latest snapshot is older, or newer, than the freshness window allows.
    CacheExpired,
    /// The latest snapshot does not hold a catalog.
    Parse(String),
}

/// The start of every snapshot name of catalog `id`: its decimal id and a dash.
pub open spec fn snapshot_prefix(id: u32) -> Seq<char> {
    decimal(id as nat).push('-')
}

/// The name of the snapshot of catalog `id` taken at `timestamp`.
pub open spec fn snapshot_name_of(id: u32, timestamp: u64) -> Seq<char> {
    snapshot_prefix(id) + decimal(timestamp as nat)
}

/// The time of a snapshot of catalog `id` that a file name records: the name
/// is the catalog's prefix followed by an unsigned 64-bit number and nothing
/// else, so it has exactly two dash-separated parts. `None` for any other name.
pub open spec fn snapshot_time(name: Seq<char>, id: u32) -> Option<nat> {
    let p = snapshot_prefix(id);
    if p.len() <= name.len() && name.take(p.len() as int) == p {
        parse_unsigned(name.skip(p.len() as int), u64::MAX as nat)
    } else {
        None
    }
}

/// The snapshot of catalog `id` with the latest time among `names`, with that
/// time; of several with that time, the first.
pub open spec fn latest_of(names: Seq<Seq<char>>, id: u32) -> Option<(int, nat)>
    decreases names.len(),
{
    if names.len() == 0 {
        None
    } else {
        let rest = latest_of(names.drop_last(), id);
        match snapshot_time(names.last(), id) {
            None => rest,
            Some(t) => match rest {
                Some((i, u)) => if u >= t {
                    rest
                } else {
                    Some((names.len() - 1, t))
                },
                None => Some((names.len() - 1, t)),
            },
        }
    }
}

/// The distance between two times, in seconds.
pub open spec fn time_gap(a: nat, b: nat) -> nat {
    if a >= b {
        (a - b) as nat
    } else {
        (b - a) as nat
    }
}

/// A snapshot taken at `timestamp` may be used at `now`.
pub open spec fn is_fresh(now: nat, timestamp: nat) -> bool {
    time_gap(now, timestamp) <= FRESHNESS_WINDOW
}

/// What a read of catalog `id` at `now` does with a directory of `names`:
/// the index of the snapshot to load, or why there is none.
pub open spec fn read_decision(names: Seq<Seq<char>>, id: u32, now: nat) -> Result<int, CacheError> {
    match latest_of(names, id) {
        None => Err(CacheError::CacheNotFound),
        Some((i, t)) => if is_fresh(now, t) {
            Ok(i)
        } else {
            Err(CacheError::CacheExpired)
        },
    }
}

/// The view of a read decision.
pub open spec fn decision_view(r: Result<usize, CacheError>) -> Result<int, CacheError> {
    match r {
        Ok(i) => Ok(i as int),
        Err(e) => Err(e),
    }
}

/// The snapshot that `latest_of` picks is one of catalog `id`, none has a
/// later time, and none before it has the same time.
pub proof fn lemma_latest_of(names: Seq<Seq<char>>, id: u32)
    ensures
        latest_of(names, id) is None ==> forall|j: int|
            0 <= j < names.len() ==> #[trigger] snapshot_time(names[j], id) is None,
        latest_of(names, id) matches Some((i, t)) ==> {
            &&& 0 <= i < names.len()
            &&& snapshot_time(names[i], id) == Some(t)
            &&& forall|j: int|
                0 <= j < names.len() ==> (#[trigger] snapshot_time(names[j], id) matches Some(u)
                    ==> u <= t)
            &&& forall|j: int| 0 <= j < i ==> (#[trigger] snapshot_time(names[j], id) matches Some(u) ==> u < t)
        },
    decreases names.len(),
{
    if names.len() > 0 {
        let d = names.drop_last();
        lemma_latest_of(d, id);
        assert forall|j: int| 0 <= j < d.len() implies names[j] == d[j] by {}
    }
}

/// The name of a snapshot records the catalog and time it was taken for.
pub proof fn lemma_snapshot_name_time(id: u32, t: u64)
    ensures
        snapshot_time(snapshot_name_of(id, t), id) == Some(t as nat),
{
    let p = snapshot_prefix(id);
    let d = decimal(t as nat);
    let name = snapshot_name_of(id, t);
    assert(name.take(p.len() as int) =~= p);
    assert(name.skip(p.len() as int) =~= d);
    lemma_decimal_digits(t as nat);
    assert(is_digit(d[0]));
    assert(unsigned_body(d) == d);
}

/// A name that carries anything after a snapshot name, from a dash on, is
/// no snapshot of the catalog.
pub proof fn lemma_suffixed_name_is_no_snapshot(id: u32, t: u64, suffix: Seq<char>)
    ensures
        snapshot_time(snapshot_name_of(id, t) + seq!['-'] + suffix, id) is None,
{
    let p = snapshot_prefix(id);
    let d = decimal(t as nat);
    let name = snapshot_name_of(id, t) + seq!['-'] + suffix;
    let body = d + seq!['-'] + suffix;
    lemma_decimal_digits(t as nat);
    assert(name.take(p.len() as int) =~= p);
    assert(name.skip(p.len() as int) =~= body);
    assert(body[0] == d[0]);
    assert(is_digit(d[0]));
    assert(unsigned_body(body) == body);
    assert(body[d.len() as int] == '-');
    assert(!is_digit(body[d.len() as int]));
}

/// A snapshot just written is the one that a read picks, provided no stored
/// snapshot of the catalog has a time as late as it and the read comes
/// within the freshness window of its time.
pub proof fn lemma_written_snapshot_is_read(names: Seq<Seq<char>>, id: u32, t: u64, now: nat)
    requires
        forall|j: int|
            0 <= j < names.len() ==> (#[trigger] snapshot_time(names[j], id) matches Some(u) ==> u
                < t),
        is_fresh(now, t as nat),
    ensures
        read_decision(names.push(snapshot_name_of(id, t)), id, now) == Ok::<int, CacheError>(
            names.len() as int,
        ),
{
    let all = names.push(snapshot_name_of(id, t));
    assert(all.drop_last() =~= names);
    lemma_snapshot_name_time(id, t);
    lemma_latest_of(names, id);
}

/// Of two snapshots of a catalog, the later one is read while it is fresh,
/// whatever order the directory lists them in.
pub proof fn lemma_later_snapshot_wins(
    names: Seq<Seq<char>>,
    id: u32,
    i1: int,
    i2: int,
    t1: u64,
    t2: u64,
    now: nat,
)
    requires
        0 <= i1 < names.len(),
        0 <= i2 < names.len(),
        names[i1] == snapshot_name_of(id, t1),
        names[i2] == snapshot_name_of(id, t2),
        t1 < t2,
        forall|j: int|
            0 <= j < names.len() && j != i1 && j != i2 ==> #[trigger] snapshot_time(names[j], id)
                is None,
        is_fresh(now, t2 as nat),
    ensures
        read_decision(names, id, now) == Ok::<int, CacheError>(i2),
{
    lemma_snapshot_name_time(id, t1);
    lemma_snapshot_name_time(id, t2);
    lemma_latest_of(names, id);
    assert(snapshot_time(names[i2], id) == Some(t2 as nat));
    assert(snapshot_time(names[i1], id) == Some(t1 as nat));
}

/// The time in a snapshot's name, if the name is one of a snapshot of
/// catalog `id`.
pub fn snapshot_time_of(name: &str, id: u32) -> (r: Option<u64>)
    ensures
        r matches Some(t) ==> snapshot_time(name@, id) == Some(t as nat),
        r is None ==> snapshot_time(name@, id) is None,
{
    let mut prefix = String::new();
    push_decimal(&mut prefix, id as u64);
    push_char(&mut prefix, '-');
    let p = chars_of(prefix.as_str());
    let cs = chars_of(name);
    assert(p@ == snapshot_prefix(id));
    if p.len() > cs.len() {
        return None;
    }
    let mut i: usize = 0;
    while i < p.len()
        invariant
            i <= p@.len() <= cs@.len(),
            p@ == snapshot_prefix(id),
            cs@ == name@,
            forall|k: int| 0 <= k < i ==> p@[k] == cs@[k],
        decreases p.len() - i,
    {
        if p[i] != cs[i] {
            assert(cs@.take(p@.len() as int)[i as int] != p@[i as int]);
            return None;
        }
        i = i + 1;
    }
    assert(cs@.take(p@.len() as int) =~= p@);
    let rest = string_from(&cs, p.len(), cs.len());
    assert(rest@ =~= name@.skip(p@.len() as int));
    parse_decimal(rest.as_str(), 18446744073709551615)
}

/// The snapshot of catalog `id` with the latest time among `names`, with its
/// time; of several with that time, the first.
pub fn latest_snapshot(names: &Vec<String>, id: u32) -> (r: Option<(usize, u64)>)
    ensures
        match r {
            Some((i, t)) => latest_of(views_of(names@), id) == Some((i as int, t as nat)),
            None => latest_of(views_of(names@), id) is None,
        },
{
    let ghost ns = views_of(names@);
    let mut best: Option<(usize, u64)> = None;
    let mut i: usize = 0;
    while i < names.len()
        invariant
            i <= names@.len(),
            ns == views_of(names@),
            match best {
                Some((k, t)) => latest_of(ns.take(i as int), id) == Some((k as int, t as nat)),
                None => latest_of(ns.take(i as int), id) is None,
            },
        decreases names.len() - i,
    {
        let ghost t1 = ns.take(i + 1);
        assert(t1.drop_last() =~= ns.take(i as int));
        assert(t1.last() == names@[i as int]@);
        match snapshot_time_of(names[i].as_str(), id) {
            None => {},
            Some(t) => {
                match best {
                    Some((_, u)) => {
                        if u < t {
                            best = Some((i, t));
                        }
                    },
                    None => {
                        best = Some((i, t));
                    },
                }
            },
        }
        i = i + 1;
    }
    assert(ns.take(i as int) =~= ns);
    best
}

/// Whether a snapshot taken at `timestamp` may be used at `now`.
pub fn fresh(now: u64, timestamp: u64) -> (r: bool)
    ensures
        r == is_fresh(now as nat, timestamp as nat),
{
    let gap = if now >= timestamp { now - timestamp } else { timestamp - now };
    gap <= FRESHNESS_WINDOW
}

/// What a read of catalog `id` at `now` does with a directory of `names`:
/// the index of the snapshot to load, `CacheNotFound` when no name is one of
/// a snapshot of the catalog, and `CacheExpired` when the latest snapshot lies
/// outside the freshness window.
pub fn choose_snapshot(names: &Vec<String>, id: u32, now: u64) -> (r: Result<usize, CacheError>)
    ensures
        read_decision(views_of(names@), id, now as nat) == decision_view(r),
{
    match latest_snapshot(names, id) {
        None => Err(CacheError::CacheNotFound),
        Some((i, t)) => if fresh(now, t) {
            Ok(i)
        } else {
            Err(CacheError::CacheExpired)
        },
    }
}

/// The name of the snapshot of catalog `id` taken at `timestamp`.
pub fn snapshot_name(id: u32, timestamp: u64) -> (r: String)
    ensures
        r@ == snapshot_name_of(id, timestamp),
{
    let mut r = String::new();
    push_decimal(&mut r, id as u64);
    push_char(&mut r, '-');
    push_decimal(&mut r, timestamp);
    r
}

} // verus!
