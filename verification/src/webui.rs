//! When the web UI needs to be built again.
use vstd::prelude::*;

verus! {

/// A point in time: seconds since the Unix epoch and the nanoseconds within
/// that second.
#[derive(Clone, Copy, Debug, PartialEq, Eq)]
pub struct Timestamp {
    pub secs: i64,
    pub nanos: u32,
}

/// `a` is not later than `b`.
pub open spec fn not_later(a: Timestamp, b: Timestamp) -> bool {
    a.secs < b.secs || (a.secs == b.secs && a.nanos <= b.nanos)
}

/// Whether the last build is still fresh: the input has no files (no
/// modification time), or it was last modified no later than the last build.
/// Without a record of a last build, it is not.
pub open spec fn fresh(input_modified: Option<Timestamp>, last_build: Option<Timestamp>) -> bool {
    match (input_modified, last_build) {
        (None, _) => true,
        (Some(i), Some(b)) => not_later(i, b),
        _ => false,
    }
}

/// `not_later` orders timestamps by the instant they name: with nanoseconds
/// below one second, `a` is not later than `b` exactly when `a`'s count of
/// nanoseconds since the epoch is at most `b`'s.
pub proof fn lemma_not_later_is_instant_order(a: Timestamp, b: Timestamp)
    requires
        a.nanos < 1_000_000_000,
        b.nanos < 1_000_000_000,
    ensures
        not_later(a, b) <==> a.secs * 1_000_000_000 + a.nanos <= b.secs * 1_000_000_000 + b.nanos,
{
    if a.secs < b.secs {
        assert(a.secs * 1_000_000_000 + 1_000_000_000 <= b.secs * 1_000_000_000) by (nonlinear_arith)
            requires
                a.secs < b.secs,
        ;
    } else if a.secs > b.secs {
        assert(b.secs * 1_000_000_000 + 1_000_000_000 <= a.secs * 1_000_000_000) by (nonlinear_arith)
            requires
                b.secs < a.secs,
        ;
    }
}

/// The last build is fresh where the input was last modified no later than
/// it, and never where the input was modified and no build is recorded.
pub proof fn lemma_fresh(i: Timestamp, b: Timestamp)
    requires
        i.nanos < 1_000_000_000,
        b.nanos < 1_000_000_000,
    ensures
        fresh(Some(i), Some(b)) <==> i.secs * 1_000_000_000 + i.nanos <= b.secs * 1_000_000_000
            + b.nanos,
        !fresh(Some(i), None),
        fresh(None, Some(b)),
        fresh(None, None),
{
    lemma_not_later_is_instant_order(i, b);
}

/// Whether the last build is still fresh (see [`fresh`]).
pub fn is_fresh(input_modified: Option<Timestamp>, last_build: Option<Timestamp>) -> (r: bool)
    ensures
        r == fresh(input_modified, last_build),
{
    match (input_modified, last_build) {
        (None, _) => true,
        (Some(i), Some(b)) => i.secs < b.secs || (i.secs == b.secs && i.nanos <= b.nanos),
        _ => false,
    }
}

/// Whether the UI must be built: some output file is missing, or the last
/// build is not fresh.
pub fn needs_rebuild(
    outputs_present: bool,
    input_modified: Option<Timestamp>,
    last_build: Option<Timestamp>,
) -> (r: bool)
    ensures
        r == (!outputs_present || !fresh(input_modified, last_build)),
{
    if !outputs_present {
        true
    } else {
        !is_fresh(input_modified, last_build)
    }
}

/// The latest of the modification times of the files under a path, or
/// `None` where there are none.
pub fn latest_modification(times: &Vec<Timestamp>) -> (r: Option<Timestamp>)
    ensures
        times@.len() == 0 ==> r is None,
        times@.len() > 0 ==> (r matches Some(t) && times@.contains(t) && forall|i: int|
            0 <= i < times@.len() ==> not_later(#[trigger] times@[i], t)),
{
    let mut latest: Option<Timestamp> = None;
    let mut i: usize = 0;
    while i < times.len()
        invariant
            i <= times@.len(),
            i == 0 ==> latest is None,
            i > 0 ==> (latest matches Some(t) && times@.subrange(0, i as int).contains(t)
                && forall|j: int| 0 <= j < i ==> not_later(#[trigger] times@[j], t)),
        decreases times@.len() - i,
    {
        let t = times[i];
        latest = match latest {
            None => Some(t),
            Some(l) => if l.secs < t.secs || (l.secs == t.secs && l.nanos <= t.nanos) {
                Some(t)
            } else {
                Some(l)
            },
        };
        proof {
            let l = latest.unwrap();
            assert(times@.subrange(0, i + 1)[i as int] == t);
            if l != t {
                assert(times@.subrange(0, i as int).contains(l));
                let k = choose|k: int| 0 <= k < i && times@.subrange(0, i as int)[k] == l;
                assert(times@.subrange(0, i + 1)[k] == l);
            }
        }
        i = i + 1;
    }
    proof {
        if times@.len() > 0 {
            assert(times@.subrange(0, times@.len() as int) =~= times@);
        }
    }
    latest
}

/// `{target}_bg.wasm`, the module that wasm-bindgen writes for a target.
pub fn wasm_file_name(target: &str) -> (r: String)
    ensures
        r@ == target@ + seq!['_', 'b', 'g', '.', 'w', 'a', 's', 'm'],
{
    let mut r = target.to_owned();
    r.append("_bg.wasm");
    proof {
        reveal_strlit("_bg.wasm");
    }
    r
}

/// `{target}.js`, the loader that wasm-bindgen writes for a target.
pub fn js_file_name(target: &str) -> (r: String)
    ensures
        r@ == target@ + seq!['.', 'j', 's'],
{
    let mut r = target.to_owned();
    r.append(".js");
    proof {
        reveal_strlit(".js");
    }
    r
}

} // verus!
