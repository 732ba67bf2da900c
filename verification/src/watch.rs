//! Which paths a file watcher must start and stop watching when the set of
//! watched source paths changes. Paths are their bytes.
use vstd::prelude::*;
use vstd::slice::slice_to_vec;

verus! {

/// The views of a list of paths.
pub open spec fn path_views(paths: Seq<Vec<u8>>) -> Seq<Seq<u8>> {
    paths.map_values(|p: Vec<u8>| p@)
}

/// Whether two paths are the same bytes.
pub fn same_path(a: &[u8], b: &[u8]) -> (r: bool)
    ensures
        r == (a@ == b@),
{
    if a.len() != b.len() {
        return false;
    }
    let mut i: usize = 0;
    while i < a.len()
        invariant
            a@.len() == b@.len(),
            i <= a@.len(),
            forall|k: int| 0 <= k < i ==> a@[k] == b@[k],
        decreases a@.len() - i,
    {
        if a[i] != b[i] {
            return false;
        }
        i = i + 1;
    }
    assert(a@ =~= b@);
    true
}

/// Whether `paths` holds `path`.
pub fn contains_path(paths: &Vec<Vec<u8>>, path: &[u8]) -> (r: bool)
    ensures
        r == path_views(paths@).contains(path@),
{
    let mut i: usize = 0;
    while i < paths.len()
        invariant
            i <= paths@.len(),
            forall|k: int| 0 <= k < i ==> paths@[k]@ != path@,
        decreases paths@.len() - i,
    {
        if same_path(paths[i].as_slice(), path) {
            assert(path_views(paths@)[i as int] == path@);
            return true;
        }
        i = i + 1;
    }
    assert forall|k: int| 0 <= k < path_views(paths@).len() implies path_views(paths@)[k] != path@ by {
        assert(path_views(paths@)[k] == paths@[k]@);
    }
    false
}

/// The paths of `from` that `other` does not hold, in order.
fn paths_not_in(from: &Vec<Vec<u8>>, other: &Vec<Vec<u8>>) -> (r: Vec<Vec<u8>>)
    ensures
        forall|p: Seq<u8>|
            path_views(r@).contains(p) <==> (path_views(from@).contains(p) && !path_views(
                other@,
            ).contains(p)),
        path_views(from@).no_duplicates() ==> path_views(r@).no_duplicates(),
{
    let mut out: Vec<Vec<u8>> = Vec::new();
    let mut i: usize = 0;
    while i < from.len()
        invariant
            i <= from@.len(),
            forall|p: Seq<u8>|
                path_views(out@).contains(p) <==> (path_views(from@.subrange(0, i as int)).contains(
                    p,
                ) && !path_views(other@).contains(p)),
            path_views(from@).no_duplicates() ==> path_views(out@).no_duplicates(),
        decreases from@.len() - i,
    {
        let ghost before = out@;
        let ghost seen = from@.subrange(0, i as int);
        let ghost next = from@.subrange(0, i + 1);
        proof {
            assert(path_views(next) =~= path_views(seen).push(from@[i as int]@));
        }
        let ghost x = from@[i as int]@;
        if !contains_path(other, from[i].as_slice()) {
            out.push(slice_to_vec(from[i].as_slice()));
            proof {
                assert(path_views(out@) =~= path_views(before).push(x));
                if path_views(from@).no_duplicates() {
                    if path_views(before).contains(x) {
                        let k = choose|k: int| 0 <= k < path_views(seen).len() && path_views(seen)[k] == x;
                        assert(path_views(from@)[k] == x);
                        assert(path_views(from@)[i as int] == x);
                    }
                    assert forall|a: int, b: int|
                        0 <= a < b < path_views(out@).len() implies path_views(out@)[a]
                        != path_views(out@)[b] by {
                        if b == path_views(before).len() {
                            assert(path_views(out@)[a] == path_views(before)[a]);
                            assert(path_views(before).contains(path_views(before)[a]));
                        }
                    }
                }
                assert forall|p: Seq<u8>| path_views(out@).contains(p) <==> (path_views(next).contains(
                    p,
                ) && !path_views(other@).contains(p)) by {
                    if path_views(out@).contains(p) && p != x {
                        let k = choose|k: int| 0 <= k < path_views(out@).len() && path_views(out@)[k] == p;
                        assert(path_views(before)[k] == p);
                        assert(path_views(before).contains(p));
                        let k2 = choose|k2: int| 0 <= k2 < path_views(seen).len() && path_views(seen)[k2] == p;
                        assert(path_views(next)[k2] == p);
                    }
                    if path_views(next).contains(p) && p != x && !path_views(other@).contains(p) {
                        let k = choose|k: int| 0 <= k < path_views(next).len() && path_views(next)[k] == p;
                        assert(path_views(seen)[k] == p);
                        assert(path_views(before).contains(p));
                        let k2 = choose|k2: int| 0 <= k2 < path_views(before).len() && path_views(before)[k2] == p;
                        assert(path_views(out@)[k2] == p);
                    }
                    if p == x {
                        assert(path_views(out@)[path_views(before).len() as int] == p);
                        assert(path_views(next)[i as int] == p);
                    }
                }
            }
        } else {
            proof {
                assert forall|p: Seq<u8>| path_views(out@).contains(p) <==> (path_views(next).contains(
                    p,
                ) && !path_views(other@).contains(p)) by {
                    if path_views(next).contains(p) && p != x {
                        let k = choose|k: int| 0 <= k < path_views(next).len() && path_views(next)[k] == p;
                        assert(path_views(seen)[k] == p);
                    }
                    if path_views(seen).contains(p) {
                        let k = choose|k: int| 0 <= k < path_views(seen).len() && path_views(seen)[k] == p;
                        assert(path_views(next)[k] == p);
                    }
                }
            }
        }
        i = i + 1;
    }
    assert(from@.subrange(0, from@.len() as int) =~= from@);
    out
}

/// The change from watching `current` to watching `new`: the paths to stop
/// watching (in `current`, not in `new`) and the paths to start watching (in
/// `new`, not in `current`).
pub fn source_path_changes(current: &Vec<Vec<u8>>, new: &Vec<Vec<u8>>) -> (r: (
    Vec<Vec<u8>>,
    Vec<Vec<u8>>,
))
    ensures
        forall|p: Seq<u8>|
            path_views(r.0@).contains(p) <==> (path_views(current@).contains(p) && !path_views(
                new@,
            ).contains(p)),
        forall|p: Seq<u8>|
            path_views(r.1@).contains(p) <==> (path_views(new@).contains(p) && !path_views(
                current@,
            ).contains(p)),
        path_views(current@).no_duplicates() ==> path_views(r.0@).no_duplicates(),
        path_views(new@).no_duplicates() ==> path_views(r.1@).no_duplicates(),
{
    (paths_not_in(current, new), paths_not_in(new, current))
}

/// Applying the change that [`source_path_changes`] computes to the watched
/// paths `current` (stop watching `stop`, start watching `start`) leaves
/// exactly the paths of `new` watched.
pub proof fn lemma_source_path_changes_reach_new(
    current: Seq<Seq<u8>>,
    new: Seq<Seq<u8>>,
    stop: Seq<Seq<u8>>,
    start: Seq<Seq<u8>>,
)
    requires
        forall|p: Seq<u8>| stop.contains(p) <==> (current.contains(p) && !new.contains(p)),
        forall|p: Seq<u8>| start.contains(p) <==> (new.contains(p) && !current.contains(p)),
    ensures
        forall|p: Seq<u8>|
            ((current.contains(p) && !stop.contains(p)) || start.contains(p)) <==> new.contains(p),
{
}

/// The paths reported changed while waiting for file events, each once.
#[derive(Clone, Debug)]
pub struct ChangedPaths {
    pub paths: Vec<Vec<u8>>,
}

impl ChangedPaths {
    /// No path occurs twice.
    pub open spec fn well_formed(&self) -> bool {
        path_views(self.paths@).no_duplicates()
    }

    /// Whether `p` is among the changed paths.
    pub open spec fn holds(&self, p: Seq<u8>) -> bool {
        path_views(self.paths@).contains(p)
    }

    /// No changed path yet.
    pub fn new() -> (r: ChangedPaths)
        ensures
            r.well_formed(),
            forall|p: Seq<u8>| !r.holds(p),
    {
        let r = ChangedPaths { paths: Vec::new() };
        assert(path_views(r.paths@) =~= Seq::<Seq<u8>>::empty());
        r
    }

    /// Adds the paths of one batch of file events; a path already held is
    /// not added again.
    pub fn extend(&mut self, batch: &Vec<Vec<u8>>)
        requires
            old(self).well_formed(),
        ensures
            final(self).well_formed(),
            forall|p: Seq<u8>|
                final(self).holds(p) <==> (old(self).holds(p) || path_views(batch@).contains(p)),
    {
        let ghost start = path_views(self.paths@);
        let mut i: usize = 0;
        while i < batch.len()
            invariant
                i <= batch@.len(),
                path_views(self.paths@).no_duplicates(),
                forall|p: Seq<u8>|
                    path_views(self.paths@).contains(p) <==> (start.contains(p) || path_views(
                        batch@.subrange(0, i as int),
                    ).contains(p)),
            decreases batch@.len() - i,
        {
            let ghost before = path_views(self.paths@);
            let ghost x = batch@[i as int]@;
            if !contains_path(&self.paths, batch[i].as_slice()) {
                self.paths.push(slice_to_vec(batch[i].as_slice()));
                proof {
                    assert(path_views(self.paths@) =~= before.push(x));
                    assert forall|a: int, b: int|
                        0 <= a < b < path_views(self.paths@).len() implies path_views(
                        self.paths@,
                    )[a] != path_views(self.paths@)[b] by {
                        if b == before.len() {
                            assert(before[a] == path_views(self.paths@)[a]);
                            assert(before.contains(before[a]));
                        }
                    }
                }
                assert forall|p: Seq<u8>|
                    path_views(self.paths@).contains(p) <==> (before.contains(p) || x == p) by {
                    vstd::seq_lib::lemma_seq_contains_after_push(before, x, p);
                }
            } else {
                assert(before.contains(x));
                assert(path_views(self.paths@) == before);
            }
            let ghost next = batch@.subrange(0, i + 1);
            assert forall|p: Seq<u8>|
                #[trigger] path_views(self.paths@).contains(p) <==> (start.contains(p) || path_views(
                    next,
                ).contains(p)) by {
                assert(path_views(batch@.subrange(0, i + 1)) =~= path_views(
                    batch@.subrange(0, i as int),
                ).push(x));
                vstd::seq_lib::lemma_seq_contains_after_push(
                    path_views(batch@.subrange(0, i as int)),
                    x,
                    p,
                );
            }
            i = i + 1;
            assert(batch@.subrange(0, i as int) == next);
        }
        assert(batch@.subrange(0, batch@.len() as int) =~= batch@);
    }
}

} // verus!
