//! Which per-route static file servers to shut down when routes change.
use std::collections::HashMap;

use vstd::prelude::*;
use vstd::std_specs::hash::spec_keys_iter;
use vstd::std_specs::iter::IteratorSpec;

verus! {

/// The running servers whose route is not in `keep`, in the order given.
pub open spec fn stale_servers(running: Seq<u128>, keep: Seq<u128>) -> Seq<u128>
    decreases running.len(),
{
    if running.len() == 0 {
        Seq::empty()
    } else {
        let rest = stale_servers(running.drop_last(), keep);
        if keep.contains(running.last()) {
            rest
        } else {
            rest.push(running.last())
        }
    }
}

fn contains_id(ids: &[u128], id: u128) -> (b: bool)
    ensures
        b == ids@.contains(id),
{
    let n = ids.len();
    for i in 0..n
        invariant
            n == ids@.len(),
            forall|k: int| 0 <= k < i ==> ids@[k] != id,
    {
        if ids[i] == id {
            assert(ids@[i as int] == id);
            return true;
        }
    }
    false
}

/// The servers to stop so that only routes in `keep` still have one.
pub fn servers_to_stop(running: &Vec<u128>, keep: &[u128]) -> (v: Vec<u128>)
    ensures
        v@ == stale_servers(running@, keep@),
{
    let mut v: Vec<u128> = Vec::new();
    let n = running.len();
    for i in 0..n
        invariant
            n == running@.len(),
            v@ == stale_servers(running@.take(i as int), keep@),
    {
        assert(running@.take(i + 1).drop_last() =~= running@.take(i as int));
        if !contains_id(keep, running[i]) {
            v.push(running[i]);
        }
    }
    assert(running@.take(n as int) =~= running@);
    v
}

/// After stopping the stale servers, a server keeps running exactly when it
/// was running and its route is kept.
pub proof fn lemma_retain_keeps_exactly(running: Seq<u128>, keep: Seq<u128>, id: u128)
    ensures
        stale_servers(running, keep).contains(id) <==> running.contains(id) && !keep.contains(id),
    decreases running.len(),
{
    if running.len() > 0 {
        let init = running.drop_last();
        lemma_retain_keeps_exactly(init, keep, id);
        let rest = stale_servers(init, keep);
        assert(running =~= init.push(running.last()));
        assert(running.contains(id) <==> init.contains(id) || running.last() == id) by {
            if running.contains(id) {
                let k = choose|k: int| 0 <= k < running.len() && running[k] == id;
                if k < init.len() {
                    assert(init[k] == id);
                }
            }
            if init.contains(id) {
                let k = choose|k: int| 0 <= k < init.len() && init[k] == id;
                assert(running[k] == id);
            }
            if running.last() == id {
                assert(running[running.len() - 1] == id);
            }
        }
        if !keep.contains(running.last()) {
            let pushed = rest.push(running.last());
            assert(pushed.contains(id) <==> rest.contains(id) || running.last() == id) by {
                if pushed.contains(id) {
                    let k = choose|k: int| 0 <= k < pushed.len() && pushed[k] == id;
                    if k < rest.len() {
                        assert(rest[k] == id);
                    }
                }
                if rest.contains(id) {
                    let k = choose|k: int| 0 <= k < rest.len() && rest[k] == id;
                    assert(pushed[k] == id);
                }
                if running.last() == id {
                    assert(pushed[rest.len() as int] == id);
                }
            }
        }
    }
}

/// The routes whose file server is running, each with the handle of its
/// server task, kept in a `HashMap` keyed by route id.
pub struct ServerTable<H> {
    servers: HashMap<u128, H>,
}

/// The routes that have a server after a start request for `id`.
pub open spec fn after_start(running: Set<u128>, id: u128) -> Set<u128> {
    running.insert(id)
}

/// Whether a start request for `id` starts a server: only when none runs
/// for that route yet.
pub open spec fn starts(running: Set<u128>, id: u128) -> bool {
    !running.contains(id)
}

proof fn lemma_take_next_contains(s: Seq<u128>, i: int, x: u128)
    requires
        0 <= i < s.len(),
    ensures
        s.take(i + 1).contains(x) <==> s.take(i).contains(x) || x == s[i],
{
    if s.take(i + 1).contains(x) {
        let k = choose|k: int| 0 <= k < i + 1 && #[trigger] s.take(i + 1)[k] == x;
        if k < i {
            assert(s.take(i)[k] == x);
        }
    }
    if s.take(i).contains(x) {
        let k = choose|k: int| 0 <= k < i && #[trigger] s.take(i)[k] == x;
        assert(s.take(i + 1)[k] == x);
    }
    if x == s[i] {
        assert(s.take(i + 1)[i] == x);
    }
}

/// The handles a map holds for `ids`, in that order.
pub open spec fn handles_of<H>(servers: Map<u128, H>, ids: Seq<u128>) -> Seq<H> {
    ids.map_values(|id: u128| servers[id])
}

impl<H> ServerTable<H> {
    /// Each running route's server handle.
    pub closed spec fn servers(&self) -> Map<u128, H> {
        self.servers@
    }

    /// The routes whose server runs.
    pub open spec fn running(&self) -> Set<u128> {
        self.servers().dom()
    }

    /// A table tracking no server.
    pub fn new() -> (t: Self)
        ensures
            t.servers() == Map::<u128, H>::empty(),
    {
        ServerTable { servers: HashMap::new() }
    }

    /// Whether a server runs for `id`.
    pub fn is_running(&self, id: u128) -> (b: bool)
        ensures
            b == self.running().contains(id),
    {
        broadcast use vstd::std_specs::hash::group_hash_axioms;
        self.servers.contains_key(&id)
    }

    /// The routes whose server runs, each once (in the map's own order).
    pub fn running_ids(&self) -> (v: Vec<u128>)
        ensures
            v@.to_set() == self.running(),
            v@.no_duplicates(),
    {
        broadcast use vstd::std_specs::hash::group_hash_axioms;
        let ghost keys = spec_keys_iter(&self.servers).remaining();
        let mut v: Vec<u128> = Vec::new();
        for k in it: self.servers.keys()
            invariant
                it.seq() == keys,
                v@ == keys.unref().take(it.index()),
        {
            v.push(*k);
            assert(v@ =~= keys.unref().take(it.index() + 1));
        }
        assert(v@ =~= keys.unref());
        assert(v@.no_duplicates()) by {
            assert forall|i: int, j: int| 0 <= i < v@.len() && 0 <= j < v@.len() && i != j implies v@[i]
                != v@[j] by {
                assert(v@[i] == *keys[i] && v@[j] == *keys[j]);
            }
        }
        v
    }

    /// Starts a server for `id` with `start` unless one already runs for
    /// that route, in which case nothing changes; the handle `start` gives is
    /// kept for `id`. Returns whether it started one.
    pub fn ensure<F: FnOnce() -> H>(&mut self, id: u128, start: F) -> (started: bool)
        requires
            start.requires(()),
        ensures
            started == starts(old(self).running(), id),
            final(self).running() == after_start(old(self).running(), id),
            started ==> exists|h: H| #[trigger] start.ensures((), h) && final(self).servers() == old(
                self,
            ).servers().insert(id, h),
            !started ==> final(self).servers() == old(self).servers(),
    {
        broadcast use vstd::std_specs::hash::group_hash_axioms;
        if self.servers.contains_key(&id) {
            assert(old(self).running().insert(id) =~= old(self).running());
            return false;
        }
        let h = start();
        self.servers.insert(id, h);
        assert(self.servers@.dom() =~= old(self).servers@.dom().insert(id));
        true
    }

    /// Stops tracking every server whose route is not in `keep` and hands
    /// over their handles (each route's own), in the order the map lists
    /// the routes; the servers of kept routes stay as they are, and routes
    /// in `keep` without a server get none.
    pub fn retain_only(&mut self, keep: &[u128]) -> (stopped: Vec<H>)
        ensures
            final(self).servers() == old(self).servers().restrict(keep@.to_set()),
            exists|ids: Seq<u128>|
                ids.to_set() == old(self).running() && ids.no_duplicates() && stopped@
                    == handles_of(old(self).servers(), #[trigger] stale_servers(ids, keep@)),
    {
        let ids = self.running_ids();
        let ghost orig = self.servers();
        let mut stopped: Vec<H> = Vec::new();
        let n = ids.len();
        for i in 0..n
            invariant
                n == ids@.len(),
                ids@.to_set() == orig.dom(),
                ids@.no_duplicates(),
                self.servers() == orig.remove_keys(
                    Set::new(|x: u128| ids@.take(i as int).contains(x) && !keep@.contains(x)),
                ),
                stopped@ == handles_of(orig, stale_servers(ids@.take(i as int), keep@)),
        {
            let id = ids[i];
            let ghost before = self.servers();
            assert(ids@.take(i + 1).drop_last() =~= ids@.take(i as int));
            assert(ids@.take(i + 1).last() == id);
            assert(!ids@.take(i as int).contains(id)) by {
                if ids@.take(i as int).contains(id) {
                    let k = choose|k: int| 0 <= k < i && #[trigger] ids@.take(i as int)[k] == id;
                    assert(ids@[k] == ids@[i as int]);
                }
            }
            assert(ids@.contains(id));
            assert(orig.dom().contains(id));
            if !contains_id(keep, id) {
                let h = self.remove(id);
                assert(before.dom().contains(id));
                assert(before[id] == orig[id]);
                stopped.push(h.unwrap());
                assert(self.servers() =~= orig.remove_keys(
                    Set::new(|x: u128| ids@.take(i + 1).contains(x) && !keep@.contains(x)),
                )) by {
                    assert forall|x: u128|
                        ids@.take(i + 1).contains(x) <==> ids@.take(i as int).contains(x) || x == id by {
                        lemma_take_next_contains(ids@, i as int, x);
                    }
                }
                assert(stopped@ =~= handles_of(orig, stale_servers(ids@.take(i + 1), keep@)));
            } else {
                assert(self.servers() =~= orig.remove_keys(
                    Set::new(|x: u128| ids@.take(i + 1).contains(x) && !keep@.contains(x)),
                )) by {
                    assert forall|x: u128|
                        ids@.take(i + 1).contains(x) <==> ids@.take(i as int).contains(x) || x == id by {
                        lemma_take_next_contains(ids@, i as int, x);
                    }
                }
            }
        }
        assert(ids@.take(n as int) =~= ids@);
        assert(self.servers() =~= orig.restrict(keep@.to_set())) by {
            assert forall|x: u128| ids@.contains(x) <==> orig.dom().contains(x) by {
                assert(ids@.to_set().contains(x) == ids@.contains(x));
            }
        }
        stopped
    }

    /// Stops tracking the server of `id` and hands over that route's own
    /// handle, if one runs; the other routes keep theirs.
    pub fn remove(&mut self, id: u128) -> (h: Option<H>)
        ensures
            h == (if old(self).servers().dom().contains(id) {
                Some(old(self).servers()[id])
            } else {
                None
            }),
            final(self).servers() == old(self).servers().remove(id),
    {
        broadcast use vstd::std_specs::hash::group_hash_axioms;
        let r = self.servers.remove(&id);
        proof {
            if !old(self).servers@.dom().contains(id) {
                assert(old(self).servers@.remove(id) =~= old(self).servers@);
            }
        }
        r
    }
}

/// A second start request for a route behaves as a no-op: once a request
/// for `id` has been made, the route has a server, a further request starts
/// none, and the running set stays as it is.
pub proof fn lemma_start_twice(running: Set<u128>, id: u128)
    ensures
        !starts(after_start(running, id), id),
        after_start(after_start(running, id), id) == after_start(running, id),
{
    assert(after_start(after_start(running, id), id) =~= after_start(running, id));
}

} // verus!
