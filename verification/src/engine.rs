//! The request-correlation engine: unique id allocation, the pending-request
//! registry, and the dispatch decisions that route each inbound frame to the
//! one caller that awaits it. The engine is the decision core; the
//! surrounding runtime performs the sends, receives and wakeups and reports
//! every event back to it.

use vstd::prelude::*;

use crate::errors::RpcClientError;

verus! {

/// What the dispatcher is to do with one inbound frame: wake the caller that
/// awaits the resolved id, or discard the frame.
#[derive(Debug, PartialEq, Eq, Structural)]
pub enum DispatchOutcome {
    Resolved(u64),
    Ignored,
}

/// The correlation state: the next fresh request id, the ids of the requests
/// in flight, and whether the dispatch loop is still running.
#[derive(Debug)]
pub struct Engine {
    pub next_id: u64,
    pub pending: Vec<u64>,
    pub running: bool,
}

impl Engine {
    /// The engine's invariant: ids start at one, no id is registered twice,
    /// and every registered id is older than the next fresh one.
    pub open spec fn inv(self) -> bool {
        &&& 1 <= self.next_id
        &&& self.pending@.no_duplicates()
        &&& forall|j: int|
            0 <= j < self.pending@.len() ==> 1 <= #[trigger] self.pending@[j] < self.next_id
    }

    /// Whether a request with this id is in flight.
    pub open spec fn is_pending(self, id: u64) -> bool {
        self.pending@.contains(id)
    }

    /// One successful `begin_call` step: a fresh id is allocated and
    /// registered, and nothing else changes.
    pub open spec fn begin_step(pre: Engine, post: Engine, id: u64) -> bool {
        &&& pre.running
        &&& id == pre.next_id
        &&& !pre.is_pending(id)
        &&& post.next_id == pre.next_id + 1
        &&& post.pending@ == pre.pending@.push(id)
        &&& post.running == pre.running
    }

    /// One dispatch step: a frame whose id matches a pending request resolves
    /// exactly that request and removes exactly its entry; any other frame is
    /// ignored and changes nothing.
    pub open spec fn dispatch_step(
        pre: Engine,
        post: Engine,
        id: Option<u64>,
        r: DispatchOutcome,
    ) -> bool {
        &&& post.next_id == pre.next_id
        &&& post.running == pre.running
        &&& post.pending@.no_duplicates()
        &&& match id {
            Some(i) => if pre.is_pending(i) {
                &&& r == DispatchOutcome::Resolved(i)
                &&& forall|x: u64| post.is_pending(x) <==> pre.is_pending(x) && x != i
                &&& post.pending@.len() == pre.pending@.len() - 1
            } else {
                r == DispatchOutcome::Ignored && post == pre
            },
            None => r == DispatchOutcome::Ignored && post == pre,
        }
    }

    /// One disconnect step: the engine stops and hands back every pending id.
    pub open spec fn disconnect_step(pre: Engine, post: Engine, drained: Seq<u64>) -> bool {
        &&& !post.running
        &&& post.pending@ == Seq::<u64>::empty()
        &&& post.next_id == pre.next_id
        &&& drained == pre.pending@
    }

    /// A fresh engine: ids start at one, nothing pending, running.
    pub fn new() -> (e: Engine)
        ensures
            e.inv(),
            e.next_id == 1,
            e.pending@ == Seq::<u64>::empty(),
            e.running,
    {
        let e = Engine { next_id: 1, pending: Vec::new(), running: true };
        proof {
            assert(e.pending@ =~= Seq::<u64>::empty());
        }
        e
    }

    /// Whether the id space still has room for another call.
    pub fn has_capacity(&self) -> (r: bool)
        ensures
            r == (self.next_id < u64::MAX),
    {
        self.next_id < u64::MAX
    }

    /// Whether the dispatch loop is still running.
    pub fn is_running(&self) -> (r: bool)
        ensures
            r == self.running,
    {
        self.running
    }

    /// How many requests are in flight.
    pub fn pending_count(&self) -> (r: usize)
        ensures
            r == self.pending@.len(),
    {
        self.pending.len()
    }

    /// Starts a call: on a running engine, allocates the next id and
    /// registers it before anything is sent; on a stopped engine, fails fast
    /// with `Disconnected` and changes nothing.
    pub fn begin_call(&mut self) -> (r: Result<u64, RpcClientError>)
        requires
            old(self).inv(),
            old(self).next_id < u64::MAX,
        ensures
            final(self).inv(),
            old(self).running ==> (r matches Ok(id) && Engine::begin_step(
                *old(self),
                *final(self),
                id,
            )),
            !old(self).running ==> (r matches Err(e) && e == RpcClientError::Disconnected
                && *final(self) == *old(self)),
    {
        if !self.running {
            return Err(RpcClientError::Disconnected);
        }
        let id = self.next_id;
        proof {
            assert(!self.pending@.contains(id));
        }
        self.next_id = self.next_id + 1;
        self.pending.push(id);
        proof {
            let p = old(self).pending@;
            assert forall|a: int, b: int|
                0 <= a < b < p.push(id).len() implies p.push(id)[a] != p.push(id)[b] by {
                if b < p.len() {
                    assert(p[a] != p[b]);
                } else {
                    assert(p.push(id)[b] == id);
                    assert(p.push(id)[a] == p[a]);
                }
            }
        }
        Ok(id)
    }

    /// Finds the registry slot of an id, if the id is in flight.
    fn find_pending(&self, id: u64) -> (r: Option<usize>)
        ensures
            match r {
                Some(i) => i < self.pending@.len() && self.pending@[i as int] == id,
                None => !self.is_pending(id),
            },
    {
        let n = self.pending.len();
        let mut i: usize = 0;
        while i < n
            invariant
                i <= n,
                n == self.pending@.len(),
                forall|j: int| 0 <= j < i ==> self.pending@[j] != id,
            decreases n - i,
        {
            if self.pending[i] == id {
                return Some(i);
            }
            i += 1;
        }
        None
    }

    /// Removes the entry of an id, reporting whether it was in flight. This
    /// is the remove-then-resolve half of dispatch, and also what a failed
    /// send uses to take back the entry it registered.
    pub fn abort_call(&mut self, id: u64) -> (found: bool)
        requires
            old(self).inv(),
        ensures
            final(self).inv(),
            found == old(self).is_pending(id),
            found ==> {
                &&& forall|x: u64| final(self).is_pending(x) <==> old(self).is_pending(x) && x != id
                &&& final(self).pending@.len() == old(self).pending@.len() - 1
            },
            !found ==> *final(self) == *old(self),
            final(self).next_id == old(self).next_id,
            final(self).running == old(self).running,
    {
        match self.find_pending(id) {
            Some(i) => {
                let ghost p = self.pending@;
                self.pending.remove(i);
                proof {
                    let q = self.pending@;
                    assert(q =~= p.take(i as int) + p.skip(i as int + 1));
                    assert forall|a: int, b: int| 0 <= a < b < q.len() implies q[a] != q[b] by {
                        let amap: int = if a < i { a } else { a + 1 };
                        let bmap: int = if b < i { b } else { b + 1 };
                        assert(q[a] == p[amap]);
                        assert(q[b] == p[bmap]);
                    }
                    assert forall|x: u64| final(self).is_pending(x) implies old(self).is_pending(x)
                        && x != id by {
                        let k = choose|k: int| 0 <= k < q.len() && q[k] == x;
                        let kmap: int = if k < i { k } else { k + 1 };
                        assert(p[kmap] == x);
                        assert(p.contains(x));
                        assert(p[i as int] == id);
                        assert(kmap != i);
                    }
                    assert forall|x: u64| old(self).is_pending(x) && x != id implies (final(
                        self)).is_pending(x) by {
                        let k = choose|k: int| 0 <= k < p.len() && p[k] == x;
                        assert(k != i);
                        let kmap: int = if k < i { k } else { k - 1 };
                        assert(q[kmap] == x);
                        assert(q.contains(x));
                    }
                }
                true
            },
            None => false,
        }
    }

    /// Routes one decoded frame id: resolves the matching pending request,
    /// removing its entry first, and ignores a frame with no id or with no
    /// matching entry.
    pub fn dispatch(&mut self, id: Option<u64>) -> (r: DispatchOutcome)
        requires
            old(self).inv(),
        ensures
            final(self).inv(),
            Engine::dispatch_step(*old(self), *final(self), id, r),
    {
        match id {
            Some(i) => {
                if self.abort_call(i) {
                    DispatchOutcome::Resolved(i)
                } else {
                    DispatchOutcome::Ignored
                }
            },
            None => DispatchOutcome::Ignored,
        }
    }

    /// The transport has ended: stop the engine and hand back every pending
    /// id so that each waiting caller can be woken with `Disconnected`.
    pub fn on_disconnect(&mut self) -> (drained: Vec<u64>)
        requires
            old(self).inv(),
        ensures
            final(self).inv(),
            Engine::disconnect_step(*old(self), *final(self), drained@),
    {
        self.running = false;
        let mut drained: Vec<u64> = Vec::new();
        core::mem::swap(&mut drained, &mut self.pending);
        proof {
            assert(final(self).pending@ =~= Seq::<u64>::empty());
        }
        drained
    }

    /// A run of consecutive successful `begin_call` steps.
    pub open spec fn begin_trace(states: Seq<Engine>, ids: Seq<u64>) -> bool {
        &&& states.len() == ids.len() + 1
        &&& forall|k: int|
            0 <= k < ids.len() ==> #[trigger] Engine::begin_step(states[k], states[k + 1], ids[k])
    }
}

/// A successful `begin_call` step preserves the engine invariant.
pub proof fn lemma_begin_preserves_inv(pre: Engine, post: Engine, id: u64)
    requires
        pre.inv(),
        Engine::begin_step(pre, post, id),
    ensures
        post.inv(),
{
    let p = pre.pending@;
    let q = post.pending@;
    assert forall|a: int, b: int| 0 <= a < b < q.len() implies q[a] != q[b] by {
        if b < p.len() {
            assert(p[a] != p[b]);
        } else {
            assert(q[b] == id);
            assert(q[a] == p[a]);
            assert(p[a] < pre.next_id);
        }
    }
}

/// Law (uniqueness): however many calls are started in a row, the allocated
/// ids are pairwise distinct, and every one of them is registered — so each
/// eventual response can be delivered to exactly one caller.
pub proof fn lemma_ids_unique(states: Seq<Engine>, ids: Seq<u64>)
    requires
        states.len() == ids.len() + 1,
        states[0].inv(),
        Engine::begin_trace(states, ids),
    ensures
        ids.no_duplicates(),
        states.last().inv(),
        forall|k: int| 0 <= k < ids.len() ==> states.last().is_pending(ids[k]),
    decreases ids.len(),
{
    if ids.len() == 0 {
    } else {
        let n = ids.len() as int;
        let states0 = states.drop_last();
        let ids0 = ids.drop_last();
        assert(Engine::begin_trace(states0, ids0)) by {
            assert forall|k: int| 0 <= k < ids0.len() implies #[trigger] Engine::begin_step(
                states0[k],
                states0[k + 1],
                ids0[k],
            ) by {
                assert(Engine::begin_step(states[k], states[k + 1], ids[k]));
            }
        }
        lemma_ids_unique(states0, ids0);
        let pre = states[n - 1];
        let post = states[n];
        assert(Engine::begin_step(pre, post, ids[n - 1]));
        assert(states0.last() == pre);
        lemma_begin_preserves_inv(pre, post, ids[n - 1]);
        assert(states.last() == post);
        assert forall|k: int| 0 <= k < n implies post.is_pending(ids[k]) by {
            if k < n - 1 {
                assert(ids0[k] == ids[k]);
                assert(pre.is_pending(ids[k]));
                let j = choose|j: int| 0 <= j < pre.pending@.len() && pre.pending@[j] == ids[k];
                assert(post.pending@[j] == ids[k]);
                assert(post.pending@.contains(ids[k]));
            } else {
                let m = post.pending@.len() - 1;
                assert(post.pending@[m] == ids[n - 1]);
                assert(post.pending@.contains(ids[n - 1]));
            }
        }
        assert forall|a: int, b: int| 0 <= a < b < n implies ids[a] != ids[b] by {
            if b < n - 1 {
                assert(ids0[a] == ids[a]);
                assert(ids0[b] == ids[b]);
            } else {
                assert(ids0[a] == ids[a]);
                assert(pre.is_pending(ids[a]));
                assert(!pre.is_pending(ids[n - 1]));
            }
        }
    }
}

/// Law (no double resolution): a pending entry is resolved at most once — the
/// first matching frame resolves it and removes its entry, and a duplicate
/// frame bearing the same id is then ignored without effect.
pub proof fn lemma_no_double_resolution(
    e0: Engine,
    e1: Engine,
    e2: Engine,
    id: u64,
    r1: DispatchOutcome,
    r2: DispatchOutcome,
)
    requires
        e0.is_pending(id),
        Engine::dispatch_step(e0, e1, Some(id), r1),
        Engine::dispatch_step(e1, e2, Some(id), r2),
    ensures
        r1 == DispatchOutcome::Resolved(id),
        !e1.is_pending(id),
        r2 == DispatchOutcome::Ignored,
        e2 == e1,
{
}

/// Law (order independence): with calls `a` and `b` both in flight, the
/// responses may arrive in either order; each frame resolves exactly the
/// caller that bears its id.
pub proof fn lemma_order_independence(
    e0: Engine,
    e1: Engine,
    e2: Engine,
    a: u64,
    b: u64,
    r1: DispatchOutcome,
    r2: DispatchOutcome,
)
    requires
        a != b,
        e0.is_pending(a),
        e0.is_pending(b),
        Engine::dispatch_step(e0, e1, Some(b), r1),
        Engine::dispatch_step(e1, e2, Some(a), r2),
    ensures
        r1 == DispatchOutcome::Resolved(b),
        r2 == DispatchOutcome::Resolved(a),
        !e2.is_pending(a),
        !e2.is_pending(b),
{
}

/// Law (unmatched frame tolerance): a frame bearing an id with no pending
/// entry is discarded: nothing is resolved and no other entry is affected.
pub proof fn lemma_unmatched_ignored(e0: Engine, e1: Engine, id: u64, r: DispatchOutcome)
    requires
        !e0.is_pending(id),
        Engine::dispatch_step(e0, e1, Some(id), r),
    ensures
        r == DispatchOutcome::Ignored,
        e1 == e0,
{
}

/// Law (shutdown drains): when the dispatch loop terminates, every pending
/// id is handed back exactly once — as many ids as there were pending calls —
/// the registry is left empty, and no later call can start: a `begin_call`
/// step is impossible on the stopped engine, so every such call fails with
/// `Disconnected`.
pub proof fn lemma_shutdown_drains(pre: Engine, post: Engine, drained: Seq<u64>)
    requires
        pre.inv(),
        Engine::disconnect_step(pre, post, drained),
    ensures
        drained.no_duplicates(),
        drained.len() == pre.pending@.len(),
        forall|x: u64| drained.contains(x) <==> pre.is_pending(x),
        post.pending@.len() == 0,
        !post.running,
        forall|post2: Engine, id: u64| !#[trigger] Engine::begin_step(post, post2, id),
{
}

} // verus!
