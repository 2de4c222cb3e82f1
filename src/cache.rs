//! The identity cache: holds the first identifier settled on, for good.
use vstd::prelude::*;

use crate::machine_id::MachineId;
use crate::uuid_ops::is_random_layout;

verus! {

/// A cell that is empty at first and, once filled, holds one identifier for
/// the rest of its life. The first identifier stored wins.
pub struct IdentityCache {
    slot: Option<MachineId>,
}

impl View for IdentityCache {
    type V = Option<MachineId>;

    closed spec fn view(&self) -> Option<MachineId> {
        self.slot
    }
}

/// One query of the cache, seen from outside: it answered `r`, and went from
/// holding `before` to holding `after`. A filled cache answers what it holds and
/// keeps it; an empty one ends up holding its answer.
pub open spec fn answers(before: Option<MachineId>, after: Option<MachineId>, r: MachineId) -> bool {
    &&& after == Some(r)
    &&& before matches Some(id) ==> r == id
}

impl IdentityCache {
    /// An empty cache.
    pub fn new() -> (r: IdentityCache)
        ensures
            r@ is None,
    {
        IdentityCache { slot: None }
    }

    /// The identifier held, if the cache has been filled.
    pub fn cached(&self) -> (r: Option<MachineId>)
        ensures
            r == self@,
    {
        self.slot
    }

    /// Settles the outcome of one resolution: a filled cache keeps its
    /// identifier; an empty one takes `found`, or a fresh random identifier
    /// when `found` is `None`. Returns the identifier now held.
    pub fn settle(&mut self, found: Option<MachineId>) -> (r: MachineId)
        ensures
            answers(old(self)@, final(self)@, r),
            old(self)@ is None && found is Some ==> r == found->0,
            old(self)@ is None && found is None ==> is_random_layout(r@),
    {
        match self.slot {
            Some(id) => id,
            None => {
                let id = match found {
                    Some(id) => id,
                    None => MachineId::generate(),
                };
                self.slot = Some(id);
                id
            },
        }
    }
}

impl MachineId {
    /// Retrieves the identifier held by `cache`, or, when it is empty,
    /// resolves one with `resolve` (falling back to a random identifier when
    /// that finds none) and fills the cache with it. `resolve` is called only
    /// on an empty cache.
    pub fn get<F: FnOnce() -> Option<MachineId>>(cache: &mut IdentityCache, resolve: F) -> (r: MachineId)
        requires
            old(cache)@ is None ==> resolve.requires(()),
        ensures
            answers(old(cache)@, final(cache)@, r),
            old(cache)@ is None ==> exists|found: Option<MachineId>|
                #![trigger resolve.ensures((), found)]
                resolve.ensures((), found) && (found matches Some(id) ==> r == id) && (found is None
                    ==> is_random_layout(r@)),
    {
        match cache.cached() {
            Some(id) => id,
            None => {
                let found = resolve();
                cache.settle(found)
            },
        }
    }
}

/// Two queries in sequence answer the same identifier, and the second leaves
/// the cache as the first left it.
pub proof fn lemma_queries_agree(
    before: Option<MachineId>,
    between: Option<MachineId>,
    after: Option<MachineId>,
    first: MachineId,
    second: MachineId,
)
    requires
        answers(before, between, first),
        answers(between, after, second),
    ensures
        first == second,
        after == between,
{
}

/// Any run of queries, one after another, answers one identifier throughout:
/// the first answer. `states[k]` is what the cache held before query `k`.
pub proof fn lemma_run_agrees(states: Seq<Option<MachineId>>, replies: Seq<MachineId>)
    requires
        states.len() == replies.len() + 1,
        forall|k: int| 0 <= k < replies.len() ==> answers(#[trigger] states[k], states[k + 1], replies[k]),
    ensures
        forall|k: int| 0 <= k < replies.len() ==> #[trigger] replies[k] == replies[0],
        forall|k: int| 1 <= k < states.len() ==> #[trigger] states[k] == Some(replies[0]),
    decreases replies.len(),
{
    if replies.len() > 1 {
        let n = replies.len() - 1;
        let (s, r) = (states.drop_last(), replies.drop_last());
        assert forall|k: int| 0 <= k < r.len() implies answers(#[trigger] s[k], s[k + 1], r[k]) by {
            assert(answers(states[k], states[k + 1], replies[k]));
        }
        lemma_run_agrees(s, r);
        assert(answers(states[n], states[n + 1], replies[n]));
        assert(s[n] == states[n] && r[0] == replies[0]);
        assert forall|k: int| 1 <= k < states.len() implies #[trigger] states[k] == Some(replies[0]) by {
            if k <= n {
                assert(s[k] == states[k]);
            }
        }
        assert forall|k: int| 0 <= k < replies.len() implies #[trigger] replies[k] == replies[0] by {
            if k < n {
                assert(r[k] == replies[k]);
            }
        }
    } else if replies.len() == 1 {
        assert(answers(states[0], states[1], replies[0]));
    }
}

} // verus!
