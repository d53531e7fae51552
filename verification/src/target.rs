use vstd::prelude::*;

use crate::engine::ObservedState;
use crate::member::Member;
use crate::MutationOutcome;

verus! {

/// An in-memory stand-in for the mutation API, holding the identities
/// currently present on a proxy listener. It meets the contract the
/// engine relies on: additions and removals always succeed and are
/// idempotent, so adding a present identity and removing an absent one
/// are no-ops that still count as success. Tests drive whole cycles
/// against it.
pub struct SimulatedTarget {
    state: ObservedState,
}

impl SimulatedTarget {
    /// The identities currently present on the target.
    pub closed spec fn ids(self) -> Set<Seq<char>> {
        self.state.ids()
    }

    pub closed spec fn wf(self) -> bool {
        self.state.wf()
    }

    /// A target with no members.
    pub fn new() -> (r: SimulatedTarget)
        ensures
            r.wf(),
            r.ids() =~= Set::<Seq<char>>::empty(),
    {
        SimulatedTarget { state: ObservedState::new() }
    }

    /// Add a member: afterwards its identity is present, whatever was
    /// there before, and the call reports success either way.
    pub fn add_member(&mut self, m: &Member) -> (r: MutationOutcome)
        requires
            old(self).wf(),
        ensures
            final(self).wf(),
            r is Applied,
            final(self).ids() =~= old(self).ids().insert(m@.identity),
    {
        if self.state.contains_id(&m.identity) {
            proof {
                assert(old(self).ids().insert(m@.identity) =~= old(self).ids());
            }
            MutationOutcome::Applied
        } else {
            self.state.insert(m.clone());
            MutationOutcome::Applied
        }
    }

    /// Remove an identity: afterwards it is absent, whether or not it was
    /// present, and the call reports success either way.
    pub fn remove_member(&mut self, id: &String) -> (r: MutationOutcome)
        requires
            old(self).wf(),
        ensures
            final(self).wf(),
            r is Applied,
            final(self).ids() =~= old(self).ids().remove(id@),
    {
        self.state.remove(id);
        MutationOutcome::Applied
    }

    /// Whether `id` is present on the target.
    pub fn contains(&self, id: &String) -> (r: bool)
        ensures
            r == self.ids().contains(id@),
    {
        self.state.contains_id(id)
    }
}

/// Idempotence of addition: issuing the same addition twice leaves the
/// target in the same state as issuing it once.
pub proof fn lemma_add_idempotent(t: Set<Seq<char>>, id: Seq<char>)
    ensures
        t.insert(id).insert(id) == t.insert(id),
{
    assert(t.insert(id).insert(id) =~= t.insert(id));
}

/// Idempotence of removal: issuing the same removal twice leaves the
/// target in the same state as issuing it once.
pub proof fn lemma_remove_idempotent(t: Set<Seq<char>>, id: Seq<char>)
    ensures
        t.remove(id).remove(id) == t.remove(id),
{
    assert(t.remove(id).remove(id) =~= t.remove(id));
}

} // verus!
