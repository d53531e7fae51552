use vstd::prelude::*;

use crate::fetch::FetchError;
use crate::member::Member;
use crate::target::SimulatedTarget;
use crate::MutationOutcome;

verus! {

/// The set of identities occurring in a sequence of members.
pub open spec fn member_ids(s: Seq<Member>) -> Set<Seq<char>> {
    Set::new(|id: Seq<char>| exists|i: int| 0 <= i < s.len() && s[i]@.identity == id)
}

/// The set of identities occurring in a sequence of identity strings.
pub open spec fn string_ids(s: Seq<String>) -> Set<Seq<char>> {
    Set::new(|id: Seq<char>| exists|i: int| 0 <= i < s.len() && s[i]@ == id)
}

/// No identity occurs twice in the sequence.
pub open spec fn distinct_member_ids(s: Seq<Member>) -> bool {
    forall|i: int, j: int| 0 <= i < j < s.len() ==> s[i]@.identity != s[j]@.identity
}

/// No identity string occurs twice in the sequence.
pub open spec fn distinct_strings(s: Seq<String>) -> bool {
    forall|i: int, j: int| 0 <= i < j < s.len() ==> s[i]@ != s[j]@
}

/// The engine's record of the members it believes it has applied to the
/// mutation target: a mapping from identity to member, held as a vector
/// with pairwise distinct identities. Created empty at process start,
/// mutated only after a confirmed successful add or remove, never
/// persisted.
pub struct ObservedState {
    members: Vec<Member>,
}

impl ObservedState {
    /// The records in insertion order.
    pub closed spec fn members_seq(self) -> Seq<Member> {
        self.members@
    }

    /// The identities believed currently applied to the mutation target.
    pub open spec fn ids(self) -> Set<Seq<char>> {
        member_ids(self.members_seq())
    }

    /// One record per identity.
    pub open spec fn wf(self) -> bool {
        distinct_member_ids(self.members_seq())
    }

    /// A fresh record: empty, as after process start or restart.
    pub fn new() -> (r: ObservedState)
        ensures
            r.wf(),
            r.ids() =~= Set::<Seq<char>>::empty(),
            r.members_seq().len() == 0,
    {
        let r = ObservedState { members: Vec::new() };
        proof {
            assert forall|id: Seq<char>| !r.ids().contains(id) by {}
        }
        r
    }

    /// Whether `id` is recorded as applied.
    pub fn contains_id(&self, id: &String) -> (r: bool)
        ensures
            r == self.ids().contains(id@),
    {
        let mut i: usize = 0;
        while i < self.members.len()
            invariant
                i <= self.members.len(),
                forall|k: int| 0 <= k < i ==> self.members@[k]@.identity != id@,
            decreases self.members.len() - i,
        {
            if self.members[i].identity == *id {
                proof {
                    assert(self.members_seq()[i as int]@.identity == id@);
                }
                return true;
            }
            i += 1;
        }
        false
    }

    /// Record a member as applied. The caller guarantees the identity is
    /// not yet recorded, which the reconciliation plan establishes.
    pub(crate) fn insert(&mut self, m: Member)
        requires
            old(self).wf(),
            !old(self).ids().contains(m@.identity),
        ensures
            final(self).wf(),
            final(self).ids() =~= old(self).ids().insert(m@.identity),
            final(self).members_seq() == old(self).members_seq().push(m),
    {
        proof {
            assert forall|k: int| 0 <= k < self.members@.len() implies self.members@[k]@.identity
                != m@.identity by {
                if self.members@[k]@.identity == m@.identity {
                    assert(self.ids().contains(m@.identity));
                }
            }
        }
        let ghost old_seq = self.members@;
        self.members.push(m);
        proof {
            assert forall|id: Seq<char>|
                self.ids().contains(id) == old(self).ids().insert(m@.identity).contains(id) by {
                if id == m@.identity {
                    assert(self.members@[old_seq.len() as int]@.identity == id);
                } else {
                    if old(self).ids().contains(id) {
                        let k = choose|k: int|
                            0 <= k < old_seq.len() && old_seq[k]@.identity == id;
                        assert(self.members@[k]@.identity == id);
                    }
                    if self.ids().contains(id) {
                        let k = choose|k: int|
                            0 <= k < self.members@.len() && self.members@[k]@.identity == id;
                        assert(k < old_seq.len());
                        assert(old_seq[k]@.identity == id);
                    }
                }
            }
        }
    }

    /// Drop the record for `id`, if any. Used only after a confirmed
    /// successful removal on the mutation target.
    pub(crate) fn remove(&mut self, id: &String)
        requires
            old(self).wf(),
        ensures
            final(self).wf(),
            final(self).ids() =~= old(self).ids().remove(id@),
    {
        let mut i: usize = 0;
        while i < self.members.len()
            invariant
                i <= self.members.len(),
                old(self).wf(),
                *self == *old(self),
                forall|k: int| 0 <= k < i ==> self.members@[k]@.identity != id@,
            decreases self.members.len() - i,
        {
            if self.members[i].identity == *id {
                let ghost old_seq = self.members@;
                self.members.remove(i);
                proof {
                    self.lemma_remove_index_ids(old_seq, i as int, id@);
                }
                return;
            }
            i += 1;
        }
        proof {
            assert forall|id2: Seq<char>|
                self.ids().contains(id2) == old(self).ids().remove(id@).contains(id2) by {
                if self.ids().contains(id2) && id2 == id@ {
                    let k = choose|k: int|
                        0 <= k < self.members@.len() && self.members@[k]@.identity == id2;
                    assert(false);
                }
            }
        }
    }

    /// After deleting index `i`, which held `id`, from a duplicate-free
    /// record, the identity set loses exactly `id`.
    proof fn lemma_remove_index_ids(self, old_seq: Seq<Member>, i: int, id: Seq<char>)
        requires
            distinct_member_ids(old_seq),
            0 <= i < old_seq.len(),
            old_seq[i]@.identity == id,
            self.members_seq() == old_seq.remove(i),
        ensures
            self.wf(),
            self.ids() =~= member_ids(old_seq).remove(id),
    {
        let new_seq = self.members_seq();
        assert(new_seq.len() == old_seq.len() - 1);
        assert forall|k: int| 0 <= k < new_seq.len() implies new_seq[k] == (if k < i {
            old_seq[k]
        } else {
            old_seq[k + 1]
        }) by {}
        assert forall|k1: int, k2: int| 0 <= k1 < k2 < new_seq.len() implies new_seq[k1]@.identity
            != new_seq[k2]@.identity by {}
        assert forall|id2: Seq<char>|
            self.ids().contains(id2) == member_ids(old_seq).remove(id).contains(id2) by {
            if self.ids().contains(id2) {
                let k = choose|k: int| 0 <= k < new_seq.len() && new_seq[k]@.identity == id2;
                if k < i {
                    assert(old_seq[k]@.identity == id2);
                    assert(old_seq[k]@.identity != old_seq[i]@.identity);
                } else {
                    assert(old_seq[k + 1]@.identity == id2);
                    assert(old_seq[k + 1]@.identity != old_seq[i]@.identity);
                }
            }
            if member_ids(old_seq).remove(id).contains(id2) {
                let k = choose|k: int| 0 <= k < old_seq.len() && old_seq[k]@.identity == id2;
                assert(k != i);
                if k < i {
                    assert(new_seq[k]@.identity == id2);
                } else {
                    assert(new_seq[k - 1]@.identity == id2);
                }
            }
        }
    }
}

/// Whether some member of `desired` carries the identity `id`.
pub(crate) fn desired_contains_id(desired: &Vec<Member>, id: &String) -> (r: bool)
    ensures
        r == member_ids(desired@).contains(id@),
{
    let mut i: usize = 0;
    while i < desired.len()
        invariant
            i <= desired.len(),
            forall|k: int| 0 <= k < i ==> desired@[k]@.identity != id@,
        decreases desired.len() - i,
    {
        if desired[i].identity == *id {
            proof {
                assert(desired@[i as int]@.identity == id@);
            }
            return true;
        }
        i += 1;
    }
    false
}

/// One cycle's deltas: the members to add to the mutation target and the
/// identities to remove from it. An identity never appears on both sides.
pub struct CyclePlan {
    pub to_add: Vec<Member>,
    pub to_remove: Vec<String>,
}

/// Dropping the last identity string removes exactly it from the
/// string identity set.
pub proof fn lemma_string_ids_drop_last(s: Seq<String>)
    requires
        s.len() > 0,
    ensures
        string_ids(s) =~= string_ids(s.drop_last()).insert(s.last()@),
{
    let d = s.drop_last();
    assert forall|id: Seq<char>|
        string_ids(s).contains(id) == string_ids(d).insert(s.last()@).contains(id) by {
        if string_ids(s).contains(id) {
            let k = choose|k: int| 0 <= k < s.len() && s[k]@ == id;
            if k < s.len() - 1 {
                assert(d[k]@ == id);
            }
        }
        if string_ids(d).contains(id) {
            let k = choose|k: int| 0 <= k < d.len() && d[k]@ == id;
            assert(s[k]@ == id);
        }
    }
}

/// The members of `desired` whose identity is not in `obs`, in order.
pub open spec fn spec_to_add(desired: Seq<Member>, obs: Set<Seq<char>>) -> Seq<Member>
    decreases desired.len(),
{
    if desired.len() == 0 {
        Seq::empty()
    } else {
        let rest = spec_to_add(desired.drop_last(), obs);
        if obs.contains(desired.last()@.identity) {
            rest
        } else {
            rest.push(desired.last())
        }
    }
}

/// The identities of `recorded` that are not in `desired_ids`, in order.
pub open spec fn spec_to_remove(recorded: Seq<Member>, desired_ids: Set<Seq<char>>) -> Seq<
    String,
>
    decreases recorded.len(),
{
    if recorded.len() == 0 {
        Seq::empty()
    } else {
        let rest = spec_to_remove(recorded.drop_last(), desired_ids);
        if desired_ids.contains(recorded.last()@.identity) {
            rest
        } else {
            rest.push(recorded.last().identity)
        }
    }
}

/// Dropping the last member removes exactly its identity from the
/// identity set, provided identities are pairwise distinct.
pub proof fn lemma_member_ids_drop_last(s: Seq<Member>)
    requires
        s.len() > 0,
    ensures
        member_ids(s) =~= member_ids(s.drop_last()).insert(s.last()@.identity),
        distinct_member_ids(s) ==> !member_ids(s.drop_last()).contains(s.last()@.identity),
{
    let d = s.drop_last();
    assert forall|id: Seq<char>|
        member_ids(s).contains(id) == member_ids(d).insert(s.last()@.identity).contains(id) by {
        if member_ids(s).contains(id) {
            let k = choose|k: int| 0 <= k < s.len() && s[k]@.identity == id;
            if k < s.len() - 1 {
                assert(d[k]@.identity == id);
            }
        }
        if member_ids(d).contains(id) {
            let k = choose|k: int| 0 <= k < d.len() && d[k]@.identity == id;
            assert(s[k]@.identity == id);
        }
    }
    if distinct_member_ids(s) && member_ids(d).contains(s.last()@.identity) {
        let k = choose|k: int| 0 <= k < d.len() && d[k]@.identity == s.last()@.identity;
        assert(s[k]@.identity == s[s.len() - 1]@.identity);
    }
}

/// What the planned additions cover: each planned member is a desired
/// member not yet observed, identities stay pairwise distinct, and the
/// planned identity set is exactly the desired set less the observed set.
pub proof fn lemma_to_add_props(desired: Seq<Member>, obs: Set<Seq<char>>)
    requires
        distinct_member_ids(desired),
    ensures
        distinct_member_ids(spec_to_add(desired, obs)),
        member_ids(spec_to_add(desired, obs)) =~= member_ids(desired).difference(obs),
        forall|j: int|
            #![trigger spec_to_add(desired, obs)[j]]
            0 <= j < spec_to_add(desired, obs).len() ==> !obs.contains(
                spec_to_add(desired, obs)[j]@.identity,
            ) && member_ids(desired).contains(spec_to_add(desired, obs)[j]@.identity),
    decreases desired.len(),
{
    let r = spec_to_add(desired, obs);
    if desired.len() == 0 {
        assert(member_ids(r) =~= member_ids(desired).difference(obs)) by {
            assert forall|id: Seq<char>| !member_ids(r).contains(id) by {}
            assert forall|id: Seq<char>| !member_ids(desired).contains(id) by {}
        }
    } else {
        let d = desired.drop_last();
        let m = desired.last();
        let rest = spec_to_add(d, obs);
        lemma_to_add_props(d, obs);
        lemma_member_ids_drop_last(desired);
        if obs.contains(m@.identity) {
            assert(r == rest);
            assert(member_ids(r) =~= member_ids(desired).difference(obs)) by {
                assert(member_ids(rest) =~= member_ids(d).difference(obs));
                assert(member_ids(desired) =~= member_ids(d).insert(m@.identity));
            }
        } else {
            assert(r == rest.push(m));
            lemma_member_ids_drop_last(r);
            assert(r.drop_last() =~= rest);
            assert(r.last() == m);
            assert(member_ids(r) =~= member_ids(rest).insert(m@.identity));
            assert(member_ids(r) =~= member_ids(desired).difference(obs));
            assert(!member_ids(d).contains(m@.identity));
            assert(!member_ids(rest).contains(m@.identity));
            assert(distinct_member_ids(r)) by {
                assert forall|i: int, j: int| 0 <= i < j < r.len() implies r[i]@.identity
                    != r[j]@.identity by {
                    if j < r.len() - 1 {
                        assert(rest[i]@.identity != rest[j]@.identity);
                    } else {
                        assert(r[i] == rest[i]);
                        if r[i]@.identity == m@.identity {
                            assert(member_ids(rest).contains(m@.identity));
                        }
                    }
                }
            }
            assert forall|j: int|
                #![trigger r[j]]
                0 <= j < r.len() implies !obs.contains(r[j]@.identity) && member_ids(
                desired,
            ).contains(r[j]@.identity) by {
                if j < r.len() - 1 {
                    assert(r[j] == rest[j]);
                    assert(member_ids(d).contains(rest[j]@.identity));
                } else {
                    assert(r[j] == m);
                }
            }
        }
    }
}

/// What the planned removals cover: each planned identity is recorded
/// and no longer desired, identities stay pairwise distinct, and the
/// planned identity set is exactly the recorded set less the desired set.
pub proof fn lemma_to_remove_props(recorded: Seq<Member>, desired_ids: Set<Seq<char>>)
    requires
        distinct_member_ids(recorded),
    ensures
        distinct_strings(spec_to_remove(recorded, desired_ids)),
        string_ids(spec_to_remove(recorded, desired_ids)) =~= member_ids(recorded).difference(
            desired_ids,
        ),
        forall|j: int|
            #![trigger spec_to_remove(recorded, desired_ids)[j]]
            0 <= j < spec_to_remove(recorded, desired_ids).len() ==> member_ids(
                recorded,
            ).contains(spec_to_remove(recorded, desired_ids)[j]@) && !desired_ids.contains(
                spec_to_remove(recorded, desired_ids)[j]@,
            ),
    decreases recorded.len(),
{
    let r = spec_to_remove(recorded, desired_ids);
    if recorded.len() == 0 {
        assert(string_ids(r) =~= member_ids(recorded).difference(desired_ids)) by {
            assert forall|id: Seq<char>| !string_ids(r).contains(id) by {}
            assert forall|id: Seq<char>| !member_ids(recorded).contains(id) by {}
        }
    } else {
        let d = recorded.drop_last();
        let m = recorded.last();
        let rest = spec_to_remove(d, desired_ids);
        lemma_to_remove_props(d, desired_ids);
        lemma_member_ids_drop_last(recorded);
        if desired_ids.contains(m@.identity) {
            assert(r == rest);
            assert(string_ids(r) =~= member_ids(recorded).difference(desired_ids)) by {
                assert(member_ids(recorded) =~= member_ids(d).insert(m@.identity));
            }
        } else {
            assert(r == rest.push(m.identity));
            assert(!member_ids(d).contains(m@.identity));
            assert(!string_ids(rest).contains(m@.identity)) by {
                if string_ids(rest).contains(m@.identity) {
                    let j = choose|j: int| 0 <= j < rest.len() && rest[j]@ == m@.identity;
                    assert(member_ids(d).contains(rest[j]@));
                }
            }
            assert(string_ids(r) =~= member_ids(recorded).difference(desired_ids)) by {
                assert forall|id: Seq<char>|
                    string_ids(r).contains(id) == member_ids(recorded).difference(
                    desired_ids,
                ).contains(id) by {
                    if string_ids(r).contains(id) {
                        let j = choose|j: int| 0 <= j < r.len() && r[j]@ == id;
                        if j < r.len() - 1 {
                            assert(rest[j]@ == id);
                            assert(string_ids(rest).contains(id));
                        } else {
                            assert(r[j] == m.identity);
                        }
                    }
                    if member_ids(recorded).difference(desired_ids).contains(id) {
                        if id == m@.identity {
                            assert(r[r.len() - 1]@ == id);
                        } else {
                            assert(member_ids(d).contains(id));
                            assert(string_ids(rest).contains(id));
                            let j = choose|j: int| 0 <= j < rest.len() && rest[j]@ == id;
                            assert(r[j]@ == id);
                        }
                    }
                }
            }
            assert(distinct_strings(r)) by {
                assert forall|i: int, j: int| 0 <= i < j < r.len() implies r[i]@ != r[j]@ by {
                    if j < r.len() - 1 {
                        assert(rest[i]@ != rest[j]@);
                    } else {
                        assert(r[i] == rest[i]);
                        if r[i]@ == m@.identity {
                            assert(string_ids(rest).contains(m@.identity));
                        }
                    }
                }
            }
            assert forall|j: int|
                #![trigger r[j]]
                0 <= j < r.len() implies member_ids(recorded).contains(r[j]@)
                && !desired_ids.contains(r[j]@) by {
                if j < r.len() - 1 {
                    assert(r[j] == rest[j]);
                    assert(member_ids(d).contains(rest[j]@));
                } else {
                    assert(r[j] == m.identity);
                }
            }
        }
    }
}

/// Partial-failure isolation: when one addition fails transiently while
/// others of the same cycle succeed, the successes are recorded, the
/// failed identity is not, the recomputed diff of the next cycle plans
/// the failed addition again, and once the fault clears the retried
/// addition is recorded. The sets here are the ones `record_add` and
/// the diff characterization speak of: an addition inserts into the
/// observed identity set on success and leaves it unchanged on failure,
/// and a cycle plans exactly the desired identities not yet observed.
pub proof fn lemma_partial_failure_isolation(
    obs: Set<Seq<char>>,
    x: Seq<char>,
    y: Seq<char>,
    z: Seq<char>,
    desired: Set<Seq<char>>,
)
    requires
        !obs.contains(x),
        !obs.contains(y),
        !obs.contains(z),
        x != y,
        x != z,
        desired.contains(x),
    ensures
        obs.insert(y).insert(z).contains(y),
        obs.insert(y).insert(z).contains(z),
        !obs.insert(y).insert(z).contains(x),
        desired.difference(obs.insert(y).insert(z)).contains(x),
        obs.insert(y).insert(z).insert(x).contains(x),
{
}

/// Cold start: with nothing recorded, as after a restart, a cycle plans
/// an addition for every desired member, in order, and plans no removal
/// at all, whatever the mutation target already holds.
pub proof fn lemma_cold_start_plan(desired: Seq<Member>, desired_ids: Set<Seq<char>>)
    ensures
        spec_to_add(desired, Set::<Seq<char>>::empty()) == desired,
        spec_to_remove(Seq::<Member>::empty(), desired_ids) == Seq::<String>::empty(),
    decreases desired.len(),
{
    if desired.len() == 0 {
        assert(spec_to_add(desired, Set::<Seq<char>>::empty()) =~= desired);
    } else {
        lemma_cold_start_plan(desired.drop_last(), desired_ids);
        assert(spec_to_add(desired, Set::<Seq<char>>::empty()) =~= desired);
    }
}

impl ObservedState {
    /// Diff the desired membership against this record: `to_add` holds
    /// exactly the desired members whose identity is not recorded here,
    /// `to_remove` exactly the recorded identities that are no longer
    /// desired, both in input order. From an empty record nothing is ever
    /// planned for removal, and when the record already matches the
    /// desired identity set the plan is empty, so a repeated cycle over an
    /// unchanged desired state issues no calls.
    pub(crate) fn diff(&self, desired: &Vec<Member>) -> (plan: CyclePlan)
        requires
            self.wf(),
            distinct_member_ids(desired@),
        ensures
            plan.to_add@ == spec_to_add(desired@, self.ids()),
            plan.to_remove@ == spec_to_remove(self.members_seq(), member_ids(desired@)),
            self.ids() =~= member_ids(desired@) ==> plan.to_add@.len() == 0
                && plan.to_remove@.len() == 0,
    {
        let mut to_add: Vec<Member> = Vec::new();
        let mut i: usize = 0;
        while i < desired.len()
            invariant
                i <= desired.len(),
                to_add@ == spec_to_add(desired@.subrange(0, i as int), self.ids()),
            decreases desired.len() - i,
        {
            let m = &desired[i];
            let ghost pre = desired@.subrange(0, i as int);
            let ghost post = desired@.subrange(0, i as int + 1);
            proof {
                assert(post.drop_last() =~= pre);
                assert(post.last() == desired@[i as int]);
            }
            if !self.contains_id(&m.identity) {
                to_add.push(m.clone());
            }
            i += 1;
        }
        proof {
            assert(desired@.subrange(0, desired@.len() as int) =~= desired@);
        }
        let mut to_remove: Vec<String> = Vec::new();
        let mut i: usize = 0;
        while i < self.members.len()
            invariant
                i <= self.members.len(),
                to_remove@ == spec_to_remove(
                    self.members@.subrange(0, i as int),
                    member_ids(desired@),
                ),
            decreases self.members.len() - i,
        {
            let id = &self.members[i].identity;
            let ghost pre = self.members@.subrange(0, i as int);
            let ghost post = self.members@.subrange(0, i as int + 1);
            proof {
                assert(post.drop_last() =~= pre);
                assert(post.last() == self.members@[i as int]);
            }
            if !desired_contains_id(desired, id) {
                to_remove.push(id.clone());
            }
            i += 1;
        }
        proof {
            assert(self.members@.subrange(0, self.members@.len() as int) =~= self.members@);
            lemma_to_add_props(desired@, self.ids());
            lemma_to_remove_props(self.members_seq(), member_ids(desired@));
            if self.ids() =~= member_ids(desired@) {
                if to_add@.len() > 0 {
                    assert(member_ids(spec_to_add(desired@, self.ids())).contains(
                        to_add@[0]@.identity,
                    ));
                    assert(false);
                }
                if to_remove@.len() > 0 {
                    let id0 = to_remove@[0]@;
                    assert(string_ids(spec_to_remove(self.members_seq(), member_ids(desired@)))
                        .contains(id0));
                    assert(false);
                }
            }
        }
        CyclePlan { to_add, to_remove }
    }
}

/// Which mutation a report entry describes.
#[derive(Clone, Copy, Debug, PartialEq, Eq, Structural)]
pub enum OpKind {
    Add,
    Remove,
}

/// One mutation call of a cycle: the identity, the operation kind, and
/// how the call came out.
#[derive(Debug)]
pub struct OpReport {
    pub kind: OpKind,
    pub identity: String,
    pub outcome: MutationOutcome,
}

/// What one reconciliation cycle did: whether the fetch failed, and one
/// entry per mutation call, in issue order. Collecting outcomes here
/// keeps control flow free of logging concerns and lets tests assert on
/// a cycle's behaviour.
#[derive(Debug)]
pub struct CycleReport {
    pub fetch_failed: bool,
    pub entries: Vec<OpReport>,
}

/// The report entries of successful additions of these members, in order.
pub open spec fn add_entries(to_add: Seq<Member>) -> Seq<OpReport> {
    to_add.map_values(
        |m: Member|
            OpReport {
                kind: OpKind::Add,
                identity: m.identity,
                outcome: MutationOutcome::Applied,
            },
    )
}

/// The report entries of successful removals of these identities, in order.
pub open spec fn remove_entries(to_remove: Seq<String>) -> Seq<OpReport> {
    to_remove.map_values(
        |id: String|
            OpReport { kind: OpKind::Remove, identity: id, outcome: MutationOutcome::Applied },
    )
}

/// The reconciliation engine: owns the observed-state record, computes
/// deltas between desired and observed membership, and updates the
/// record as mutation outcomes come in. One engine serves one mutation
/// target.
pub struct ReconciliationEngine {
    observed: ObservedState,
}

impl ReconciliationEngine {
    /// The observed records in insertion order.
    pub closed spec fn recorded(self) -> Seq<Member> {
        self.observed.members_seq()
    }

    /// The identities the engine believes it has applied.
    pub open spec fn observed_ids(self) -> Set<Seq<char>> {
        member_ids(self.recorded())
    }

    pub open spec fn wf(self) -> bool {
        distinct_member_ids(self.recorded())
    }

    /// A fresh engine with an empty observed record, as at process start.
    pub fn new() -> (r: ReconciliationEngine)
        ensures
            r.wf(),
            r.observed_ids() =~= Set::<Seq<char>>::empty(),
            r.recorded().len() == 0,
    {
        ReconciliationEngine { observed: ObservedState::new() }
    }

    /// Whether the engine has recorded `id` as applied.
    pub fn observed_contains(&self, id: &String) -> (r: bool)
        ensures
            r == self.observed_ids().contains(id@),
    {
        self.observed.contains_id(id)
    }

    /// Compute one cycle's deltas against the current record.
    pub fn plan(&self, desired: &Vec<Member>) -> (plan: CyclePlan)
        requires
            self.wf(),
            distinct_member_ids(desired@),
        ensures
            plan.to_add@ == spec_to_add(desired@, self.observed_ids()),
            plan.to_remove@ == spec_to_remove(self.recorded(), member_ids(desired@)),
            self.observed_ids() =~= member_ids(desired@) ==> plan.to_add@.len() == 0
                && plan.to_remove@.len() == 0,
    {
        self.observed.diff(desired)
    }

    /// Record the outcome of one addition: on success the identity is
    /// recorded as applied, on any failure the record is left unchanged
    /// so the next cycle's diff plans the addition again.
    pub fn record_add(&mut self, m: &Member, outcome: MutationOutcome)
        requires
            old(self).wf(),
            !old(self).observed_ids().contains(m@.identity),
        ensures
            final(self).wf(),
            outcome is Applied ==> final(self).observed_ids() =~= old(self).observed_ids().insert(
                m@.identity,
            ),
            !(outcome is Applied) ==> *final(self) == *old(self),
    {
        match outcome {
            MutationOutcome::Applied => self.observed.insert(m.clone()),
            MutationOutcome::Unavailable => (),
            MutationOutcome::Rejected => (),
        }
    }

    /// Record the outcome of one removal: on success the identity is no
    /// longer recorded, on any failure the record is left unchanged so
    /// the next cycle's diff plans the removal again.
    pub fn record_remove(&mut self, id: &String, outcome: MutationOutcome)
        requires
            old(self).wf(),
        ensures
            final(self).wf(),
            outcome is Applied ==> final(self).observed_ids() =~= old(self).observed_ids().remove(
                id@,
            ),
            !(outcome is Applied) ==> *final(self) == *old(self),
    {
        match outcome {
            MutationOutcome::Applied => self.observed.remove(id),
            MutationOutcome::Unavailable => (),
            MutationOutcome::Rejected => (),
        }
    }

    /// Run one full reconciliation cycle against a reliable mutation
    /// target: fetch outcome in, report out.
    ///
    /// A failed fetch leaves everything unchanged and issues no calls.
    /// On a successful fetch the record converges to the desired identity
    /// set within this one cycle; the target gains the planned additions
    /// and loses only planned removals, so members the engine never added
    /// are left untouched; and the report lists exactly the planned
    /// additions followed by the planned removals, all successful.
    #[verifier::rlimit(100)]
    pub fn run_cycle(
        &mut self,
        fetch: Result<Vec<Member>, FetchError>,
        target: &mut SimulatedTarget,
    ) -> (r: CycleReport)
        requires
            old(self).wf(),
            old(target).wf(),
            fetch matches Ok(d) ==> distinct_member_ids(d@),
        ensures
            final(self).wf(),
            final(target).wf(),
            r.fetch_failed == (fetch is Err),
            fetch is Err ==> *final(self) == *old(self) && *final(target) == *old(target)
                && r.entries@.len() == 0,
            fetch matches Ok(d) ==> final(self).observed_ids() =~= member_ids(d@),
            fetch matches Ok(d) ==> final(target).ids() =~= old(target).ids().union(
                member_ids(d@).difference(old(self).observed_ids()),
            ).difference(old(self).observed_ids().difference(member_ids(d@))),
            fetch matches Ok(d) ==> forall|id: Seq<char>|
                old(target).ids().contains(id) && !old(self).observed_ids().contains(id)
                    ==> final(target).ids().contains(id),
            fetch matches Ok(d) ==> r.entries@ == add_entries(
                spec_to_add(d@, old(self).observed_ids()),
            ) + remove_entries(spec_to_remove(old(self).recorded(), member_ids(d@))),
            fetch matches Ok(d) ==> (old(self).recorded().len() == 0 ==> forall|i: int|
                0 <= i < r.entries@.len() ==> r.entries@[i].kind is Add),
    {
        match fetch {
            Err(_) => CycleReport { fetch_failed: true, entries: Vec::new() },
            Ok(desired) => {
                let ghost desired0 = desired@;
                let ghost old_obs = self.observed.ids();
                let ghost recorded0 = self.observed.members_seq();
                let ghost old_tgt = target.ids();
                let plan = self.observed.diff(&desired);
                let ghost a = plan.to_add@;
                let ghost rm = plan.to_remove@;
                let mut entries: Vec<OpReport> = Vec::new();
                let mut i: usize = 0;
                while i < plan.to_add.len()
                    invariant
                        i <= a.len(),
                        plan.to_add@ == a,
                        plan.to_remove@ == rm,
                        distinct_member_ids(desired0),
                        a == spec_to_add(desired0, old_obs),
                        self.observed.wf(),
                        target.wf(),
                        self.observed.ids() =~= old_obs.union(
                            member_ids(a.subrange(0, i as int)),
                        ),
                        target.ids() =~= old_tgt.union(member_ids(a.subrange(0, i as int))),
                        entries@ == add_entries(a.subrange(0, i as int)),
                    decreases a.len() - i,
                {
                    let ghost pre = a.subrange(0, i as int);
                    let ghost post = a.subrange(0, i as int + 1);
                    let m = &plan.to_add[i];
                    proof {
                        lemma_to_add_props(desired0, old_obs);
                        assert(post.drop_last() =~= pre);
                        assert(post.last() == a[i as int]);
                        lemma_member_ids_drop_last(post);
                        assert(member_ids(post) =~= member_ids(pre).insert(m@.identity));
                        assert(!old_obs.contains(m@.identity));
                        if member_ids(pre).contains(m@.identity) {
                            let k = choose|k: int| 0 <= k < pre.len() && pre[k]@.identity
                                == m@.identity;
                            assert(a[k]@.identity == a[i as int]@.identity);
                            assert(false);
                        }
                        assert(!self.observed.ids().contains(m@.identity));
                    }
                    let outcome = target.add_member(m);
                    if outcome.is_success() {
                        self.observed.insert(m.clone());
                    }
                    entries.push(
                        OpReport { kind: OpKind::Add, identity: m.identity.clone(), outcome },
                    );
                    proof {
                        assert(self.observed.ids() =~= old_obs.union(member_ids(post)));
                        assert(target.ids() =~= old_tgt.union(member_ids(post)));
                        assert(entries@ =~= add_entries(post)) by {
                            assert(add_entries(post) =~= add_entries(pre).push(
                                OpReport {
                                    kind: OpKind::Add,
                                    identity: a[i as int].identity,
                                    outcome: MutationOutcome::Applied,
                                },
                            ));
                        }
                    }
                    i += 1;
                }
                proof {
                    assert(a.subrange(0, a.len() as int) =~= a);
                }
                let ghost mid_obs = self.observed.ids();
                let ghost mid_tgt = target.ids();
                let mut i: usize = 0;
                while i < plan.to_remove.len()
                    invariant
                        i <= rm.len(),
                        plan.to_remove@ == rm,
                        self.observed.wf(),
                        target.wf(),
                        mid_obs =~= old_obs.union(member_ids(a)),
                        mid_tgt =~= old_tgt.union(member_ids(a)),
                        self.observed.ids() =~= mid_obs.difference(
                            string_ids(rm.subrange(0, i as int)),
                        ),
                        target.ids() =~= mid_tgt.difference(string_ids(rm.subrange(0, i as int))),
                        entries@ == add_entries(a) + remove_entries(rm.subrange(0, i as int)),
                    decreases rm.len() - i,
                {
                    let ghost pre = rm.subrange(0, i as int);
                    let ghost post = rm.subrange(0, i as int + 1);
                    let idstr = &plan.to_remove[i];
                    proof {
                        assert(post.drop_last() =~= pre);
                        assert(post.last() == rm[i as int]);
                        lemma_string_ids_drop_last(post);
                        assert(string_ids(post) =~= string_ids(pre).insert(idstr@));
                    }
                    let outcome = target.remove_member(idstr);
                    if outcome.is_success() {
                        self.observed.remove(idstr);
                    }
                    let ghost prev_entries = entries@;
                    entries.push(
                        OpReport { kind: OpKind::Remove, identity: idstr.clone(), outcome },
                    );
                    proof {
                        assert(self.observed.ids() =~= mid_obs.difference(string_ids(post)));
                        assert(target.ids() =~= mid_tgt.difference(string_ids(post)));
                        assert(entries@ =~= add_entries(a) + remove_entries(post)) by {
                            assert(remove_entries(post) =~= remove_entries(pre).push(
                                OpReport {
                                    kind: OpKind::Remove,
                                    identity: rm[i as int],
                                    outcome: MutationOutcome::Applied,
                                },
                            ));
                            assert(prev_entries.push(
                                OpReport {
                                    kind: OpKind::Remove,
                                    identity: rm[i as int],
                                    outcome: MutationOutcome::Applied,
                                },
                            ) =~= add_entries(a) + remove_entries(post));
                        }
                    }
                    i += 1;
                }
                proof {
                    assert(rm.subrange(0, rm.len() as int) =~= rm);
                    lemma_to_add_props(desired0, old_obs);
                    lemma_to_remove_props(recorded0, member_ids(desired0));
                    assert(member_ids(a) =~= member_ids(desired0).difference(old_obs));
                    assert(string_ids(rm) =~= old_obs.difference(member_ids(desired0)));
                    assert(self.observed.ids() =~= member_ids(desired0));
                    assert(target.ids() =~= old_tgt.union(
                        member_ids(desired0).difference(old_obs),
                    ).difference(old_obs.difference(member_ids(desired0))));
                    if recorded0.len() == 0 {
                        assert(rm == Seq::<String>::empty());
                        assert(entries@ =~= add_entries(a));
                        assert forall|i: int| 0 <= i < entries@.len() implies entries@[i].kind
                            is Add by {
                            assert(entries@[i] == add_entries(a)[i]);
                        }
                    }
                }
                CycleReport { fetch_failed: false, entries }
            },
        }
    }
}

} // verus!
