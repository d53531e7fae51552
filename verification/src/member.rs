use vstd::prelude::*;

verus! {

/// Mathematical image of a [`Member`]: the identity together with the
/// optional attributes, all as plain spec values.
pub struct MemberView {
    pub identity: Seq<char>,
    pub tier: Option<u32>,
    pub label: Option<Seq<char>>,
}

/// An entity entitled to proxy access. Equality for diffing is by
/// `identity` alone; `tier` and `label` are attributes carried through
/// to the mutation payload.
pub struct Member {
    /// Stable, opaque, unique identity (an account identifier).
    pub identity: String,
    /// Access tier; feeds the payload's level field, absent means level zero.
    pub tier: Option<u32>,
    /// Display label; not part of the mutation payload.
    pub label: Option<String>,
}

impl View for Member {
    type V = MemberView;

    open spec fn view(&self) -> MemberView {
        MemberView {
            identity: self.identity@,
            tier: self.tier,
            label: match self.label {
                Some(l) => Some(l@),
                None => None,
            },
        }
    }
}

impl Clone for Member {
    fn clone(&self) -> (r: Self)
        ensures
            r == *self,
    {
        Member {
            identity: self.identity.clone(),
            tier: self.tier,
            label: match &self.label {
                Some(l) => Some(l.clone()),
                None => None,
            },
        }
    }
}

impl Member {
    /// A member that carries nothing but its identity.
    pub fn from_identity(identity: String) -> (r: Member)
        ensures
            r@.identity == identity@,
            r@.tier is None,
            r@.label is None,
    {
        Member { identity, tier: None, label: None }
    }

    /// The level sent to the mutation target: the tier, or zero when absent.
    pub open spec fn spec_level(self) -> u32 {
        match self.tier {
            Some(t) => t,
            None => 0,
        }
    }

    pub fn level(&self) -> (r: u32)
        ensures
            r == self.spec_level(),
    {
        match self.tier {
            Some(t) => t,
            None => 0,
        }
    }
}

} // verus!
