use vstd::prelude::*;

use crate::engine::{distinct_member_ids, lemma_string_ids_drop_last, member_ids, string_ids};
use crate::member::Member;

verus! {

/// Why a desired-state fetch yielded no usable data: the read call could
/// not be made, answered with a non-success status, or its body did not
/// decode. Any of these makes the cycle a no-op for diffing purposes.
pub enum FetchError {
    Transport,
    Status(u16),
    Decode,
}

/// The statuses the read contract counts as success.
pub open spec fn spec_is_success_status(code: u16) -> bool {
    200 <= code < 300
}

/// Classify the status of a desired-state response: any non-success
/// status is a fetch error carrying that status.
pub fn check_fetch_status(code: u16) -> (r: Result<(), FetchError>)
    ensures
        r is Ok <==> spec_is_success_status(code),
        !spec_is_success_status(code) ==> (r matches Err(e) && e == FetchError::Status(code)),
{
    if 200 <= code && code < 300 {
        Ok(())
    } else {
        Err(FetchError::Status(code))
    }
}

/// Whether the shared secret presented with a read request matches the
/// expected one. A missing header counts as an empty presented secret,
/// so it passes only when the expected secret is itself empty.
pub fn authorize(presented: Option<&String>, expected: &String) -> (r: bool)
    ensures
        r == (match presented {
            Some(p) => p@ == expected@,
            None => expected@.len() == 0,
        }),
{
    match presented {
        Some(p) => *p == *expected,
        None => expected.as_str().is_empty(),
    }
}

/// The identity list with later repetitions of an identity dropped,
/// keeping first occurrences in order.
pub open spec fn dedup_identities(s: Seq<String>) -> Seq<String>
    decreases s.len(),
{
    if s.len() == 0 {
        Seq::empty()
    } else {
        let rest = dedup_identities(s.drop_last());
        if string_ids(s.drop_last()).contains(s.last()@) {
            rest
        } else {
            rest.push(s.last())
        }
    }
}

/// Deduplication keeps the identity set and leaves no repetitions.
pub proof fn lemma_dedup_identities_props(s: Seq<String>)
    ensures
        crate::engine::distinct_strings(dedup_identities(s)),
        string_ids(dedup_identities(s)) =~= string_ids(s),
    decreases s.len(),
{
    let r = dedup_identities(s);
    if s.len() == 0 {
        assert(string_ids(r) =~= string_ids(s)) by {
            assert forall|id: Seq<char>| !string_ids(r).contains(id) by {}
            assert forall|id: Seq<char>| !string_ids(s).contains(id) by {}
        }
    } else {
        let d = s.drop_last();
        let rest = dedup_identities(d);
        lemma_dedup_identities_props(d);
        lemma_string_ids_drop_last(s);
        if string_ids(d).contains(s.last()@) {
            assert(r == rest);
            assert(string_ids(s) =~= string_ids(d).insert(s.last()@));
            assert(string_ids(rest) =~= string_ids(d));
            assert(string_ids(r) =~= string_ids(s));
        } else {
            assert(r == rest.push(s.last()));
            lemma_string_ids_drop_last(r);
            assert(r.drop_last() =~= rest);
            assert(string_ids(r) =~= string_ids(rest).insert(s.last()@));
            assert(string_ids(r) =~= string_ids(s));
            assert(!string_ids(rest).contains(s.last()@));
            assert forall|i: int, j: int| 0 <= i < j < r.len() implies r[i]@ != r[j]@ by {
                if j < r.len() - 1 {
                    assert(rest[i]@ != rest[j]@);
                } else {
                    assert(r[i] == rest[i]);
                    if r[i]@ == s.last()@ {
                        assert(string_ids(rest).contains(s.last()@));
                    }
                }
            }
        }
    }
}

/// Whether some string of `v` reads `id`.
pub(crate) fn string_vec_contains(v: &Vec<String>, id: &String) -> (r: bool)
    ensures
        r == string_ids(v@).contains(id@),
{
    let mut i: usize = 0;
    while i < v.len()
        invariant
            i <= v.len(),
            forall|k: int| 0 <= k < i ==> v@[k]@ != id@,
        decreases v.len() - i,
    {
        if v[i] == *id {
            proof {
                assert(v@[i as int]@ == id@);
            }
            return true;
        }
        i += 1;
    }
    false
}

/// Turn a fetched identity list into the desired member set: repeated
/// identities collapse to their first occurrence, and each member
/// carries the identity alone, as the read contract's body does.
pub fn desired_from_identities(uuids: &Vec<String>) -> (r: Vec<Member>)
    ensures
        distinct_member_ids(r@),
        member_ids(r@) =~= string_ids(uuids@),
        r@.len() == dedup_identities(uuids@).len(),
        forall|j: int| 0 <= j < r@.len() ==> r@[j]@.identity == dedup_identities(uuids@)[j]@
            && r@[j]@.tier is None && r@[j]@.label is None,
{
    let mut kept: Vec<String> = Vec::new();
    let mut i: usize = 0;
    while i < uuids.len()
        invariant
            i <= uuids.len(),
            kept@ == dedup_identities(uuids@.subrange(0, i as int)),
            string_ids(kept@) =~= string_ids(uuids@.subrange(0, i as int)),
        decreases uuids.len() - i,
    {
        let ghost pre = uuids@.subrange(0, i as int);
        let ghost post = uuids@.subrange(0, i as int + 1);
        proof {
            assert(post.drop_last() =~= pre);
            assert(post.last() == uuids@[i as int]);
        }
        if !string_vec_contains(&kept, &uuids[i]) {
            kept.push(uuids[i].clone());
        }
        proof {
            lemma_dedup_identities_props(post);
            assert(kept@ == dedup_identities(post));
            assert(string_ids(kept@) =~= string_ids(post));
        }
        i += 1;
    }
    proof {
        assert(uuids@.subrange(0, uuids@.len() as int) =~= uuids@);
    }
    let ghost deduped = kept@;
    let mut out: Vec<Member> = Vec::new();
    let mut i: usize = 0;
    while i < kept.len()
        invariant
            i <= kept.len(),
            kept@ == deduped,
            out@.len() == i,
            forall|j: int| 0 <= j < i ==> out@[j]@.identity == deduped[j]@ && out@[j]@.tier
                is None && out@[j]@.label is None,
        decreases kept.len() - i,
    {
        out.push(Member::from_identity(kept[i].clone()));
        i += 1;
    }
    proof {
        lemma_dedup_identities_props(uuids@);
        assert(distinct_member_ids(out@)) by {
            assert forall|a: int, b: int| 0 <= a < b < out@.len() implies out@[a]@.identity
                != out@[b]@.identity by {
                assert(deduped[a]@ != deduped[b]@);
            }
        }
        assert forall|id: Seq<char>|
            member_ids(out@).contains(id) == string_ids(uuids@).contains(id) by {
            if member_ids(out@).contains(id) {
                let k = choose|k: int| 0 <= k < out@.len() && out@[k]@.identity == id;
                assert(deduped[k]@ == id);
                assert(string_ids(deduped).contains(id));
            }
            if string_ids(uuids@).contains(id) {
                assert(string_ids(deduped).contains(id));
                let k = choose|k: int| 0 <= k < deduped.len() && deduped[k]@ == id;
                assert(out@[k]@.identity == id);
            }
        }
    }
    out
}

} // verus!
