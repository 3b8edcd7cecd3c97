//! Secret requirements declared by packs.
//!
//! Every pack may declare secrets it needs.  A tenant's aggregated list is
//! deduplicated by a key made of the requirement's scope and secret key, so
//! that the same requirement declared by several packs appears once.

use vstd::prelude::*;
use crate::text::str_eq;

verus! {

/// The scope a secret requirement applies to.
#[derive(Debug)]
pub struct SecretScope {
    pub env: String,
    pub tenant: String,
    pub team: Option<String>,
}

/// One secret a pack declares that it needs.
#[derive(Debug)]
pub struct SecretRequirement {
    pub key: String,
    pub scope: Option<SecretScope>,
    pub description: Option<String>,
}

pub(crate) fn clone_opt_string(s: &Option<String>) -> (r: Option<String>)
    ensures
        r == *s,
{
    match s {
        Some(v) => Some(v.clone()),
        None => None,
    }
}

impl Clone for SecretScope {
    fn clone(&self) -> (res: Self)
        ensures
            res == *self,
    {
        SecretScope {
            env: self.env.clone(),
            tenant: self.tenant.clone(),
            team: clone_opt_string(&self.team),
        }
    }
}

impl Clone for SecretRequirement {
    fn clone(&self) -> (res: Self)
        ensures
            res == *self,
    {
        let scope = match &self.scope {
            Some(s) => Some(s.clone()),
            None => None,
        };
        SecretRequirement { key: self.key.clone(), scope, description: clone_opt_string(&self.description) }
    }
}

/// A copy of a requirement list, element for element.
pub fn clone_requirements(v: &Vec<SecretRequirement>) -> (r: Vec<SecretRequirement>)
    ensures
        r@ == v@,
{
    let n = v.len();
    let mut out: Vec<SecretRequirement> = Vec::new();
    let mut i: usize = 0;
    while i < n
        invariant
            i <= n,
            n == v@.len(),
            out@ =~= v@.subrange(0, i as int),
        decreases n - i,
    {
        out.push(v[i].clone());
        i += 1;
    }
    proof {
        assert(v@.subrange(0, n as int) =~= v@);
    }
    out
}

/// Append a copy of `src` to `dst`.
pub fn append_requirements(dst: &mut Vec<SecretRequirement>, src: &Vec<SecretRequirement>)
    ensures
        final(dst)@ == old(dst)@ + src@,
{
    let n = src.len();
    let mut i: usize = 0;
    while i < n
        invariant
            i <= n,
            n == src@.len(),
            dst@ =~= old(dst)@ + src@.subrange(0, i as int),
        decreases n - i,
    {
        dst.push(src[i].clone());
        i += 1;
    }
    proof {
        assert(old(dst)@ + src@.subrange(0, n as int) =~= old(dst)@ + src@);
    }
}

/// The dedup key of a requirement: `env/tenant/team` (with `_` for a missing
/// team, `_/_/_` for a missing scope), then `::`, then the secret key.
pub open spec fn requirement_key_spec(req: SecretRequirement) -> Seq<char> {
    (match req.scope {
        Some(s) => s.env@ + "/"@ + s.tenant@ + "/"@ + (match s.team {
            Some(t) => t@,
            None => "_"@,
        }),
        None => "_/_/_"@,
    }) + "::"@ + req.key@
}

/// The dedup key of a requirement.
pub fn requirement_key(req: &SecretRequirement) -> (r: String)
    ensures
        r@ == requirement_key_spec(*req),
{
    let mut out = String::new();
    match &req.scope {
        Some(s) => {
            out.append(s.env.as_str());
            out.append("/");
            out.append(s.tenant.as_str());
            out.append("/");
            match &s.team {
                Some(t) => out.append(t.as_str()),
                None => out.append("_"),
            }
        },
        None => {
            out.append("_/_/_");
        },
    }
    out.append("::");
    out.append(req.key.as_str());
    proof {
        assert(out@ =~= requirement_key_spec(*req));
    }
    out
}

/// Some requirement among the first `upto` has this dedup key.
pub open spec fn key_seen(reqs: Seq<SecretRequirement>, upto: int, key: Seq<char>) -> bool {
    exists|j: int| 0 <= j < upto && requirement_key_spec(reqs[j]) == key
}

/// The input with every requirement dropped whose dedup key already occurred
/// earlier in the list; first occurrences survive in order.
pub open spec fn dedup_spec(reqs: Seq<SecretRequirement>) -> Seq<SecretRequirement>
    decreases reqs.len(),
{
    if reqs.len() == 0 {
        Seq::empty()
    } else {
        let rest = dedup_spec(reqs.drop_last());
        if key_seen(reqs, reqs.len() - 1, requirement_key_spec(reqs.last())) {
            rest
        } else {
            rest.push(reqs.last())
        }
    }
}

/// Some requirement in `s` has this dedup key.
pub open spec fn has_key(s: Seq<SecretRequirement>, key: Seq<char>) -> bool {
    exists|e: int| 0 <= e < s.len() && requirement_key_spec(s[e]) == key
}

/// Deduplication keeps exactly the set of dedup keys of its input.
pub proof fn lemma_dedup_keys(reqs: Seq<SecretRequirement>)
    ensures
        forall|k: Seq<char>| #[trigger] has_key(dedup_spec(reqs), k) == has_key(reqs, k),
    decreases reqs.len(),
{
    if reqs.len() > 0 {
        lemma_dedup_keys(reqs.drop_last());
        let rest = dedup_spec(reqs.drop_last());
        let lastk = requirement_key_spec(reqs.last());
        assert forall|k: Seq<char>| #[trigger] has_key(dedup_spec(reqs), k) implies has_key(
            reqs,
            k,
        ) by {
            let e = choose|e: int|
                0 <= e < dedup_spec(reqs).len() && requirement_key_spec(dedup_spec(reqs)[e]) == k;
            if key_seen(reqs, reqs.len() - 1, lastk) {
                assert(has_key(rest, k));
            } else {
                if e < rest.len() {
                    assert(has_key(rest, k));
                } else {
                    assert(requirement_key_spec(reqs.last()) == k);
                    assert(requirement_key_spec(reqs[reqs.len() - 1]) == k);
                }
            }
            if has_key(reqs.drop_last(), k) {
                let j = choose|j: int|
                    0 <= j < reqs.drop_last().len() && requirement_key_spec(reqs.drop_last()[j])
                        == k;
                assert(requirement_key_spec(reqs[j]) == k);
            }
        }
        assert forall|k: Seq<char>| has_key(reqs, k) implies #[trigger] has_key(
            dedup_spec(reqs),
            k,
        ) by {
            let j = choose|j: int| 0 <= j < reqs.len() && requirement_key_spec(reqs[j]) == k;
            if j < reqs.len() - 1 {
                assert(requirement_key_spec(reqs.drop_last()[j]) == k);
                assert(has_key(reqs.drop_last(), k));
                assert(has_key(rest, k));
                if key_seen(reqs, reqs.len() - 1, lastk) {
                    assert(dedup_spec(reqs) == rest);
                } else {
                    let e = choose|e: int|
                        0 <= e < rest.len() && requirement_key_spec(rest[e]) == k;
                    assert(requirement_key_spec(dedup_spec(reqs)[e]) == k);
                }
            } else {
                // k is the key of the last requirement
                if key_seen(reqs, reqs.len() - 1, lastk) {
                    let j2 = choose|j2: int|
                        0 <= j2 < reqs.len() - 1 && requirement_key_spec(reqs[j2]) == lastk;
                    assert(requirement_key_spec(reqs.drop_last()[j2]) == lastk);
                    assert(has_key(reqs.drop_last(), lastk));
                    assert(has_key(rest, lastk));
                    let e = choose|e: int|
                        0 <= e < rest.len() && requirement_key_spec(rest[e]) == lastk;
                    assert(requirement_key_spec(dedup_spec(reqs)[e]) == k);
                } else {
                    assert(requirement_key_spec(dedup_spec(reqs).last()) == k);
                }
            }
        }
    }
}

fn contains_requirement_key(v: &Vec<SecretRequirement>, key: &str) -> (r: bool)
    ensures
        r == has_key(v@, key@),
{
    let n = v.len();
    let mut i: usize = 0;
    while i < n
        invariant
            i <= n,
            n == v@.len(),
            forall|e: int| 0 <= e < i ==> requirement_key_spec(v@[e]) != key@,
        decreases n - i,
    {
        let k = requirement_key(&v[i]);
        if str_eq(k.as_str(), key) {
            return true;
        }
        i += 1;
    }
    false
}

/// Drop every requirement whose dedup key already occurred earlier in the
/// list, keeping first occurrences in their order.
pub fn dedup_requirements(requirements: Vec<SecretRequirement>) -> (r: Vec<SecretRequirement>)
    ensures
        r@ == dedup_spec(requirements@),
{
    let n = requirements.len();
    let mut out: Vec<SecretRequirement> = Vec::new();
    let mut i: usize = 0;
    while i < n
        invariant
            i <= n,
            n == requirements@.len(),
            out@ == dedup_spec(requirements@.subrange(0, i as int)),
        decreases n - i,
    {
        let key = requirement_key(&requirements[i]);
        let dup = contains_requirement_key(&out, key.as_str());
        proof {
            let done = requirements@.subrange(0, i as int);
            let pre = requirements@.subrange(0, i + 1);
            assert(pre.drop_last() =~= done);
            assert(pre.last() == requirements@[i as int]);
            lemma_dedup_keys(done);
            assert(dup == key_seen(pre, i as int, requirement_key_spec(pre.last()))) by {
                assert(has_key(out@, key@) == has_key(done, key@));
                if has_key(done, key@) {
                    let j = choose|j: int|
                        0 <= j < done.len() && requirement_key_spec(done[j]) == key@;
                    assert(requirement_key_spec(pre[j]) == key@);
                }
                if key_seen(pre, i as int, requirement_key_spec(pre.last())) {
                    let j = choose|j: int|
                        0 <= j < i && requirement_key_spec(pre[j]) == requirement_key_spec(
                            pre.last(),
                        );
                    assert(requirement_key_spec(done[j]) == key@);
                    assert(has_key(done, key@));
                }
            }
        }
        if !dup {
            out.push(requirements[i].clone());
        }
        i += 1;
    }
    proof {
        assert(requirements@.subrange(0, n as int) =~= requirements@);
    }
    out
}

} // verus!
