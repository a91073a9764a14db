//! The static-asset fallback chain: which file a request path may be served
//! from once no explicit route has claimed it.
//!
//! Two mounts exist. The primary mount serves `/assets/*` from its root and
//! has no override: a miss there is final. The secondary mount serves
//! `/assets2/*` from its root and falls back to a configured override file on
//! a miss. Any path that matches neither prefix is tried against the
//! secondary root under its full path — the global fallback, consulted last —
//! with the same override on a miss. A path that climbs out of its root
//! through a `..` segment is rejected outright and resolves to the not-found
//! answer, never to a file outside the root. The chain only decides *which*
//! file to look for; whether it exists on disk is the caller's report, taken
//! here as a plain answer per probe.

use vstd::prelude::*;

use crate::query::idx_of;
use crate::query::find_byte;
use crate::query::bytes_eq;

verus! {

/// The bytes of `..`.
pub open spec fn dotdot() -> Seq<u8> {
    seq![46u8, 46u8]
}

/// Whether no `/`-separated segment of a path is `..`.
pub open spec fn spec_path_safe(p: Seq<u8>) -> bool
    decreases p.len(),
{
    let i = idx_of(p, 47);
    if 0 <= i < p.len() {
        p.take(i) != dotdot() && spec_path_safe(p.skip(i + 1))
    } else {
        p != dotdot()
    }
}

/// Whether a path climbs out of its root: true exactly when some segment is
/// `..`.
pub fn path_is_safe(p: &[u8]) -> (r: bool)
    ensures
        r == spec_path_safe(p@),
{
    let n = p.len();
    let mut dd: Vec<u8> = Vec::new();
    dd.push(46);
    dd.push(46);
    proof {
        assert(dd@ =~= dotdot());
        assert(p@.skip(0) =~= p@);
    }
    let mut pos: usize = 0;
    loop
        invariant
            pos <= n,
            n == p@.len(),
            dd@ == dotdot(),
            spec_path_safe(p@) == spec_path_safe(p@.skip(pos as int)),
        decreases n - pos,
    {
        let ghost rem = p@.skip(pos as int);
        proof {
            assert(forall|k: int| 0 <= k < rem.len() ==> rem[k] == p@[k + pos]);
        }
        let j = find_byte(p, pos, 47);
        let seg = vstd::slice::slice_subrange(p, pos, j);
        proof {
            crate::query::lemma_idx_of(rem, 47);
            assert(seg@ =~= rem.take(j - pos));
        }
        let bad = bytes_eq(seg, dd.as_slice());
        if j == n {
            proof {
                if rem.len() > 0 {
                    assert(idx_of(rem, 47) == rem.len());
                    assert(rem.take(j - pos) =~= rem);
                }
            }
            return !bad;
        }
        if bad {
            return false;
        }
        proof {
            assert(rem.skip(j - pos + 1) =~= p@.skip(j + 1));
        }
        pos = j + 1;
    }
}

/// The bytes of `/assets` and `/assets/`.
pub open spec fn primary_exact() -> Seq<u8> {
    seq![47u8, 97u8, 115u8, 115u8, 101u8, 116u8, 115u8]
}

pub open spec fn primary_prefix() -> Seq<u8> {
    primary_exact().push(47u8)
}

/// The bytes of `/assets2` and `/assets2/`.
pub open spec fn secondary_exact() -> Seq<u8> {
    seq![47u8, 97u8, 115u8, 115u8, 101u8, 116u8, 115u8, 50u8]
}

pub open spec fn secondary_prefix() -> Seq<u8> {
    secondary_exact().push(47u8)
}

pub open spec fn matches_primary(p: Seq<u8>) -> bool {
    p == primary_exact() || (p.len() >= 8 && p.take(8) == primary_prefix())
}

pub open spec fn matches_secondary(p: Seq<u8>) -> bool {
    p == secondary_exact() || (p.len() >= 9 && p.take(9) == secondary_prefix())
}

/// The path relative to the primary root: what follows `/assets/`.
pub open spec fn primary_rel(p: Seq<u8>) -> Seq<u8> {
    if p == primary_exact() {
        Seq::empty()
    } else {
        p.skip(8)
    }
}

/// The path relative to the secondary root: what follows `/assets2/`.
pub open spec fn secondary_rel(p: Seq<u8>) -> Seq<u8> {
    if p == secondary_exact() {
        Seq::empty()
    } else {
        p.skip(9)
    }
}

/// The full path with its leading `/` stripped, for the global fallback.
pub open spec fn fallback_rel(p: Seq<u8>) -> Seq<u8> {
    if p.len() > 0 && p[0] == 47 {
        p.skip(1)
    } else {
        p
    }
}

/// Which lookup an unrouted path earns, in the chain's fixed order.
#[derive(Debug, PartialEq, Eq)]
pub enum StaticPlan {
    /// The path climbs out of its root: nothing is looked up.
    Reject,
    /// Look under the primary root; a miss is final.
    TryPrimary(Vec<u8>),
    /// Look under the secondary root; a miss serves the override file.
    TrySecondary(Vec<u8>),
    /// Look under the secondary root with the full original path; a miss
    /// serves the override file.
    TryFallback(Vec<u8>),
}

/// The one plan a path earns: safety first, then the primary mount, then the
/// secondary mount, and the global fallback only when neither prefix
/// matched.
pub open spec fn plan_matches(p: Seq<u8>, r: StaticPlan) -> bool {
    if !spec_path_safe(p) {
        r is Reject
    } else if matches_primary(p) {
        r matches StaticPlan::TryPrimary(rel) && rel@ == primary_rel(p)
    } else if matches_secondary(p) {
        r matches StaticPlan::TrySecondary(rel) && rel@ == secondary_rel(p)
    } else {
        r matches StaticPlan::TryFallback(rel) && rel@ == fallback_rel(p)
    }
}

fn primary_exact_vec() -> (r: Vec<u8>)
    ensures
        r@ == primary_exact(),
{
    let mut v: Vec<u8> = Vec::new();
    v.push(47);
    v.push(97);
    v.push(115);
    v.push(115);
    v.push(101);
    v.push(116);
    v.push(115);
    proof {
        assert(v@ =~= primary_exact());
    }
    v
}

/// Computes the plan for an unrouted path.
pub fn static_plan(p: &[u8]) -> (r: StaticPlan)
    ensures
        plan_matches(p@, r),
{
    if !path_is_safe(p) {
        return StaticPlan::Reject;
    }
    let n = p.len();
    let mut pe = primary_exact_vec();
    if bytes_eq(p, pe.as_slice()) {
        return StaticPlan::TryPrimary(Vec::new());
    }
    pe.push(47);
    proof {
        assert(pe@ =~= primary_prefix());
    }
    if n >= 8 {
        let head = vstd::slice::slice_subrange(p, 0, 8);
        proof {
            assert(head@ =~= p@.take(8));
        }
        if bytes_eq(head, pe.as_slice()) {
            let rel = vstd::slice::slice_to_vec(vstd::slice::slice_subrange(p, 8, n));
            proof {
                assert(rel@ =~= p@.skip(8));
                assert(p@ != primary_exact());
            }
            return StaticPlan::TryPrimary(rel);
        }
    }
    let mut se = pe;
    se.pop();
    se.push(50);
    proof {
        assert(se@ =~= secondary_exact());
    }
    if bytes_eq(p, se.as_slice()) {
        proof {
            assert(!matches_primary(p@));
        }
        return StaticPlan::TrySecondary(Vec::new());
    }
    se.push(47);
    proof {
        assert(se@ =~= secondary_prefix());
    }
    if n >= 9 {
        let head = vstd::slice::slice_subrange(p, 0, 9);
        proof {
            assert(head@ =~= p@.take(9));
        }
        if bytes_eq(head, se.as_slice()) {
            let rel = vstd::slice::slice_to_vec(vstd::slice::slice_subrange(p, 9, n));
            proof {
                assert(rel@ =~= p@.skip(9));
                assert(p@ != secondary_exact());
                assert(!matches_primary(p@)) by {
                    if p@ == primary_exact() {
                        assert(p@.len() == 7);
                    }
                    if p@.len() >= 8 && p@.take(8) == primary_prefix() {
                        assert(p@.take(8)[7] == 47u8);
                        assert(p@.take(9)[7] == p@[7]);
                        assert(secondary_prefix()[7] == 50u8);
                    }
                }
            }
            return StaticPlan::TrySecondary(rel);
        }
    }
    proof {
        assert(!matches_primary(p@));
        assert(!matches_secondary(p@));
    }
    let rel: Vec<u8> = if n > 0 && p[0] == 47 {
        vstd::slice::slice_to_vec(vstd::slice::slice_subrange(p, 1, n))
    } else {
        vstd::slice::slice_to_vec(vstd::slice::slice_subrange(p, 0, n))
    };
    proof {
        if p@.len() > 0 && p@[0] == 47 {
            assert(rel@ =~= fallback_rel(p@));
        } else {
            assert(p@.subrange(0, n as int) =~= p@);
            assert(rel@ =~= fallback_rel(p@));
        }
    }
    StaticPlan::TryFallback(rel)
}

/// How a lookup ends.
#[derive(Debug, PartialEq, Eq)]
pub enum StaticOutcome {
    /// Serve the named file from the primary root.
    ServePrimary(Vec<u8>),
    /// Serve the named file from the secondary root.
    ServeSecondary(Vec<u8>),
    /// Serve the secondary mount's override file.
    ServeOverride,
    /// Nothing to serve: answer the fixed not-found response.
    NotFound,
}

/// Resolves a plan against the disk's answers: `target_exists` reports the
/// probe for the plan's own file, `override_exists` the probe for the
/// override file. The primary mount never consults the override; the
/// secondary mount and the global fallback do, and only on a miss.
pub fn static_outcome(plan: StaticPlan, target_exists: bool, override_exists: bool) -> (r:
    StaticOutcome)
    ensures
        plan is Reject ==> r is NotFound,
        plan matches StaticPlan::TryPrimary(rel) ==> (if target_exists {
            r matches StaticOutcome::ServePrimary(f) && f@ == rel@
        } else {
            r is NotFound
        }),
        plan matches StaticPlan::TrySecondary(rel) ==> (if target_exists {
            r matches StaticOutcome::ServeSecondary(f) && f@ == rel@
        } else if override_exists {
            r is ServeOverride
        } else {
            r is NotFound
        }),
        plan matches StaticPlan::TryFallback(rel) ==> (if target_exists {
            r matches StaticOutcome::ServeSecondary(f) && f@ == rel@
        } else if override_exists {
            r is ServeOverride
        } else {
            r is NotFound
        }),
{
    match plan {
        StaticPlan::Reject => StaticOutcome::NotFound,
        StaticPlan::TryPrimary(rel) => {
            if target_exists {
                StaticOutcome::ServePrimary(rel)
            } else {
                StaticOutcome::NotFound
            }
        },
        StaticPlan::TrySecondary(rel) => {
            if target_exists {
                StaticOutcome::ServeSecondary(rel)
            } else if override_exists {
                StaticOutcome::ServeOverride
            } else {
                StaticOutcome::NotFound
            }
        },
        StaticPlan::TryFallback(rel) => {
            if target_exists {
                StaticOutcome::ServeSecondary(rel)
            } else if override_exists {
                StaticOutcome::ServeOverride
            } else {
                StaticOutcome::NotFound
            }
        },
    }
}

/// Law: a miss on the primary mount is final — whatever the disk says of the
/// override file, a primary plan never resolves to it.
pub proof fn lemma_primary_never_overrides(p: Seq<u8>, r: StaticPlan)
    requires
        plan_matches(p, r),
        spec_path_safe(p),
        matches_primary(p),
    ensures
        r is TryPrimary,
{
}

/// Law: the global fallback is consulted only when no mount prefix matched.
pub proof fn lemma_fallback_is_last(p: Seq<u8>, r: StaticPlan)
    requires
        plan_matches(p, r),
        r is TryFallback,
    ensures
        !matches_primary(p) && !matches_secondary(p),
        spec_path_safe(p),
{
}

} // verus!
