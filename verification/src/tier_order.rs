//! The order of the trust dial: tiers compare as their ranks do.

use crate::config::{tier_rank, TrustTier};
use std::cmp::Ordering;
use vstd::prelude::*;
use vstd::std_specs::cmp::PartialOrdIs;
use vstd::std_specs::cmp::PartialOrdSpecImpl;

verus! {

/// How two tiers compare: by where they sit on the dial.
pub open spec fn tier_order(a: TrustTier, b: TrustTier) -> Ordering {
    if tier_rank(a) < tier_rank(b) {
        Ordering::Less
    } else if tier_rank(a) == tier_rank(b) {
        Ordering::Equal
    } else {
        Ordering::Greater
    }
}

impl PartialOrd for TrustTier {
    fn partial_cmp(&self, other: &Self) -> (r: Option<Ordering>) {
        let a = self.rank();
        let b = other.rank();
        if a < b {
            Some(Ordering::Less)
        } else if a == b {
            Some(Ordering::Equal)
        } else {
            Some(Ordering::Greater)
        }
    }
}

impl PartialOrdSpecImpl for TrustTier {
    open spec fn obeys_partial_cmp_spec() -> bool {
        true
    }

    open spec fn partial_cmp_spec(&self, other: &Self) -> Option<Ordering> {
        Some(tier_order(*self, *other))
    }
}

/// A tier is below another exactly when its rank is, and at most another
/// exactly when its rank is: the dial reads the way it is labelled.
pub proof fn lemma_tier_order_is_rank(a: TrustTier, b: TrustTier)
    ensures
        a.is_lt(&b) <==> tier_rank(a) < tier_rank(b),
        a.is_le(&b) <==> tier_rank(a) <= tier_rank(b),
        a.is_le(&b) && b.is_le(&a) <==> a == b,
{
}

} // verus!
