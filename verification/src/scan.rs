//! From range bounds to the scan an ordered engine can run.
//!
//! An engine's iterator takes a direction, a key to start at (inclusive), a floor
//! (inclusive) and a ceiling (exclusive). A caller's range has a lower and an
//! upper bound, each inclusive, exclusive or absent. This module turns the
//! second into the first, on encoded keys.

use crate::keys::{advance_key, advanced, extends, lex_le, lex_lt, retreat_key, retreated};
use crate::keys::{advance_skips_only_extensions, retreat_skips_only_extensions};
use std::ops::Bound;
use vstd::prelude::*;

verus! {

#[verifier::external_type_specification]
#[verifier::reject_recursive_types(T)]
pub struct ExBound<T>(Bound<T>);

/// The way a scan walks the keys.
#[derive(Clone, Copy, Debug, PartialEq, Eq, Structural)]
pub enum Direction {
    /// Ascending byte order.
    Forward,
    /// Descending byte order.
    Reverse,
}

/// A range that no backward scan can serve.
#[derive(Clone, Copy, Debug, PartialEq, Eq, Structural)]
pub enum RangeError {
    /// The lower bound is exclusive: a backward scan has an inclusive floor only.
    ExcludedLowerBound,
    /// The upper bound is exclusive and its key is empty: no key lies below it.
    EmptyUpperBound,
}

/// A scan in the engine's own terms.
#[derive(Debug)]
pub struct ScanPlan {
    /// The way to walk.
    pub direction: Direction,
    /// The key to start at: the first key at or after it going forward, the last
    /// key at or before it going backward. Without one the scan starts at the
    /// first key going forward and at the last key going backward.
    pub start: Option<Vec<u8>>,
    /// The floor: no key before it is visited.
    pub lower: Option<Vec<u8>>,
    /// The ceiling: neither it nor any key after it is visited.
    pub upper: Option<Vec<u8>>,
}

/// The key of an optional bound, as a byte string.
pub open spec fn key_of(k: Option<Vec<u8>>) -> Option<Seq<u8>> {
    match k {
        Some(v) => Some(v@),
        None => None,
    }
}

/// A range bound on byte strings.
pub open spec fn bound_view(b: Bound<Vec<u8>>) -> Bound<Seq<u8>> {
    match b {
        Bound::Included(k) => Bound::Included(k@),
        Bound::Excluded(k) => Bound::Excluded(k@),
        Bound::Unbounded => Bound::Unbounded,
    }
}

/// `key` lies in the range from `start` to `end`, in byte order.
pub open spec fn in_range(start: Bound<Seq<u8>>, end: Bound<Seq<u8>>, key: Seq<u8>) -> bool {
    &&& match start {
        Bound::Included(a) => lex_le(a, key),
        Bound::Excluded(a) => lex_lt(a, key),
        Bound::Unbounded => true,
    }
    &&& match end {
        Bound::Included(b) => lex_le(key, b),
        Bound::Excluded(b) => lex_lt(key, b),
        Bound::Unbounded => true,
    }
}

impl ScanPlan {
    /// The scan visits `key`, if the table holds it.
    pub open spec fn admits(&self, key: Seq<u8>) -> bool {
        &&& match self.start {
            Some(s) => if self.direction == Direction::Forward {
                lex_le(s@, key)
            } else {
                lex_le(key, s@)
            },
            None => true,
        }
        &&& match self.lower {
            Some(l) => lex_le(l@, key),
            None => true,
        }
        &&& match self.upper {
            Some(u) => lex_lt(key, u@),
            None => true,
        }
    }
}

/// The start key of a forward scan with the lower bound `start`.
pub open spec fn forward_start(start: Bound<Seq<u8>>) -> Option<Seq<u8>> {
    match start {
        Bound::Included(k) => Some(k),
        Bound::Excluded(k) => Some(advanced(k)),
        Bound::Unbounded => None,
    }
}

/// The ceiling of a forward scan with the upper bound `end`.
pub open spec fn forward_ceiling(end: Bound<Seq<u8>>) -> Option<Seq<u8>> {
    match end {
        Bound::Included(k) => Some(advanced(k)),
        Bound::Excluded(k) => Some(k),
        Bound::Unbounded => None,
    }
}

/// The floor of a backward scan with the lower bound `start`.
pub open spec fn reverse_floor(start: Bound<Seq<u8>>) -> Option<Seq<u8>> {
    match start {
        Bound::Included(k) => Some(k),
        _ => None,
    }
}

/// The start key of a backward scan with the upper bound `end`.
pub open spec fn reverse_start(end: Bound<Seq<u8>>) -> Option<Seq<u8>> {
    match end {
        Bound::Included(k) => Some(k),
        Bound::Excluded(k) => Some(retreated(k)),
        Bound::Unbounded => None,
    }
}

/// Why no backward scan serves the range from `start` to `end`, if none does.
pub open spec fn reverse_refusal(start: Bound<Seq<u8>>, end: Bound<Seq<u8>>) -> Option<
    RangeError,
> {
    if start is Excluded {
        Some(RangeError::ExcludedLowerBound)
    } else if end matches Bound::Excluded(k) && k.len() == 0 {
        Some(RangeError::EmptyUpperBound)
    } else {
        None
    }
}

/// `plan` is the forward scan for the range from `start` to `end`.
pub open spec fn forward_of(plan: ScanPlan, start: Bound<Seq<u8>>, end: Bound<Seq<u8>>) -> bool {
    &&& plan.direction == Direction::Forward
    &&& key_of(plan.start) == forward_start(start)
    &&& plan.lower is None
    &&& key_of(plan.upper) == forward_ceiling(end)
}

/// `plan` is the backward scan for the range from `start` to `end`, which is one
/// that a backward scan can serve.
pub open spec fn reverse_of(plan: ScanPlan, start: Bound<Seq<u8>>, end: Bound<Seq<u8>>) -> bool {
    &&& reverse_refusal(start, end) is None
    &&& plan.direction == Direction::Reverse
    &&& key_of(plan.start) == reverse_start(end)
    &&& key_of(plan.lower) == reverse_floor(start)
    &&& plan.upper is None
}

/// The forward scan for the range from `start` to `end`.
///
/// An inclusive lower bound is the start key as it is, an exclusive one moved
/// up; an exclusive upper bound is the ceiling as it is, an inclusive one moved
/// up.
pub fn forward_plan(start: Bound<Vec<u8>>, end: Bound<Vec<u8>>) -> (plan: ScanPlan)
    ensures
        forward_of(plan, bound_view(start), bound_view(end)),
{
    let upper = match end {
        Bound::Included(k) => {
            let mut v = k;
            advance_key(&mut v);
            Some(v)
        },
        Bound::Excluded(k) => Some(k),
        Bound::Unbounded => None,
    };
    let first = match start {
        Bound::Included(k) => Some(k),
        Bound::Excluded(k) => {
            let mut v = k;
            advance_key(&mut v);
            Some(v)
        },
        Bound::Unbounded => None,
    };
    ScanPlan { direction: Direction::Forward, start: first, lower: None, upper }
}

/// The backward scan for the range from `start` to `end`, or why there is none.
///
/// An inclusive lower bound is the floor; an exclusive one is refused. An
/// inclusive upper bound is the start key as it is, an exclusive one moved
/// down; an exclusive upper bound with an empty key is refused.
pub fn reverse_plan(start: Bound<Vec<u8>>, end: Bound<Vec<u8>>) -> (r: Result<ScanPlan, RangeError>)
    ensures
        match r {
            Ok(plan) => reverse_of(plan, bound_view(start), bound_view(end)),
            Err(e) => reverse_refusal(bound_view(start), bound_view(end)) == Some(e),
        },
{
    let lower = match start {
        Bound::Included(k) => Some(k),
        Bound::Excluded(_) => {
            return Err(RangeError::ExcludedLowerBound);
        },
        Bound::Unbounded => None,
    };
    let last = match end {
        Bound::Included(k) => Some(k),
        Bound::Excluded(k) => {
            let mut v = k;
            if v.len() == 0 {
                return Err(RangeError::EmptyUpperBound);
            }
            retreat_key(&mut v);
            Some(v)
        },
        Bound::Unbounded => None,
    };
    Ok(ScanPlan { direction: Direction::Reverse, start: last, lower, upper: None })
}


/// Range containment, forward: the scan that `forward_plan` gives visits exactly
/// the keys of the range, among all keys as long as the bounds. (Of longer keys
/// it leaves out those that begin with an exclusive lower bound, and takes in
/// those that begin with an inclusive upper bound, where the last byte of that
/// bound could be raised.)
pub proof fn forward_plan_covers_range(
    plan: ScanPlan,
    start: Bound<Seq<u8>>,
    end: Bound<Seq<u8>>,
    key: Seq<u8>,
)
    requires
        forward_of(plan, start, end),
        start matches Bound::Excluded(a) ==> a.len() == key.len() || !extends(key, a),
        end matches Bound::Included(b) ==> b.len() == key.len() || !extends(key, b),
    ensures
        plan.admits(key) <==> in_range(start, end, key),
{
    match start {
        Bound::Excluded(a) => {
            advance_skips_only_extensions(a, key);
        },
        _ => {},
    }
    match end {
        Bound::Included(b) => {
            advance_skips_only_extensions(b, key);
        },
        _ => {},
    }
}

/// Range containment, backward: the scan that `reverse_plan` gives visits
/// exactly the keys of the range, among all keys as long as the bounds. (Of
/// longer keys it leaves out those that begin with what an exclusive upper
/// bound becomes when its last byte is lowered.)
pub proof fn reverse_plan_covers_range(
    plan: ScanPlan,
    start: Bound<Seq<u8>>,
    end: Bound<Seq<u8>>,
    key: Seq<u8>,
)
    requires
        reverse_of(plan, start, end),
        end matches Bound::Excluded(b) ==> b.len() == key.len() || !extends(key, retreated(b)),
    ensures
        plan.admits(key) <==> in_range(start, end, key),
{
    match end {
        Bound::Excluded(b) => {
            retreat_skips_only_extensions(b, key);
        },
        _ => {},
    }
}

} // verus!
