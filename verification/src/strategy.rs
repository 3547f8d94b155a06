//! Version orderings: a comparison of two version texts says which of them
//! is the newer one. Any function from two texts to an `Ordering` will do;
//! the default one ranks versions by their tags.

use std::cmp::Ordering;
use vstd::prelude::*;

use crate::rank::{simple_rank, version_compare, Rank};

verus! {

/// A rule that ranks two versions.
pub type RankRule = spec_fn(Seq<char>, Seq<char>) -> Rank;

/// The rank that an `Ordering` stands for.
pub open spec fn rank_of(o: Ordering) -> Rank {
    match o {
        Ordering::Less => Rank::Less,
        Ordering::Equal => Rank::Equal,
        Ordering::Greater => Rank::Greater,
    }
}

/// The `Ordering` that stands for a rank.
pub fn to_ordering(r: Rank) -> (o: Ordering)
    ensures
        rank_of(o) == r,
{
    match r {
        Rank::Less => Ordering::Less,
        Rank::Equal => Ordering::Equal,
        Rank::Greater => Ordering::Greater,
    }
}

/// The rank that an `Ordering` stands for.
pub fn to_rank(o: Ordering) -> (r: Rank)
    ensures
        r == rank_of(o),
{
    match o {
        Ordering::Less => Rank::Less,
        Ordering::Equal => Rank::Equal,
        Ordering::Greater => Rank::Greater,
    }
}

/// The default ordering, for versions of dotted tags such as `1.10.2`.
pub struct SimpleTag;

impl SimpleTag {
    /// Compares two versions tag by tag. Two tags that are both numbers are
    /// compared as numbers, any other two as strings; the first pair that
    /// differs decides, and where one version has run out of tags the
    /// longer one is the greater.
    pub fn simple_compare(a: &str, b: &str) -> (o: Ordering)
        ensures
            rank_of(o) == simple_rank(a@, b@),
    {
        to_ordering(version_compare(a, b))
    }
}

/// The ordering in use answers for any two texts. That is so where none was
/// given, since the default ordering does.
pub open spec fn answers_all<Sort: Fn(&str, &str) -> Ordering>(sort_func: Option<Sort>) -> bool {
    match sort_func {
        Some(f) => forall|a: &str, b: &str| call_requires(f, (a, b)),
        None => true,
    }
}

/// The ordering in use ranks as `rule` does: whatever it answers for two
/// texts stands for the rank that `rule` gives them. Where no ordering was
/// given, `rule` is the default ordering by tags.
pub open spec fn ranks_by<Sort: Fn(&str, &str) -> Ordering>(
    sort_func: Option<Sort>,
    rule: RankRule,
) -> bool {
    match sort_func {
        Some(f) => forall|a: &str, b: &str, o: Ordering| #[trigger]
            call_ensures(f, (a, b), o) ==> rank_of(o) == rule(a@, b@),
        None => forall|a: Seq<char>, b: Seq<char>| #[trigger] rule(a, b) == simple_rank(a, b),
    }
}

/// Ranks two versions by the ordering given, or by their tags where none is
/// given.
pub fn rank_versions<Sort: Fn(&str, &str) -> Ordering>(
    sort_func: &Option<Sort>,
    a: &str,
    b: &str,
) -> (r: Rank)
    requires
        answers_all(*sort_func),
    ensures
        match *sort_func {
            Some(f) => exists|o: Ordering| call_ensures(f, (a, b), o) && r == rank_of(o),
            None => r == simple_rank(a@, b@),
        },
        forall|rule: RankRule| #[trigger] ranks_by(*sort_func, rule) ==> r == rule(a@, b@),
{
    match sort_func {
        Some(f) => to_rank(f(a, b)),
        None => to_rank(SimpleTag::simple_compare(a, b)),
    }
}

} // verus!
