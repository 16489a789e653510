//! The closed vocabularies: the eight director names and the three
//! queenbee task-type names. Membership is case-sensitive exact match.
use vstd::prelude::*;

use crate::text::str_eq;

verus! {

/// `s` is one of the eight director names.
pub open spec fn is_director(s: Seq<char>) -> bool {
    ||| s == "architecture"@
    ||| s == "business"@
    ||| s == "design"@
    ||| s == "engineering"@
    ||| s == "research"@
    ||| s == "documentation"@
    ||| s == "operations"@
    ||| s == "security"@
}

/// Whether `s` names a director.
pub fn director(s: &str) -> (b: bool)
    ensures
        b == is_director(s@),
{
    str_eq(s, "architecture") || str_eq(s, "business") || str_eq(s, "design") || str_eq(
        s,
        "engineering",
    ) || str_eq(s, "research") || str_eq(s, "documentation") || str_eq(s, "operations") || str_eq(
        s,
        "security",
    )
}

/// `s` is one of the three queenbee task-type names.
pub open spec fn is_queenbee_type(s: Seq<char>) -> bool {
    ||| s == "strategic"@
    ||| s == "tactical"@
    ||| s == "adaptive"@
}

/// Whether `s` names a queenbee task type.
pub fn queenbee_type(s: &str) -> (b: bool)
    ensures
        b == is_queenbee_type(s@),
{
    str_eq(s, "strategic") || str_eq(s, "tactical") || str_eq(s, "adaptive")
}

} // verus!
