//! Handoff routing policy: a transfer between two directors is valid when
//! both names are known and the transfer is not to self. Two ordered pairs
//! are additionally flagged as cross-domain, an advisory signal that does
//! not affect validity.
use vstd::prelude::*;

use crate::text::{concat_str, str_eq};
use crate::vocab::{director, is_director};

verus! {

/// The outcome of validating a proposed handoff.
pub struct HandoffValidation {
    pub valid: bool,
    pub reason: String,
}

/// A handoff is valid: both directors are known and differ.
pub open spec fn handoff_valid(from: Seq<char>, to: Seq<char>) -> bool {
    is_director(from) && is_director(to) && from != to
}

/// The ordered pairs flagged as crossing a domain boundary.
pub open spec fn is_cross_domain(from: Seq<char>, to: Seq<char>) -> bool {
    ||| (from == "engineering"@ && to == "business"@)
    ||| (from == "design"@ && to == "security"@)
}

/// Validate a handoff between directors: the first failing check names the
/// reason, a valid transfer reports `OK`. The context rides along unused;
/// context screening is its own check.
pub fn validate_handoff(from: &str, to: &str, _context: &str) -> (r: HandoffValidation)
    ensures
        r.valid == handoff_valid(from@, to@),
        !is_director(from@) ==> r.reason@ == "Invalid source director: "@ + from@,
        is_director(from@) && !is_director(to@) ==> r.reason@ == "Invalid target director: "@
            + to@,
        is_director(from@) && is_director(to@) && from@ == to@ ==> r.reason@
            == "Cannot handoff to self"@,
        r.valid ==> r.reason@ == "OK"@,
{
    if !director(from) {
        return HandoffValidation {
            valid: false,
            reason: concat_str("Invalid source director: ", from),
        };
    }
    if !director(to) {
        return HandoffValidation {
            valid: false,
            reason: concat_str("Invalid target director: ", to),
        };
    }
    if str_eq(from, to) {
        return HandoffValidation {
            valid: false,
            reason: String::from_str("Cannot handoff to self"),
        };
    }
    HandoffValidation { valid: true, reason: String::from_str("OK") }
}

/// The advisory cross-domain signal: whether the pair would need elevated
/// approval. Kept apart from `validate_handoff` so the flag can gain an
/// enforcement step without changing what `valid` means.
pub fn requires_approval(from: &str, to: &str) -> (b: bool)
    ensures
        b == is_cross_domain(from@, to@),
{
    (str_eq(from, "engineering") && str_eq(to, "business")) || (str_eq(from, "design") && str_eq(
        to,
        "security",
    ))
}

} // verus!
