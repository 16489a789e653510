//! An input-validation and sanitization gate for a multi-agent
//! orchestration layer: whitelist checks for director and task-type names, a
//! character-class check for paths, a prompt-injection detector over an
//! ordered pattern table, a sanitizer, and a handoff routing policy.
use vstd::prelude::*;

pub mod chars;
pub mod matching;
pub mod prompt_guard;
pub mod routing_guard;
pub mod sanitizer;
pub mod text;
pub mod vocab;

use crate::chars::{is_path_char, path_char};
use crate::prompt_guard::{detect_injection, inj_confidence, inj_reason, injection_detected, InjectionResult};
use crate::routing_guard::HandoffValidation;
use crate::sanitizer::sanitize_spec;
use crate::text::{chars_of, concat_str, str_eq};
use crate::vocab::{director, is_director, is_queenbee_type, queenbee_type};

verus! {

/// The outcome of validating a single input value.
pub struct ValidationResult {
    pub safe: bool,
    pub reason: String,
    pub sanitized: Option<String>,
}

/// A path-like string is acceptable: non-empty, every character in the
/// path class.
pub open spec fn path_ok(s: Seq<char>) -> bool {
    s.len() > 0 && forall|i: int| 0 <= i < s.len() ==> is_path_char(s[i])
}

/// The character limit on handoff context.
pub open spec fn context_max() -> int {
    500
}

fn validate_director(input: &str) -> (r: ValidationResult)
    ensures
        r.safe == is_director(input@),
        r.safe ==> r.reason@ == "OK"@,
        !r.safe ==> r.reason@ == "Invalid director: "@ + input@,
        r.sanitized is None,
{
    if director(input) {
        ValidationResult { safe: true, reason: String::from_str("OK"), sanitized: None }
    } else {
        ValidationResult {
            safe: false,
            reason: concat_str("Invalid director: ", input),
            sanitized: None,
        }
    }
}

fn validate_queenbee_type(input: &str) -> (r: ValidationResult)
    ensures
        r.safe == is_queenbee_type(input@),
        r.safe ==> r.reason@ == "OK"@,
        !r.safe ==> r.reason@ == "Invalid queenbee type: "@ + input@,
        r.sanitized is None,
{
    if queenbee_type(input) {
        ValidationResult { safe: true, reason: String::from_str("OK"), sanitized: None }
    } else {
        ValidationResult {
            safe: false,
            reason: concat_str("Invalid queenbee type: ", input),
            sanitized: None,
        }
    }
}

fn validate_path(input: &str) -> (r: ValidationResult)
    ensures
        r.safe == path_ok(input@),
        r.safe ==> r.reason@ == "OK"@,
        !r.safe ==> r.reason@ == "Path contains invalid characters"@,
        r.sanitized is None,
{
    let v = chars_of(input);
    let n = v.len();
    let mut ok = n > 0;
    let mut i: usize = 0;
    while i < n
        invariant
            n == input@.len(),
            v@ == input@,
            i <= n,
            ok == (n > 0 && forall|k: int| 0 <= k < i ==> is_path_char(input@[k])),
        decreases n - i,
    {
        if !path_char(v[i]) {
            ok = false;
        }
        i = i + 1;
    }
    if ok {
        ValidationResult { safe: true, reason: String::from_str("OK"), sanitized: None }
    } else {
        ValidationResult {
            safe: false,
            reason: String::from_str("Path contains invalid characters"),
            sanitized: None,
        }
    }
}

/// Screen free-text handoff context: reject overlength text outright, then
/// run the injection detector; the sanitized text is returned whatever the
/// detector found.
pub fn validate_handoff_context(input: &str) -> (r: ValidationResult)
    ensures
        input@.len() > context_max() ==> !r.safe && r.reason@ == "Context too long (max 500 chars)"@
            && r.sanitized is None,
        input@.len() <= context_max() ==> {
            &&& r.safe == !injection_detected(input@)
            &&& (r.safe ==> r.reason@ == "OK"@)
            &&& (!r.safe ==> r.reason@ == "Security risk: "@ + inj_reason(input@))
            &&& match r.sanitized {
                Some(t) => t@ == sanitize_spec(input@, "handoff_context"@),
                None => false,
            }
        },
{
    let n = input.unicode_len();
    if n > 500 {
        return ValidationResult {
            safe: false,
            reason: String::from_str("Context too long (max 500 chars)"),
            sanitized: None,
        };
    }
    let inj = detect_injection(input);
    let cleaned = crate::sanitizer::sanitize(input, "handoff_context");
    if inj.detected {
        ValidationResult {
            safe: false,
            reason: concat_str("Security risk: ", inj.reason.as_str()),
            sanitized: Some(cleaned),
        }
    } else {
        ValidationResult { safe: true, reason: String::from_str("OK"), sanitized: Some(cleaned) }
    }
}

/// Validate an input value against the rule for its kind: director names
/// and queenbee types by whitelist, paths by character class, handoff
/// context by length and injection scan. An unrecognized kind passes open.
pub fn validate_input(input: &str, input_type: &str) -> (r: ValidationResult)
    ensures
        input_type@ == "director"@ ==> r.safe == is_director(input@) && (r.safe ==> r.reason@
            == "OK"@) && (!r.safe ==> r.reason@ == "Invalid director: "@ + input@)
            && r.sanitized is None,
        input_type@ == "queenbee_type"@ ==> r.safe == is_queenbee_type(input@) && (r.safe
            ==> r.reason@ == "OK"@) && (!r.safe ==> r.reason@ == "Invalid queenbee type: "@
            + input@) && r.sanitized is None,
        input_type@ == "path"@ ==> r.safe == path_ok(input@) && (r.safe ==> r.reason@ == "OK"@) && (
        !r.safe ==> r.reason@ == "Path contains invalid characters"@) && r.sanitized is None,
        input_type@ == "handoff_context"@ && input@.len() > context_max() ==> !r.safe && r.reason@
            == "Context too long (max 500 chars)"@ && r.sanitized is None,
        input_type@ == "handoff_context"@ && input@.len() <= context_max() ==> {
            &&& r.safe == !injection_detected(input@)
            &&& (r.safe ==> r.reason@ == "OK"@)
            &&& (!r.safe ==> r.reason@ == "Security risk: "@ + inj_reason(input@))
            &&& match r.sanitized {
                Some(t) => t@ == sanitize_spec(input@, "handoff_context"@),
                None => false,
            }
        },
        input_type@ != "director"@ && input_type@ != "queenbee_type"@ && input_type@ != "path"@
            && input_type@ != "handoff_context"@ ==> r.safe && r.reason@ == "No validation rule"@
            && r.sanitized is None,
{
    proof {
        reveal_strlit("director");
        reveal_strlit("queenbee_type");
        reveal_strlit("path");
        reveal_strlit("handoff_context");
        // the four kinds have pairwise different lengths
        assert("director"@.len() == 8);
        assert("queenbee_type"@.len() == 13);
        assert("path"@.len() == 4);
        assert("handoff_context"@.len() == 15);
    }
    if str_eq(input_type, "director") {
        validate_director(input)
    } else if str_eq(input_type, "queenbee_type") {
        validate_queenbee_type(input)
    } else if str_eq(input_type, "path") {
        validate_path(input)
    } else if str_eq(input_type, "handoff_context") {
        validate_handoff_context(input)
    } else {
        ValidationResult {
            safe: true,
            reason: String::from_str("No validation rule"),
            sanitized: None,
        }
    }
}

/// Sanitize an input value for its kind.
pub fn sanitize_input(input: &str, input_type: &str) -> (r: String)
    ensures
        r@ == sanitize_spec(input@, input_type@),
{
    crate::sanitizer::sanitize(input, input_type)
}

/// Validate a handoff between directors.
pub fn validate_handoff(from: &str, to: &str, context: &str) -> (r: HandoffValidation)
    ensures
        r.valid == crate::routing_guard::handoff_valid(from@, to@),
        !is_director(from@) ==> r.reason@ == "Invalid source director: "@ + from@,
        is_director(from@) && !is_director(to@) ==> r.reason@ == "Invalid target director: "@
            + to@,
        is_director(from@) && is_director(to@) && from@ == to@ ==> r.reason@
            == "Cannot handoff to self"@,
        r.valid ==> r.reason@ == "OK"@,
{
    crate::routing_guard::validate_handoff(from, to, context)
}

/// Detect prompt injection attempts in a free-text value.
pub fn detect_prompt_injection(input: &str) -> (r: InjectionResult)
    ensures
        r.detected == injection_detected(input@),
        r.confidence as int == inj_confidence(input@),
        r.reason@ == inj_reason(input@),
{
    detect_injection(input)
}

} // verus!
