//! Prompt-injection detection: an ordered table of suspicious phrase
//! patterns, scanned first-match-wins, followed by a check for literal
//! escape sequences. Matching is case-insensitive (ASCII) and words may be
//! separated by any run of whitespace.
use vstd::prelude::*;

use crate::matching::{
    contains_exact, contains_exact_exec, gap0, gap1, lemma_first_nonspace_target, phrase2_at,
    phrase2_exec, phrase3_at, phrase3_exec, phrase4_at, phrase4_exec, seek_word, skip_spaces,
    word_at, word_at_exec, word_follows, word_follows_exec,
};
use crate::chars::lower;
use crate::text::chars_of;

verus! {

/// How many phrase patterns the table holds.
pub open spec fn n_patterns() -> int {
    12
}

/// The persona pattern after `you are now`: whitespace, `a` or `an`,
/// whitespace, then at least one word character.
pub open spec fn persona_tail2_at(s: Seq<char>, e: int) -> bool {
    exists|j3: int|
        gap1(s, e, j3) && ((word_at(s, j3, "a"@) && word_follows(s, j3 + "a"@.len())) || (word_at(
            s,
            j3,
            "an"@,
        ) && word_follows(s, j3 + "an"@.len())))
}

/// The persona pattern after `you are`: whitespace, `now`, then the rest.
pub open spec fn persona_tail1_at(s: Seq<char>, e: int) -> bool {
    exists|j2: int|
        gap1(s, e, j2) && word_at(s, j2, "now"@) && persona_tail2_at(s, j2 + "now"@.len())
}

/// The persona pattern after `you`: whitespace, `are`, then the rest.
pub open spec fn persona_tail0_at(s: Seq<char>, e: int) -> bool {
    exists|j1: int|
        gap1(s, e, j1) && word_at(s, j1, "are"@) && persona_tail1_at(s, j1 + "are"@.len())
}

/// The persona pattern `you are now a <word>` (or `an <word>`) at `i`.
pub open spec fn persona_at(s: Seq<char>, i: int) -> bool {
    word_at(s, i, "you"@) && persona_tail0_at(s, i + "you"@.len())
}

/// The boundary pattern `---`, optional whitespace, `end of prompt` at `i`.
pub open spec fn end_of_prompt_at(s: Seq<char>, i: int) -> bool {
    word_at(s, i, "---"@) && (exists|j: int|
        gap0(s, i + "---"@.len(), j) && phrase3_at(s, j, "end"@, "of"@, "prompt"@))
}

/// Pattern `pid` of the table matches at position `i` of `s`. The table
/// order is the priority order: instruction overriding, persona injection,
/// role manipulation, prompt leakage, boundary breaking.
pub open spec fn pattern_at(s: Seq<char>, i: int, pid: int) -> bool {
    if pid == 0 {
        phrase3_at(s, i, "ignore"@, "previous"@, "instructions"@) || phrase3_at(
            s,
            i,
            "ignore"@,
            "above"@,
            "instructions"@,
        ) || phrase3_at(s, i, "ignore"@, "all"@, "instructions"@)
    } else if pid == 1 {
        phrase3_at(s, i, "disregard"@, "previous"@, "rules"@) || phrase3_at(
            s,
            i,
            "disregard"@,
            "previous"@,
            "instructions"@,
        ) || phrase3_at(s, i, "disregard"@, "all"@, "rules"@) || phrase3_at(
            s,
            i,
            "disregard"@,
            "all"@,
            "instructions"@,
        )
    } else if pid == 2 {
        persona_at(s, i)
    } else if pid == 3 {
        phrase3_at(s, i, "act"@, "as"@, "if"@) || phrase3_at(s, i, "act"@, "as"@, "a"@)
            || phrase3_at(s, i, "act"@, "as"@, "an"@)
    } else if pid == 4 {
        phrase3_at(s, i, "pretend"@, "you"@, "are"@) || phrase3_at(s, i, "pretend"@, "to"@, "are"@)
    } else if pid == 5 {
        phrase2_at(s, i, "roleplay"@, "as"@)
    } else if pid == 6 {
        phrase4_at(s, i, "show"@, "me"@, "your"@, "prompt"@) || phrase4_at(
            s,
            i,
            "show"@,
            "me"@,
            "the"@,
            "prompt"@,
        ) || phrase3_at(s, i, "show"@, "your"@, "prompt"@) || phrase3_at(
            s,
            i,
            "show"@,
            "the"@,
            "prompt"@,
        )
    } else if pid == 7 {
        phrase4_at(s, i, "what"@, "are"@, "your"@, "instructions"@) || phrase4_at(
            s,
            i,
            "what"@,
            "is"@,
            "your"@,
            "instructions"@,
        )
    } else if pid == 8 {
        phrase4_at(s, i, "reveal"@, "your"@, "system"@, "prompt"@)
    } else if pid == 9 {
        word_at(s, i, "</system>"@)
    } else if pid == 10 {
        word_at(s, i, "<|endoftext|>"@)
    } else if pid == 11 {
        end_of_prompt_at(s, i)
    } else {
        false
    }
}

/// Pattern `pid` matches somewhere in `s`.
pub open spec fn pattern_matches(s: Seq<char>, pid: int) -> bool {
    exists|i: int| pattern_at(s, i, pid)
}

/// Some pattern of the table matches in `s`.
pub open spec fn matches_any(s: Seq<char>) -> bool {
    exists|pid: int| 0 <= pid < n_patterns() && pattern_matches(s, pid)
}

/// `s` holds a literal `\x` or `\u` escape sequence.
pub open spec fn has_escapes(s: Seq<char>) -> bool {
    contains_exact(s, "\\x"@) || contains_exact(s, "\\u"@)
}

/// The detector reports an injection: a pattern matches, or escape
/// sequences appear.
pub open spec fn injection_detected(s: Seq<char>) -> bool {
    matches_any(s) || has_escapes(s)
}

/// The severity weight of pattern `pid`, in hundredths.
pub open spec fn confidence_of(pid: int) -> int {
    if pid == 0 || pid == 1 || pid == 8 {
        95
    } else if pid == 2 || pid == 6 || pid == 7 || pid == 9 || pid == 10 {
        90
    } else if pid == 5 || pid == 11 {
        85
    } else if pid == 3 || pid == 4 {
        80
    } else {
        0
    }
}

/// The first pattern at or after `pid` that matches `s`, or the table size
/// if none does.
pub open spec fn first_matching_from(s: Seq<char>, pid: int) -> int
    decreases n_patterns() - pid,
{
    if pid >= n_patterns() {
        n_patterns()
    } else if pattern_matches(s, pid) {
        pid
    } else {
        first_matching_from(s, pid + 1)
    }
}

/// The first pattern of the table that matches `s`.
pub open spec fn first_matching(s: Seq<char>) -> int {
    first_matching_from(s, 0)
}

/// The confidence the detector reports, in hundredths: the first matching
/// pattern's weight, 70 for escape sequences, 0 otherwise.
pub open spec fn inj_confidence(s: Seq<char>) -> int {
    if matches_any(s) {
        confidence_of(first_matching(s))
    } else if has_escapes(s) {
        70
    } else {
        0
    }
}

/// The reason text the detector reports.
pub open spec fn inj_reason(s: Seq<char>) -> Seq<char> {
    if matches_any(s) {
        "Potential prompt injection detected: matched pattern"@
    } else if has_escapes(s) {
        "Suspicious escape sequences detected"@
    } else {
        "No injection detected"@
    }
}

/// A match of `an` at a position is in particular a match of `a` there.
proof fn lemma_an_implies_a(s: Seq<char>, j: int)
    requires
        word_at(s, j, "an"@),
    ensures
        word_at(s, j, "a"@),
{
    reveal_strlit("a");
    reveal_strlit("an");
    assert(lower(s[j + 0]) == "an"@[0]);
    assert forall|k: int| 0 <= k < "a"@.len() implies lower(s[j + k]) == "a"@[k] by {
        assert(k == 0);
        assert(lower(s[j + 0]) == "an"@[0]);
    }
}

fn persona_tail2_exec(v: &Vec<char>, e: usize) -> (b: bool)
    requires
        e <= v@.len(),
    ensures
        b == persona_tail2_at(v@, e as int),
{
    proof {
        reveal_strlit("a");
        reveal_strlit("an");
    }
    match seek_word(v, e, "a") {
        Some(j3) => {
            let n = v.len();
            assert(j3 + 1 <= n);
            let ba = word_follows_exec(v, j3 + 1);
            let ban = word_at_exec(v, j3, "an") && {
                assert(j3 + 2 <= n);
                word_follows_exec(v, j3 + 2)
            };
            let b = ba || ban;
            proof {
                if b {
                    assert(gap1(v@, e as int, j3 as int));
                    assert(persona_tail2_at(v@, e as int));
                } else {
                    assert forall|j: int|
                        !(gap1(v@, e as int, j) && ((word_at(v@, j, "a"@) && word_follows(
                            v@,
                            j + "a"@.len(),
                        )) || (word_at(v@, j, "an"@) && word_follows(v@, j + "an"@.len())))) by {
                        if gap1(v@, e as int, j) && ((word_at(v@, j, "a"@) && word_follows(
                            v@,
                            j + "a"@.len(),
                        )) || (word_at(v@, j, "an"@) && word_follows(v@, j + "an"@.len()))) {
                            if word_at(v@, j, "an"@) {
                                lemma_an_implies_a(v@, j);
                            }
                            assert(word_at(v@, j, "a"@));
                            assert(j == j3 as int);
                            assert(false);
                        }
                    }
                }
            }
            b
        },
        None => {
            proof {
                assert forall|j: int|
                    !(gap1(v@, e as int, j) && ((word_at(v@, j, "a"@) && word_follows(
                        v@,
                        j + "a"@.len(),
                    )) || (word_at(v@, j, "an"@) && word_follows(v@, j + "an"@.len())))) by {
                    if gap1(v@, e as int, j) && ((word_at(v@, j, "a"@) && word_follows(
                        v@,
                        j + "a"@.len(),
                    )) || (word_at(v@, j, "an"@) && word_follows(v@, j + "an"@.len()))) {
                        if word_at(v@, j, "an"@) {
                            lemma_an_implies_a(v@, j);
                        }
                        assert(word_at(v@, j, "a"@));
                        assert(false);
                    }
                }
            }
            false
        },
    }
}

fn persona_tail1_exec(v: &Vec<char>, e: usize) -> (b: bool)
    requires
        e <= v@.len(),
    ensures
        b == persona_tail1_at(v@, e as int),
{
    proof {
        reveal_strlit("now");
    }
    match seek_word(v, e, "now") {
        Some(j2) => {
            let n = v.len();
            assert(j2 + 3 <= n);
            let b = persona_tail2_exec(v, j2 + 3);
            proof {
                if b {
                    assert(gap1(v@, e as int, j2 as int));
                    assert(persona_tail1_at(v@, e as int));
                } else {
                    assert(!persona_tail1_at(v@, e as int)) by {
                        if persona_tail1_at(v@, e as int) {
                            let j = choose|jx: int|
                                gap1(v@, e as int, jx) && word_at(v@, jx, "now"@)
                                    && persona_tail2_at(v@, jx + "now"@.len());
                            assert(word_at(v@, j, "now"@));
                            assert(j == j2 as int);
                            assert(false);
                        }
                    }
                }
            }
            b
        },
        None => {
            proof {
                assert(!persona_tail1_at(v@, e as int)) by {
                    if persona_tail1_at(v@, e as int) {
                        let j = choose|j2: int|
                            gap1(v@, e as int, j2) && word_at(v@, j2, "now"@) && persona_tail2_at(
                                v@,
                                j2 + "now"@.len(),
                            );
                        assert(word_at(v@, j, "now"@));
                        assert(false);
                    }
                }
            }
            false
        },
    }
}

fn persona_tail0_exec(v: &Vec<char>, e: usize) -> (b: bool)
    requires
        e <= v@.len(),
    ensures
        b == persona_tail0_at(v@, e as int),
{
    proof {
        reveal_strlit("are");
    }
    match seek_word(v, e, "are") {
        Some(j1) => {
            let n = v.len();
            assert(j1 + 3 <= n);
            let b = persona_tail1_exec(v, j1 + 3);
            proof {
                if b {
                    assert(gap1(v@, e as int, j1 as int));
                    assert(persona_tail0_at(v@, e as int));
                } else {
                    assert(!persona_tail0_at(v@, e as int)) by {
                        if persona_tail0_at(v@, e as int) {
                            let j = choose|jx: int|
                                gap1(v@, e as int, jx) && word_at(v@, jx, "are"@)
                                    && persona_tail1_at(v@, jx + "are"@.len());
                            assert(word_at(v@, j, "are"@));
                            assert(j == j1 as int);
                            assert(false);
                        }
                    }
                }
            }
            b
        },
        None => {
            proof {
                assert(!persona_tail0_at(v@, e as int)) by {
                    if persona_tail0_at(v@, e as int) {
                        let j = choose|jx: int|
                            gap1(v@, e as int, jx) && word_at(v@, jx, "are"@) && persona_tail1_at(
                                v@,
                                jx + "are"@.len(),
                            );
                        assert(word_at(v@, j, "are"@));
                        assert(false);
                    }
                }
            }
            false
        },
    }
}

fn persona_exec(v: &Vec<char>, i: usize) -> (b: bool)
    ensures
        b == persona_at(v@, i as int),
{
    proof {
        reveal_strlit("you");
    }
    if !word_at_exec(v, i, "you") {
        return false;
    }
    let n = v.len();
    assert(i + 3 <= n);
    persona_tail0_exec(v, i + 3)
}

fn end_of_prompt_exec(v: &Vec<char>, i: usize) -> (b: bool)
    ensures
        b == end_of_prompt_at(v@, i as int),
{
    proof {
        reveal_strlit("---");
        reveal_strlit("end");
        reveal_strlit("of");
        reveal_strlit("prompt");
    }
    if !word_at_exec(v, i, "---") {
        return false;
    }
    let n = v.len();
    assert(i + 3 <= n);
    let m = skip_spaces(v, i + 3);
    let b = phrase3_exec(v, m, "end", "of", "prompt");
    proof {
        if b {
            assert(gap0(v@, i + 3 as int, m as int));
            assert(end_of_prompt_at(v@, i as int));
        } else {
            assert(!end_of_prompt_at(v@, i as int)) by {
                if end_of_prompt_at(v@, i as int) {
                    let j = choose|jx: int|
                        gap0(v@, i + "---"@.len(), jx) && phrase3_at(
                            v@,
                            jx,
                            "end"@,
                            "of"@,
                            "prompt"@,
                        );
                    assert(word_at(v@, j, "end"@));
                    lemma_first_nonspace_target(v@, i + 3, m as int, "end"@, j);
                    assert(false);
                }
            }
        }
    }
    b
}

fn pattern_at_exec(v: &Vec<char>, i: usize, pid: usize) -> (b: bool)
    requires
        pid < 12,
    ensures
        b == pattern_at(v@, i as int, pid as int),
{
    if pid == 0 {
        proof {
            reveal_strlit("previous");
            reveal_strlit("above");
            reveal_strlit("all");
            reveal_strlit("instructions");
        }
        phrase3_exec(v, i, "ignore", "previous", "instructions") || phrase3_exec(
            v,
            i,
            "ignore",
            "above",
            "instructions",
        ) || phrase3_exec(v, i, "ignore", "all", "instructions")
    } else if pid == 1 {
        proof {
            reveal_strlit("previous");
            reveal_strlit("all");
            reveal_strlit("rules");
            reveal_strlit("instructions");
        }
        phrase3_exec(v, i, "disregard", "previous", "rules") || phrase3_exec(
            v,
            i,
            "disregard",
            "previous",
            "instructions",
        ) || phrase3_exec(v, i, "disregard", "all", "rules") || phrase3_exec(
            v,
            i,
            "disregard",
            "all",
            "instructions",
        )
    } else if pid == 2 {
        persona_exec(v, i)
    } else if pid == 3 {
        proof {
            reveal_strlit("as");
            reveal_strlit("if");
            reveal_strlit("a");
            reveal_strlit("an");
        }
        phrase3_exec(v, i, "act", "as", "if") || phrase3_exec(v, i, "act", "as", "a")
            || phrase3_exec(v, i, "act", "as", "an")
    } else if pid == 4 {
        proof {
            reveal_strlit("you");
            reveal_strlit("to");
            reveal_strlit("are");
        }
        phrase3_exec(v, i, "pretend", "you", "are") || phrase3_exec(v, i, "pretend", "to", "are")
    } else if pid == 5 {
        proof {
            reveal_strlit("as");
        }
        phrase2_exec(v, i, "roleplay", "as")
    } else if pid == 6 {
        proof {
            reveal_strlit("me");
            reveal_strlit("your");
            reveal_strlit("the");
            reveal_strlit("prompt");
        }
        phrase4_exec(v, i, "show", "me", "your", "prompt") || phrase4_exec(
            v,
            i,
            "show",
            "me",
            "the",
            "prompt",
        ) || phrase3_exec(v, i, "show", "your", "prompt") || phrase3_exec(
            v,
            i,
            "show",
            "the",
            "prompt",
        )
    } else if pid == 7 {
        proof {
            reveal_strlit("are");
            reveal_strlit("is");
            reveal_strlit("your");
            reveal_strlit("instructions");
        }
        phrase4_exec(v, i, "what", "are", "your", "instructions") || phrase4_exec(
            v,
            i,
            "what",
            "is",
            "your",
            "instructions",
        )
    } else if pid == 8 {
        proof {
            reveal_strlit("your");
            reveal_strlit("system");
            reveal_strlit("prompt");
        }
        phrase4_exec(v, i, "reveal", "your", "system", "prompt")
    } else if pid == 9 {
        word_at_exec(v, i, "</system>")
    } else if pid == 10 {
        word_at_exec(v, i, "<|endoftext|>")
    } else {
        end_of_prompt_exec(v, i)
    }
}

/// Any match of the table starts inside the text.
proof fn lemma_pattern_at_bounds(s: Seq<char>, i: int, pid: int)
    requires
        pattern_at(s, i, pid),
    ensures
        0 <= i < s.len(),
{
    reveal_strlit("ignore");
    reveal_strlit("disregard");
    reveal_strlit("you");
    reveal_strlit("act");
    reveal_strlit("pretend");
    reveal_strlit("roleplay");
    reveal_strlit("show");
    reveal_strlit("what");
    reveal_strlit("reveal");
    reveal_strlit("</system>");
    reveal_strlit("<|endoftext|>");
    reveal_strlit("---");
}

fn pattern_match_exec(v: &Vec<char>, pid: usize) -> (b: bool)
    requires
        pid < 12,
    ensures
        b == pattern_matches(v@, pid as int),
{
    let n = v.len();
    let mut i: usize = 0;
    while i < n
        invariant
            n == v@.len(),
            i <= n,
            pid < 12,
            forall|ii: int| 0 <= ii < i ==> !pattern_at(v@, ii, pid as int),
        decreases n - i,
    {
        if pattern_at_exec(v, i, pid) {
            return true;
        }
        i = i + 1;
    }
    proof {
        assert forall|ii: int| !pattern_at(v@, ii, pid as int) by {
            if pattern_at(v@, ii, pid as int) {
                lemma_pattern_at_bounds(v@, ii, pid as int);
            }
        }
    }
    false
}

fn confidence_exec(pid: usize) -> (c: u8)
    requires
        pid < 12,
    ensures
        c as int == confidence_of(pid as int),
{
    if pid == 0 || pid == 1 || pid == 8 {
        95
    } else if pid == 2 || pid == 6 || pid == 7 || pid == 9 || pid == 10 {
        90
    } else if pid == 5 || pid == 11 {
        85
    } else {
        80
    }
}

proof fn lemma_first_matching_found(s: Seq<char>, q: int, pid: int)
    requires
        0 <= q <= pid < n_patterns(),
        pattern_matches(s, pid),
        forall|p: int| q <= p < pid ==> !pattern_matches(s, p),
    ensures
        first_matching_from(s, q) == pid,
    decreases pid - q,
{
    if q < pid {
        lemma_first_matching_found(s, q + 1, pid);
    }
}

/// The outcome of an injection scan. `confidence` is the matched pattern's
/// fixed severity weight in hundredths: 95 stands for a weight of 0.95.
pub struct InjectionResult {
    pub detected: bool,
    pub reason: String,
    pub confidence: u8,
}

/// Detect prompt injection: scan the ordered pattern table, first match
/// wins; with no pattern match, look for literal `\x` or `\u` escape
/// sequences; otherwise report nothing detected.
pub fn detect_injection(input: &str) -> (r: InjectionResult)
    ensures
        r.detected == injection_detected(input@),
        r.confidence as int == inj_confidence(input@),
        r.reason@ == inj_reason(input@),
{
    let v = chars_of(input);
    let mut pid: usize = 0;
    while pid < 12
        invariant
            v@ == input@,
            pid <= 12,
            forall|p: int| 0 <= p < pid ==> !pattern_matches(input@, p),
        decreases 12 - pid,
    {
        if pattern_match_exec(&v, pid) {
            proof {
                assert(0 <= pid as int && (pid as int) < n_patterns());
                assert(pattern_matches(input@, pid as int));
                assert(matches_any(input@));
                lemma_first_matching_found(input@, 0, pid as int);
            }
            return InjectionResult {
                detected: true,
                reason: String::from_str("Potential prompt injection detected: matched pattern"),
                confidence: confidence_exec(pid),
            };
        }
        pid = pid + 1;
    }
    proof {
        assert(!matches_any(input@)) by {
            if matches_any(input@) {
                let p = choose|p: int| 0 <= p < n_patterns() && pattern_matches(input@, p);
                assert(!pattern_matches(input@, p));
            }
        }
        reveal_strlit("\\x");
        reveal_strlit("\\u");
    }
    if contains_exact_exec(&v, "\\x") || contains_exact_exec(&v, "\\u") {
        InjectionResult {
            detected: true,
            reason: String::from_str("Suspicious escape sequences detected"),
            confidence: 70,
        }
    } else {
        InjectionResult {
            detected: false,
            reason: String::from_str("No injection detected"),
            confidence: 0,
        }
    }
}

} // verus!
