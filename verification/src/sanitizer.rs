//! Sanitization: strips control characters, applies type-specific cleanup
//! (path traversal tokens and backslashes for paths, markup tags and a length
//! cap for handoff context), and trims surrounding whitespace.
use vstd::prelude::*;

use crate::chars::{control_char, is_control_char, is_space_char, space_char};
use crate::text::{chars_of, str_eq, string_from_chars};

verus! {

/// A character that survives control-character stripping: anything that is
/// not a control character, plus newline and horizontal tab.
pub open spec fn keeps_char(c: char) -> bool {
    !is_control_char(c) || c == '\n' || c == '\t'
}

/// The sequence with every control character removed, newline and tab kept.
pub open spec fn strip_controls(s: Seq<char>) -> Seq<char>
    decreases s.len(),
{
    if s.len() == 0 {
        Seq::empty()
    } else {
        let rest = strip_controls(s.drop_last());
        if keeps_char(s.last()) {
            rest.push(s.last())
        } else {
            rest
        }
    }
}

/// The sequence with every occurrence of `..` removed, scanning left to
/// right without revisiting already-copied characters.
pub open spec fn remove_dotdot(s: Seq<char>) -> Seq<char>
    decreases s.len(),
{
    if s.len() >= 2 && s[0] == '.' && s[1] == '.' {
        remove_dotdot(s.skip(2))
    } else if s.len() >= 1 {
        seq![s[0]] + remove_dotdot(s.skip(1))
    } else {
        Seq::empty()
    }
}

/// Every backslash replaced by a forward slash.
pub open spec fn replace_backslashes(s: Seq<char>) -> Seq<char> {
    s.map_values(|c: char| if c == '\\' { '/' } else { c })
}

/// A single pass over the text with an `in tag` flag: `<` raises the flag,
/// `>` lowers it, and ordinary characters are kept only while the flag is
/// down. A `<` that is never closed suppresses the rest of the text.
pub open spec fn strip_tags_from(s: Seq<char>, in_tag: bool) -> Seq<char>
    decreases s.len(),
{
    if s.len() == 0 {
        Seq::empty()
    } else if s[0] == '<' {
        strip_tags_from(s.skip(1), true)
    } else if s[0] == '>' {
        strip_tags_from(s.skip(1), false)
    } else if in_tag {
        strip_tags_from(s.skip(1), true)
    } else {
        seq![s[0]] + strip_tags_from(s.skip(1), false)
    }
}

/// Tag stripping starting outside any tag.
pub open spec fn strip_tags_spec(s: Seq<char>) -> Seq<char> {
    strip_tags_from(s, false)
}

/// The sequence cut to at most `n` characters.
pub open spec fn truncate_chars(s: Seq<char>, n: int) -> Seq<char> {
    if s.len() > n {
        s.take(n)
    } else {
        s
    }
}

/// The sequence with leading whitespace removed.
pub open spec fn trim_start(s: Seq<char>) -> Seq<char>
    decreases s.len(),
{
    if s.len() > 0 && is_space_char(s[0]) {
        trim_start(s.skip(1))
    } else {
        s
    }
}

/// The sequence with trailing whitespace removed.
pub open spec fn trim_end(s: Seq<char>) -> Seq<char>
    decreases s.len(),
{
    if s.len() > 0 && is_space_char(s.last()) {
        trim_end(s.drop_last())
    } else {
        s
    }
}

/// The sequence with leading and trailing whitespace removed.
pub open spec fn trim_spec(s: Seq<char>) -> Seq<char> {
    trim_end(trim_start(s))
}

/// The number of characters a handoff context is cut to.
pub open spec fn context_limit() -> int {
    500
}

/// What sanitization returns: control characters stripped, then the
/// type-specific step for `path` or `handoff_context`, then a trim.
pub open spec fn sanitize_spec(s: Seq<char>, kind: Seq<char>) -> Seq<char> {
    let stripped = strip_controls(s);
    let typed = if kind == "path"@ {
        replace_backslashes(remove_dotdot(stripped))
    } else if kind == "handoff_context"@ {
        truncate_chars(strip_tags_spec(stripped), context_limit())
    } else {
        stripped
    };
    trim_spec(typed)
}

fn strip_controls_vec(v: &Vec<char>) -> (out: Vec<char>)
    ensures
        out@ == strip_controls(v@),
{
    let n = v.len();
    let mut out: Vec<char> = Vec::new();
    let mut i: usize = 0;
    while i < n
        invariant
            n == v@.len(),
            i <= n,
            out@ == strip_controls(v@.take(i as int)),
        decreases n - i,
    {
        let c = v[i];
        proof {
            assert(v@.take(i + 1 as int).drop_last() =~= v@.take(i as int));
            assert(v@.take(i + 1 as int).last() == v@[i as int]);
        }
        if !control_char(c) || c == '\n' || c == '\t' {
            out.push(c);
        }
        i = i + 1;
    }
    proof {
        assert(v@.take(n as int) =~= v@);
    }
    out
}

fn remove_dotdot_vec(v: &Vec<char>) -> (out: Vec<char>)
    ensures
        out@ == remove_dotdot(v@),
{
    let n = v.len();
    let mut out: Vec<char> = Vec::new();
    let mut i: usize = 0;
    proof {
        assert(v@.skip(0) =~= v@);
        assert(Seq::<char>::empty() + remove_dotdot(v@) =~= remove_dotdot(v@));
    }
    while i < n
        invariant
            n == v@.len(),
            i <= n,
            remove_dotdot(v@) == out@ + remove_dotdot(v@.skip(i as int)),
        decreases n - i,
    {
        let ghost tail = v@.skip(i as int);
        if i + 1 < n && v[i] == '.' && v[i + 1] == '.' {
            proof {
                assert(tail.len() >= 2 && tail[0] == '.' && tail[1] == '.');
                assert(tail.skip(2) =~= v@.skip(i + 2 as int));
                assert(out@ + remove_dotdot(v@.skip(i + 2 as int)) == remove_dotdot(v@));
            }
            i = i + 2;
        } else {
            let c = v[i];
            proof {
                assert(tail.len() >= 1 && tail[0] == c);
                assert(!(tail.len() >= 2 && tail[0] == '.' && tail[1] == '.'));
                assert(tail.skip(1) =~= v@.skip(i + 1 as int));
                assert(remove_dotdot(tail) == seq![c] + remove_dotdot(v@.skip(i + 1 as int)));
                assert(out@ + remove_dotdot(tail) == (out@ + seq![c]) + remove_dotdot(
                    v@.skip(i + 1 as int),
                )) by {
                    assert(out@ + (seq![c] + remove_dotdot(v@.skip(i + 1 as int))) =~= (out@
                        + seq![c]) + remove_dotdot(v@.skip(i + 1 as int)));
                }
            }
            out.push(c);
            i = i + 1;
        }
    }
    proof {
        assert(v@.skip(n as int) =~= Seq::<char>::empty());
        assert(remove_dotdot(Seq::<char>::empty()) == Seq::<char>::empty());
        assert(out@ + Seq::<char>::empty() =~= out@);
    }
    out
}

fn replace_backslashes_vec(v: &Vec<char>) -> (out: Vec<char>)
    ensures
        out@ == replace_backslashes(v@),
{
    let n = v.len();
    let mut out: Vec<char> = Vec::new();
    let mut i: usize = 0;
    while i < n
        invariant
            n == v@.len(),
            i <= n,
            out@.len() == i,
            forall|k: int|
                0 <= k < i ==> out@[k] == (if v@[k] == '\\' {
                    '/'
                } else {
                    v@[k]
                }),
        decreases n - i,
    {
        let c = v[i];
        if c == '\\' {
            out.push('/');
        } else {
            out.push(c);
        }
        i = i + 1;
    }
    proof {
        assert(out@ =~= replace_backslashes(v@));
    }
    out
}

fn strip_tags_vec(v: &Vec<char>) -> (out: Vec<char>)
    ensures
        out@ == strip_tags_spec(v@),
{
    let n = v.len();
    let mut out: Vec<char> = Vec::new();
    let mut in_tag = false;
    let mut i: usize = 0;
    proof {
        assert(v@.skip(0) =~= v@);
        assert(Seq::<char>::empty() + strip_tags_from(v@, false) =~= strip_tags_from(v@, false));
    }
    while i < n
        invariant
            n == v@.len(),
            i <= n,
            strip_tags_from(v@, false) == out@ + strip_tags_from(v@.skip(i as int), in_tag),
        decreases n - i,
    {
        let ghost tail = v@.skip(i as int);
        let c = v[i];
        proof {
            assert(tail.len() >= 1 && tail[0] == c);
            assert(tail.skip(1) =~= v@.skip(i + 1 as int));
        }
        if c == '<' {
            in_tag = true;
        } else if c == '>' {
            in_tag = false;
        } else if !in_tag {
            proof {
                assert(strip_tags_from(tail, false) == seq![c] + strip_tags_from(
                    v@.skip(i + 1 as int),
                    false,
                ));
                assert(out@ + (seq![c] + strip_tags_from(v@.skip(i + 1 as int), false)) =~= (out@
                    + seq![c]) + strip_tags_from(v@.skip(i + 1 as int), false));
            }
            out.push(c);
        }
        i = i + 1;
    }
    proof {
        assert(v@.skip(n as int) =~= Seq::<char>::empty());
        assert(out@ + Seq::<char>::empty() =~= out@);
    }
    out
}

fn truncate_vec(v: Vec<char>, n: usize) -> (out: Vec<char>)
    ensures
        out@ == truncate_chars(v@, n as int),
{
    let ghost orig = v@;
    let mut v = v;
    if v.len() > n {
        v.truncate(n);
        proof {
            assert(v@ =~= truncate_chars(orig, n as int));
        }
    }
    v
}

fn trim_vec(v: &Vec<char>) -> (out: Vec<char>)
    ensures
        out@ == trim_spec(v@),
{
    let n = v.len();
    let mut a: usize = 0;
    while a < n && space_char(v[a])
        invariant
            n == v@.len(),
            a <= n,
            forall|k: int| 0 <= k < a ==> is_space_char(v@[k]),
        decreases n - a,
    {
        a = a + 1;
    }
    proof {
        lemma_trim_start_skip(v@, a as int);
    }
    if a == n {
        proof {
            assert(v@.skip(n as int) =~= Seq::<char>::empty());
            assert(trim_end(Seq::<char>::empty()) == Seq::<char>::empty());
        }
        let out: Vec<char> = Vec::new();
        return out;
    }
    let mut b: usize = n;
    while b > a + 1 && space_char(v[b - 1])
        invariant
            n == v@.len(),
            a < n,
            !is_space_char(v@[a as int]),
            a + 1 <= b <= n,
            forall|k: int| b <= k < n ==> is_space_char(v@[k]),
        decreases b,
    {
        b = b - 1;
    }
    // at exit either b == a + 1 or v[b - 1] is not a space; in the first
    // case v[a] itself is not a space, so v[b - 1] is never a space
    assert(!is_space_char(v@[b - 1]));
    proof {
        lemma_trim_end_take(v@.skip(a as int), b - a);
    }
    let mut out: Vec<char> = Vec::new();
    let mut i: usize = a;
    while i < b
        invariant
            n == v@.len(),
            a <= i <= b <= n,
            out@ =~= v@.subrange(a as int, i as int),
        decreases b - i,
    {
        out.push(v[i]);
        assert(out@ =~= v@.subrange(a as int, i + 1 as int));
        i = i + 1;
    }
    proof {
        assert(v@.skip(a as int).take(b - a as int) =~= v@.subrange(a as int, b as int));
    }
    out
}

/// Trimming from the front removes exactly the leading run of whitespace.
proof fn lemma_trim_start_skip(s: Seq<char>, a: int)
    requires
        0 <= a <= s.len(),
        forall|k: int| 0 <= k < a ==> is_space_char(s[k]),
        a < s.len() ==> !is_space_char(s[a]),
    ensures
        trim_start(s) == s.skip(a),
    decreases a,
{
    if a == 0 {
        assert(s.skip(0) =~= s);
    } else {
        assert(is_space_char(s[0]));
        lemma_trim_start_skip(s.skip(1), a - 1);
        assert(s.skip(1).skip(a - 1) =~= s.skip(a));
    }
}

/// Trimming from the back removes exactly the trailing run of whitespace.
proof fn lemma_trim_end_take(s: Seq<char>, b: int)
    requires
        0 <= b <= s.len(),
        forall|k: int| b <= k < s.len() ==> is_space_char(s[k]),
        b > 0 ==> !is_space_char(s[b - 1]),
    ensures
        trim_end(s) == s.take(b),
    decreases s.len(),
{
    if s.len() == 0 {
        assert(s.take(b) =~= s);
    } else if b == s.len() {
        assert(!is_space_char(s.last()));
        assert(s.take(b) =~= s);
    } else {
        assert(is_space_char(s.last()));
        lemma_trim_end_take(s.drop_last(), b);
        assert(s.drop_last().take(b) =~= s.take(b));
    }
}

/// Control-character stripping only outputs characters it keeps.
proof fn lemma_strip_controls_all_keep(s: Seq<char>)
    ensures
        forall|i: int| 0 <= i < strip_controls(s).len() ==> keeps_char(#[trigger] strip_controls(s)[i]),
    decreases s.len(),
{
    if s.len() > 0 {
        lemma_strip_controls_all_keep(s.drop_last());
        let rest = strip_controls(s.drop_last());
        assert forall|i: int| 0 <= i < strip_controls(s).len() implies keeps_char(
            #[trigger] strip_controls(s)[i],
        ) by {
            if keeps_char(s.last()) {
                assert(strip_controls(s) == rest.push(s.last()));
                if i < rest.len() {
                    assert(strip_controls(s)[i] == rest[i]);
                }
            } else {
                assert(strip_controls(s) == rest);
            }
        }
    }
}

/// Control-character stripping leaves a sequence of kept characters alone.
proof fn lemma_strip_controls_identity(s: Seq<char>)
    requires
        forall|i: int| 0 <= i < s.len() ==> keeps_char(#[trigger] s[i]),
    ensures
        strip_controls(s) == s,
    decreases s.len(),
{
    if s.len() == 0 {
        assert(strip_controls(s) =~= s);
    } else {
        lemma_strip_controls_identity(s.drop_last());
        assert(keeps_char(s.last()));
        assert(strip_controls(s) =~= s);
    }
}

/// Tag stripping never outputs an angle bracket.
proof fn lemma_strip_tags_no_angles(s: Seq<char>, in_tag: bool)
    ensures
        forall|i: int|
            0 <= i < strip_tags_from(s, in_tag).len() ==> #[trigger] strip_tags_from(s, in_tag)[i]
                != '<' && strip_tags_from(s, in_tag)[i] != '>',
    decreases s.len(),
{
    if s.len() > 0 {
        lemma_strip_tags_no_angles(s.skip(1), true);
        lemma_strip_tags_no_angles(s.skip(1), false);
        let out = strip_tags_from(s, in_tag);
        assert forall|i: int| 0 <= i < out.len() implies #[trigger] out[i] != '<' && out[i]
            != '>' by {
            if s[0] == '<' || (in_tag && s[0] != '>') {
                assert(out == strip_tags_from(s.skip(1), true));
                assert(out[i] == strip_tags_from(s.skip(1), true)[i]);
            } else if s[0] == '>' {
                assert(out == strip_tags_from(s.skip(1), false));
                assert(out[i] == strip_tags_from(s.skip(1), false)[i]);
            } else {
                let rest = strip_tags_from(s.skip(1), false);
                assert(out == seq![s[0]] + rest);
                if i == 0 {
                    assert(out[0] == s[0]);
                } else {
                    assert(out[i] == rest[i - 1]);
                }
            }
        }
    }
}

/// Tag stripping only outputs characters of its input: a property that holds
/// of every input character holds of every output character.
proof fn lemma_strip_tags_preserves(s: Seq<char>, in_tag: bool, p: spec_fn(char) -> bool)
    requires
        forall|i: int| 0 <= i < s.len() ==> p(#[trigger] s[i]),
    ensures
        forall|i: int|
            0 <= i < strip_tags_from(s, in_tag).len() ==> p(
                #[trigger] strip_tags_from(s, in_tag)[i],
            ),
    decreases s.len(),
{
    if s.len() > 0 {
        assert(forall|i: int| 0 <= i < s.skip(1).len() ==> p(#[trigger] s.skip(1)[i]));
        lemma_strip_tags_preserves(s.skip(1), true, p);
        lemma_strip_tags_preserves(s.skip(1), false, p);
        let out = strip_tags_from(s, in_tag);
        assert forall|i: int| 0 <= i < out.len() implies p(#[trigger] out[i]) by {
            if s[0] == '<' || (in_tag && s[0] != '>') {
                assert(out == strip_tags_from(s.skip(1), true));
                assert(out[i] == strip_tags_from(s.skip(1), true)[i]);
            } else if s[0] == '>' {
                assert(out == strip_tags_from(s.skip(1), false));
                assert(out[i] == strip_tags_from(s.skip(1), false)[i]);
            } else {
                let rest = strip_tags_from(s.skip(1), false);
                assert(out == seq![s[0]] + rest);
                if i == 0 {
                    assert(out[0] == s[0]);
                    assert(p(s[0]));
                } else {
                    assert(out[i] == rest[i - 1]);
                }
            }
        }
    }
}

/// Tag stripping leaves a bracket-free sequence alone.
proof fn lemma_strip_tags_identity(s: Seq<char>)
    requires
        forall|i: int| 0 <= i < s.len() ==> #[trigger] s[i] != '<' && s[i] != '>',
    ensures
        strip_tags_from(s, false) == s,
    decreases s.len(),
{
    if s.len() == 0 {
        assert(strip_tags_from(s, false) =~= s);
    } else {
        assert(s[0] != '<' && s[0] != '>');
        assert(forall|i: int| 0 <= i < s.skip(1).len() ==> #[trigger] s.skip(1)[i] != '<' && s.skip(
            1,
        )[i] != '>');
        lemma_strip_tags_identity(s.skip(1));
        assert(strip_tags_from(s, false) =~= s);
    }
}

/// Front trimming shortens, keeps a pointwise property, and leaves either an
/// empty sequence or one that starts with a non-space.
proof fn lemma_trim_start_props(s: Seq<char>, p: spec_fn(char) -> bool)
    requires
        forall|i: int| 0 <= i < s.len() ==> p(#[trigger] s[i]),
    ensures
        trim_start(s).len() <= s.len(),
        forall|i: int| 0 <= i < trim_start(s).len() ==> p(#[trigger] trim_start(s)[i]),
        trim_start(s).len() > 0 ==> !is_space_char(trim_start(s)[0]),
    decreases s.len(),
{
    if s.len() > 0 && is_space_char(s[0]) {
        assert(forall|i: int| 0 <= i < s.skip(1).len() ==> p(#[trigger] s.skip(1)[i]));
        lemma_trim_start_props(s.skip(1), p);
    }
}

/// Back trimming yields a prefix of its input, keeps a pointwise property,
/// and leaves either an empty sequence or one that ends with a non-space.
proof fn lemma_trim_end_props(s: Seq<char>, p: spec_fn(char) -> bool)
    requires
        forall|i: int| 0 <= i < s.len() ==> p(#[trigger] s[i]),
    ensures
        trim_end(s).len() <= s.len(),
        trim_end(s) == s.take(trim_end(s).len() as int),
        forall|i: int| 0 <= i < trim_end(s).len() ==> p(#[trigger] trim_end(s)[i]),
        trim_end(s).len() > 0 ==> !is_space_char(trim_end(s).last()),
    decreases s.len(),
{
    if s.len() > 0 && is_space_char(s.last()) {
        assert(forall|i: int| 0 <= i < s.drop_last().len() ==> p(#[trigger] s.drop_last()[i]));
        lemma_trim_end_props(s.drop_last(), p);
        assert(s.drop_last().take(trim_end(s).len() as int) =~= s.take(trim_end(s).len() as int));
    } else if s.len() > 0 {
        assert(s.take(s.len() as int) =~= s);
    } else {
        assert(s.take(0) =~= s);
    }
}

/// Trimming an already-trimmed sequence changes nothing.
proof fn lemma_trim_idempotent(s: Seq<char>)
    ensures
        trim_spec(trim_spec(s)) == trim_spec(s),
{
    let p = |c: char| true;
    let x = trim_start(s);
    let y = trim_end(x);
    lemma_trim_start_props(s, p);
    lemma_trim_end_props(x, p);
    if y.len() == 0 {
        assert(trim_start(y) == y);
        assert(trim_end(y) == y);
    } else {
        assert(y == x.take(y.len() as int));
        assert(y[0] == x[0]);
        assert(!is_space_char(y[0]));
        assert(trim_start(y) == y);
        assert(!is_space_char(y.last()));
        assert(trim_end(y) == y);
    }
}

/// Sanitizing handoff context twice gives the same text as sanitizing it
/// once: the first pass leaves no control characters, no angle brackets, no
/// overlength text and no surrounding whitespace for a second pass to act on.
pub proof fn lemma_sanitize_handoff_context_idempotent(s: Seq<char>)
    ensures
        sanitize_spec(sanitize_spec(s, "handoff_context"@), "handoff_context"@) == sanitize_spec(
            s,
            "handoff_context"@,
        ),
{
    reveal_strlit("handoff_context");
    reveal_strlit("path");
    assert("handoff_context"@.len() == 15);
    assert("path"@.len() == 4);
    let keep = |c: char| keeps_char(c);
    let stripped = strip_controls(s);
    let tagged = strip_tags_spec(stripped);
    let trunc = truncate_chars(tagged, context_limit());
    let r = trim_spec(trunc);
    assert(r == sanitize_spec(s, "handoff_context"@));
    lemma_strip_controls_all_keep(s);
    lemma_strip_tags_preserves(stripped, false, keep);
    lemma_strip_tags_no_angles(stripped, false);
    assert(forall|i: int| 0 <= i < trunc.len() ==> keeps_char(#[trigger] trunc[i]));
    assert(forall|i: int| 0 <= i < trunc.len() ==> #[trigger] trunc[i] != '<' && trunc[i] != '>');
    assert(trunc.len() <= context_limit());
    lemma_trim_start_props(trunc, keep);
    lemma_trim_end_props(trim_start(trunc), keep);
    let noangle = |c: char| c != '<' && c != '>';
    lemma_trim_start_props(trunc, noangle);
    lemma_trim_end_props(trim_start(trunc), noangle);
    assert(forall|i: int| 0 <= i < r.len() ==> keeps_char(#[trigger] r[i]));
    assert(forall|i: int| 0 <= i < r.len() ==> #[trigger] r[i] != '<' && r[i] != '>');
    assert(r.len() <= context_limit());
    lemma_strip_controls_identity(r);
    lemma_strip_tags_identity(r);
    assert(truncate_chars(strip_tags_spec(strip_controls(r)), context_limit()) == r);
    lemma_trim_idempotent(trunc);
    assert(trim_spec(r) == r);
}

/// Sanitize a string: strip control characters, apply the type-specific
/// cleanup for `path` or `handoff_context`, and trim whitespace.
pub fn sanitize(input: &str, input_type: &str) -> (r: String)
    ensures
        r@ == sanitize_spec(input@, input_type@),
{
    let v = chars_of(input);
    let stripped = strip_controls_vec(&v);
    let typed: Vec<char> = if str_eq(input_type, "path") {
        let no_dots = remove_dotdot_vec(&stripped);
        replace_backslashes_vec(&no_dots)
    } else if str_eq(input_type, "handoff_context") {
        let untagged = strip_tags_vec(&stripped);
        truncate_vec(untagged, 500)
    } else {
        stripped
    };
    let trimmed = trim_vec(&typed);
    string_from_chars(&trimmed)
}

/// Remove markup tags from a string with a single `<`/`>` scan.
pub fn strip_tags(input: &str) -> (r: String)
    ensures
        r@ == strip_tags_spec(input@),
{
    let v = chars_of(input);
    let out = strip_tags_vec(&v);
    string_from_chars(&out)
}

} // verus!
