//! Matching primitives for the detector's signature phrases: case-insensitive
//! occurrence of a word at a position, runs of whitespace between words, and
//! phrases of two to four words separated by whitespace.
//!
//! A phrase position is pinned down by the text itself: a word after a
//! whitespace run can only start at the first non-space character, which is
//! what makes a single left-to-right scan complete.
use vstd::prelude::*;

use crate::chars::{is_space_char, is_word_char, lower, lower_char, space_char, word_char};

verus! {

/// The lower-case word `w` occurs at position `i` of `s`, comparing the text
/// case-insensitively (ASCII).
pub open spec fn word_at(s: Seq<char>, i: int, w: Seq<char>) -> bool {
    &&& 0 <= i
    &&& i + w.len() <= s.len()
    &&& forall|k: int| 0 <= k < w.len() ==> lower(s[i + k]) == w[k]
}

/// The word `w` occurs at position `i` of `s`, compared exactly.
pub open spec fn exact_at(s: Seq<char>, i: int, w: Seq<char>) -> bool {
    &&& 0 <= i
    &&& i + w.len() <= s.len()
    &&& forall|k: int| 0 <= k < w.len() ==> s[i + k] == w[k]
}

/// The word `w` occurs somewhere in `s`, compared exactly.
pub open spec fn contains_exact(s: Seq<char>, w: Seq<char>) -> bool {
    exists|i: int| exact_at(s, i, w)
}

/// Positions `i..j` of `s` hold whitespace only, at least one character.
pub open spec fn gap1(s: Seq<char>, i: int, j: int) -> bool {
    &&& 0 <= i < j <= s.len()
    &&& forall|k: int| i <= k < j ==> is_space_char(s[k])
}

/// Positions `i..j` of `s` hold whitespace only, possibly none.
pub open spec fn gap0(s: Seq<char>, i: int, j: int) -> bool {
    &&& 0 <= i <= j <= s.len()
    &&& forall|k: int| i <= k < j ==> is_space_char(s[k])
}

/// A two-word phrase: `w0`, whitespace, `w1`.
pub open spec fn phrase2_at(s: Seq<char>, i: int, w0: Seq<char>, w1: Seq<char>) -> bool {
    &&& word_at(s, i, w0)
    &&& exists|j: int| gap1(s, i + w0.len(), j) && word_at(s, j, w1)
}

/// A three-word phrase: `w0`, whitespace, `w1`, whitespace, `w2`.
pub open spec fn phrase3_at(s: Seq<char>, i: int, w0: Seq<char>, w1: Seq<char>, w2: Seq<char>) -> bool {
    &&& word_at(s, i, w0)
    &&& exists|j: int| gap1(s, i + w0.len(), j) && phrase2_at(s, j, w1, w2)
}

/// A four-word phrase.
pub open spec fn phrase4_at(
    s: Seq<char>,
    i: int,
    w0: Seq<char>,
    w1: Seq<char>,
    w2: Seq<char>,
    w3: Seq<char>,
) -> bool {
    &&& word_at(s, i, w0)
    &&& exists|j: int| gap1(s, i + w0.len(), j) && phrase3_at(s, j, w1, w2, w3)
}

/// Whitespace, then at least one word character: the tail `\s+\w` of the
/// persona phrase.
pub open spec fn word_follows(s: Seq<char>, i: int) -> bool {
    exists|j: int| gap1(s, i, j) && j < s.len() && is_word_char(s[j])
}

/// A word that starts with a non-space can only follow a whitespace run at
/// the first non-space position.
pub(crate) proof fn lemma_first_nonspace_target(s: Seq<char>, i: int, m: int, w: Seq<char>, j2: int)
    requires
        w.len() > 0,
        !is_space_char(w[0]),
        0 <= i <= m <= s.len(),
        forall|k: int| i <= k < m ==> is_space_char(s[k]),
        m < s.len() ==> !is_space_char(s[m]),
        i <= j2 <= s.len(),
        forall|k: int| i <= k < j2 ==> is_space_char(s[k]),
        word_at(s, j2, w),
    ensures
        j2 == m,
{
    if j2 < m {
        assert(is_space_char(s[j2]));
        assert(lower(s[j2]) == w[0]);
        assert(lower(s[j2]) == s[j2]);
        assert(false);
    } else if j2 > m {
        assert(j2 + w.len() <= s.len());
        assert(m < s.len());
        assert(is_space_char(s[m]));
        assert(false);
    }
}

/// The first position at or after `i` that holds a non-space character, or
/// the end of the text.
pub fn skip_spaces(v: &Vec<char>, i: usize) -> (m: usize)
    requires
        i <= v@.len(),
    ensures
        i <= m <= v@.len(),
        forall|k: int| i <= k < m ==> is_space_char(v@[k]),
        m < v@.len() ==> !is_space_char(v@[m as int]),
{
    let n = v.len();
    let mut m: usize = i;
    while m < n && space_char(v[m])
        invariant
            n == v@.len(),
            i <= m <= n,
            forall|k: int| i <= k < m ==> is_space_char(v@[k]),
        decreases n - m,
    {
        m = m + 1;
    }
    m
}

/// Whether the lower-case word `w` occurs at position `i`, comparing the
/// text case-insensitively.
pub fn word_at_exec(v: &Vec<char>, i: usize, w: &str) -> (b: bool)
    ensures
        b == word_at(v@, i as int, w@),
{
    let wn = w.unicode_len();
    let n = v.len();
    if i > n {
        return false;
    }
    if wn > n - i {
        return false;
    }
    let mut k: usize = 0;
    while k < wn
        invariant
            wn == w@.len(),
            n == v@.len(),
            i + wn <= n,
            k <= wn,
            forall|t: int| 0 <= t < k ==> lower(v@[i + t]) == w@[t],
        decreases wn - k,
    {
        let c = lower_char(v[i + k]);
        if c != w.get_char(k) {
            return false;
        }
        k = k + 1;
    }
    true
}

/// Whether the word `w` occurs at position `i`, compared exactly.
pub fn exact_at_exec(v: &Vec<char>, i: usize, w: &str) -> (b: bool)
    ensures
        b == exact_at(v@, i as int, w@),
{
    let wn = w.unicode_len();
    let n = v.len();
    if i > n {
        return false;
    }
    if wn > n - i {
        return false;
    }
    let mut k: usize = 0;
    while k < wn
        invariant
            wn == w@.len(),
            n == v@.len(),
            i + wn <= n,
            k <= wn,
            forall|t: int| 0 <= t < k ==> v@[i + t] == w@[t],
        decreases wn - k,
    {
        if v[i + k] != w.get_char(k) {
            return false;
        }
        k = k + 1;
    }
    true
}

/// Whether the word `w` occurs somewhere in the text, compared exactly.
pub fn contains_exact_exec(v: &Vec<char>, w: &str) -> (b: bool)
    requires
        w@.len() > 0,
    ensures
        b == contains_exact(v@, w@),
{
    let n = v.len();
    let mut i: usize = 0;
    while i < n
        invariant
            n == v@.len(),
            i <= n,
            forall|ii: int| 0 <= ii < i ==> !exact_at(v@, ii, w@),
        decreases n - i,
    {
        if exact_at_exec(v, i, w) {
            return true;
        }
        i = i + 1;
    }
    assert forall|ii: int| !exact_at(v@, ii, w@) by {
        if exact_at(v@, ii, w@) {
            assert(0 <= ii < n);
        }
    }
    false
}

/// Seek a whitespace run followed by the word `w`: returns the position
/// where `w` starts, which is the only position where it can.
pub fn seek_word(v: &Vec<char>, i: usize, w: &str) -> (r: Option<usize>)
    requires
        i <= v@.len(),
        w@.len() > 0,
        !is_space_char(w@[0]),
    ensures
        match r {
            Some(j) => {
                &&& gap1(v@, i as int, j as int)
                &&& word_at(v@, j as int, w@)
                &&& i < j && j + w@.len() <= v@.len()
                &&& forall|j2: int|
                    gap1(v@, i as int, j2) && #[trigger] word_at(v@, j2, w@) ==> j2 == j as int
            },
            None => forall|j2: int| !(gap1(v@, i as int, j2) && #[trigger] word_at(v@, j2, w@)),
        },
{
    let m = skip_spaces(v, i);
    if m > i && word_at_exec(v, m, w) {
        proof {
            assert(gap1(v@, i as int, m as int));
            assert forall|j2: int|
                gap1(v@, i as int, j2) && #[trigger] word_at(v@, j2, w@) implies j2 == m as int by {
                lemma_first_nonspace_target(v@, i as int, m as int, w@, j2);
            }
        }
        Some(m)
    } else {
        proof {
            assert forall|j2: int| !(gap1(v@, i as int, j2) && #[trigger] word_at(v@, j2, w@)) by {
                if gap1(v@, i as int, j2) && word_at(v@, j2, w@) {
                    lemma_first_nonspace_target(v@, i as int, m as int, w@, j2);
                    assert(j2 == m as int);
                    assert(m > i);
                    assert(false);
                }
            }
        }
        None
    }
}

/// Whether a whitespace run followed by a word character starts at `i`.
pub fn word_follows_exec(v: &Vec<char>, i: usize) -> (b: bool)
    requires
        i <= v@.len(),
    ensures
        b == word_follows(v@, i as int),
{
    let m = skip_spaces(v, i);
    if m > i && m < v.len() && word_char(v[m]) {
        assert(gap1(v@, i as int, m as int));
        true
    } else {
        proof {
            assert forall|j: int| !(gap1(v@, i as int, j) && j < v@.len() && is_word_char(v@[j])) by {
                if gap1(v@, i as int, j) && j < v@.len() && is_word_char(v@[j]) {
                    assert(!is_space_char(v@[j]));
                    if j < m {
                        assert(is_space_char(v@[j]));
                    } else if j > m {
                        assert(is_space_char(v@[m as int]));
                        assert(m < v@.len());
                    } else {
                        assert(m > i && m < v@.len() && is_word_char(v@[m as int]));
                    }
                    assert(false);
                }
            }
        }
        false
    }
}

/// Whether the two-word phrase `w0` whitespace `w1` starts at `i`.
pub fn phrase2_exec(v: &Vec<char>, i: usize, w0: &str, w1: &str) -> (b: bool)
    requires
        w1@.len() > 0,
        !is_space_char(w1@[0]),
    ensures
        b == phrase2_at(v@, i as int, w0@, w1@),
{
    if !word_at_exec(v, i, w0) {
        return false;
    }
    let n = v.len();
    let wn0 = w0.unicode_len();
    assert(i + wn0 <= n);
    let e = i + wn0;
    match seek_word(v, e, w1) {
        Some(_) => true,
        None => false,
    }
}

/// Whether the three-word phrase starts at `i`.
pub fn phrase3_exec(v: &Vec<char>, i: usize, w0: &str, w1: &str, w2: &str) -> (b: bool)
    requires
        w1@.len() > 0,
        !is_space_char(w1@[0]),
        w2@.len() > 0,
        !is_space_char(w2@[0]),
    ensures
        b == phrase3_at(v@, i as int, w0@, w1@, w2@),
{
    if !word_at_exec(v, i, w0) {
        return false;
    }
    let n = v.len();
    let wn0 = w0.unicode_len();
    assert(i + wn0 <= n);
    let e = i + wn0;
    match seek_word(v, e, w1) {
        Some(j1) => {
            let b = phrase2_exec(v, j1, w1, w2);
            proof {
                if b {
                    assert(gap1(v@, e as int, j1 as int) && phrase2_at(v@, j1 as int, w1@, w2@));
                } else {
                    assert forall|j: int|
                        !(gap1(v@, e as int, j) && #[trigger] phrase2_at(v@, j, w1@, w2@)) by {
                        if gap1(v@, e as int, j) && phrase2_at(v@, j, w1@, w2@) {
                            assert(word_at(v@, j, w1@));
                            assert(j == j1 as int);
                            assert(false);
                        }
                    }
                }
            }
            b
        },
        None => {
            proof {
                assert forall|j: int|
                    !(gap1(v@, e as int, j) && #[trigger] phrase2_at(v@, j, w1@, w2@)) by {
                    if gap1(v@, e as int, j) && phrase2_at(v@, j, w1@, w2@) {
                        assert(word_at(v@, j, w1@));
                        assert(false);
                    }
                }
            }
            false
        },
    }
}

/// Whether the four-word phrase starts at `i`.
pub fn phrase4_exec(v: &Vec<char>, i: usize, w0: &str, w1: &str, w2: &str, w3: &str) -> (b: bool)
    requires
        w1@.len() > 0,
        !is_space_char(w1@[0]),
        w2@.len() > 0,
        !is_space_char(w2@[0]),
        w3@.len() > 0,
        !is_space_char(w3@[0]),
    ensures
        b == phrase4_at(v@, i as int, w0@, w1@, w2@, w3@),
{
    if !word_at_exec(v, i, w0) {
        return false;
    }
    let n = v.len();
    let wn0 = w0.unicode_len();
    assert(i + wn0 <= n);
    let e = i + wn0;
    match seek_word(v, e, w1) {
        Some(j1) => {
            let b = phrase3_exec(v, j1, w1, w2, w3);
            proof {
                if b {
                    assert(gap1(v@, e as int, j1 as int) && phrase3_at(
                        v@,
                        j1 as int,
                        w1@,
                        w2@,
                        w3@,
                    ));
                } else {
                    assert forall|j: int|
                        !(gap1(v@, e as int, j) && #[trigger] phrase3_at(v@, j, w1@, w2@, w3@)) by {
                        if gap1(v@, e as int, j) && phrase3_at(v@, j, w1@, w2@, w3@) {
                            assert(word_at(v@, j, w1@));
                            assert(j == j1 as int);
                            assert(false);
                        }
                    }
                }
            }
            b
        },
        None => {
            proof {
                assert forall|j: int|
                    !(gap1(v@, e as int, j) && #[trigger] phrase3_at(v@, j, w1@, w2@, w3@)) by {
                    if gap1(v@, e as int, j) && phrase3_at(v@, j, w1@, w2@, w3@) {
                        assert(word_at(v@, j, w1@));
                        assert(false);
                    }
                }
            }
            false
        },
    }
}

} // verus!
