//! Byte-level scanning of shader source text.
//!
//! The modeled device decides two questions about a source string: whether
//! it compiles (its braces must balance and never dip below the surrounding
//! level), and whether a given identifier is active in it (the identifier
//! must occur as a whole word).  Both questions are answered over the
//! UTF-8 bytes of the source.

use vstd::prelude::*;

verus! {

/// Bytes that may be part of an identifier word: ASCII letters, digits
/// and underscore.
pub open spec fn is_word_byte(b: u8) -> bool {
    (97 <= b <= 122)  // a-z
    || (65 <= b <= 90)  // A-Z
    || (48 <= b <= 57)  // 0-9
    || b == 95  // underscore
}

/// Exec mirror of `is_word_byte`.
fn word_byte(b: u8) -> (r: bool)
    ensures
        r == is_word_byte(b),
{
    (97 <= b && b <= 122) || (65 <= b && b <= 90) || (48 <= b && b <= 57) || b == 95
}

/// `w` occurs at position `k` of `s` as a whole word: the bytes match and
/// the occurrence is not glued to word bytes on either side.
pub open spec fn word_at(s: Seq<u8>, w: Seq<u8>, k: int) -> bool {
    &&& w.len() > 0
    &&& 0 <= k
    &&& k + w.len() <= s.len()
    &&& s.subrange(k, k + w.len()) == w
    &&& (k == 0 || !is_word_byte(s[k - 1]))
    &&& (k + w.len() == s.len() || !is_word_byte(s[k + w.len()]))
}

/// `w` occurs somewhere in `s` as a whole word.
pub open spec fn has_word(s: Seq<u8>, w: Seq<u8>) -> bool {
    exists|k: int| word_at(s, w, k)
}

/// Decides whether `w` matches the bytes of `s` starting at `k`.
fn bytes_match_at(s: &[u8], w: &[u8], k: usize) -> (r: bool)
    requires
        k + w@.len() <= s@.len(),
    ensures
        r == (s@.subrange(k as int, k + w@.len()) == w@),
{
    let n = w.len();
    let sn = s.len();
    let mut i: usize = 0;
    while i < n
        invariant
            n == w@.len(),
            sn == s@.len(),
            k + n <= s@.len(),
            i <= n,
            forall|j: int| 0 <= j < i ==> s@[k + j] == w@[j],
        decreases n - i,
    {
        if s[k + i] != w[i] {
            proof {
                assert(s@.subrange(k as int, k + w@.len())[i as int] == s@[k + i]);
            }
            return false;
        }
        i += 1;
    }
    proof {
        assert(s@.subrange(k as int, k + w@.len()) =~= w@);
    }
    true
}

/// The position of the first whole-word occurrence of `w` in `s`,
/// meaningful only when `has_word(s, w)`.
pub open spec fn first_word_pos(s: Seq<u8>, w: Seq<u8>) -> int {
    choose|k: int| word_at(s, w, k) && (forall|j: int| 0 <= j < k ==> !word_at(s, w, j))
}

proof fn lemma_word_at_minimal(s: Seq<u8>, w: Seq<u8>, k: int)
    requires
        word_at(s, w, k),
    ensures
        exists|m: int| word_at(s, w, m) && (forall|j: int| 0 <= j < m ==> !word_at(s, w, j)),
    decreases k,
{
    if forall|j: int| 0 <= j < k ==> !word_at(s, w, j) {
        assert(word_at(s, w, k) && (forall|j: int| 0 <= j < k ==> !word_at(s, w, j)));
    } else {
        let j = choose|j: int| 0 <= j < k && word_at(s, w, j);
        lemma_word_at_minimal(s, w, j);
    }
}

/// When `w` occurs at all, `first_word_pos` is its least occurrence.
pub proof fn lemma_first_word_pos(s: Seq<u8>, w: Seq<u8>)
    requires
        has_word(s, w),
    ensures
        word_at(s, w, first_word_pos(s, w)),
        first_word_pos(s, w) >= 0,
        forall|j: int| 0 <= j < first_word_pos(s, w) ==> !word_at(s, w, j),
{
    let k = choose|k: int| word_at(s, w, k);
    lemma_word_at_minimal(s, w, k);
    let m = choose|m: int|
        word_at(s, w, m) && (forall|j: int| 0 <= j < m ==> !word_at(s, w, j));
    assert(word_at(s, w, m) && (forall|j: int| 0 <= j < m ==> !word_at(s, w, j)));
}

/// Finds the position of the first whole-word occurrence of `w` in `s`.
pub fn find_word(s: &[u8], w: &[u8]) -> (r: Option<usize>)
    ensures
        match r {
            Some(k) => has_word(s@, w@) && k == first_word_pos(s@, w@)
                && word_at(s@, w@, k as int) && k < s@.len(),
            None => !has_word(s@, w@),
        },
{
    let wn = w.len();
    let sn = s.len();
    if wn == 0 || wn > sn {
        proof {
            if has_word(s@, w@) {
                let k = choose|k: int| word_at(s@, w@, k);
                assert(w@.len() > 0 && k + w@.len() <= s@.len());
            }
        }
        return None;
    }
    let last = sn - wn;
    let mut k: usize = 0;
    loop
        invariant
            wn == w@.len(),
            sn == s@.len(),
            0 < wn <= sn,
            last == sn - wn,
            k <= last + 1,
            forall|j: int| 0 <= j < k ==> !word_at(s@, w@, j),
        decreases last + 1 - k,
    {
        if k > last {
            proof {
                if has_word(s@, w@) {
                    let j = choose|j: int| word_at(s@, w@, j);
                    assert(j + w@.len() <= s@.len());
                    assert(!word_at(s@, w@, j));
                }
            }
            return None;
        }
        let matched = bytes_match_at(s, w, k);
        if matched {
            let left_free = k == 0 || !word_byte(s[k - 1]);
            let right_free = k + wn == sn || !word_byte(s[k + wn]);
            if left_free && right_free {
                proof {
                    assert(word_at(s@, w@, k as int));
                    let p = first_word_pos(s@, w@);
                    assert(word_at(s@, w@, k as int)
                        && (forall|j: int| 0 <= j < k ==> !word_at(s@, w@, j)));
                    assert(word_at(s@, w@, p)
                        && (forall|j: int| 0 <= j < p ==> !word_at(s@, w@, j)));
                    if p < k {
                        assert(!word_at(s@, w@, p));
                    }
                    if k < p {
                        assert(!word_at(s@, w@, k as int));
                    }
                }
                return Some(k);
            }
        }
        proof {
            assert(!word_at(s@, w@, k as int));
        }
        k += 1;
    }
}

/// Decides whether `w` occurs in `s` as a whole word.
pub fn contains_word(s: &[u8], w: &[u8]) -> (r: bool)
    ensures
        r == has_word(s@, w@),
{
    find_word(s, w).is_some()
}

/// The brace-nesting depth after the first `i` bytes of `s`.
pub open spec fn brace_depth(s: Seq<u8>, i: int) -> int
    decreases i,
{
    if i <= 0 {
        0
    } else {
        brace_depth(s, i - 1) + if s[i - 1] == 123 {
            1int
        } else if s[i - 1] == 125 {
            -1int
        } else {
            0int
        }
    }
}

/// The braces of `s` balance: the depth never dips below zero and ends
/// at zero.  This is the modeled compiler's acceptance rule.
pub open spec fn braces_balanced(s: Seq<u8>) -> bool {
    &&& brace_depth(s, s.len() as int) == 0
    &&& forall|i: int| 0 <= i <= s.len() ==> brace_depth(s, i) >= 0
}

/// Decides whether the braces of `s` balance.
pub fn check_braces(s: &[u8]) -> (r: bool)
    ensures
        r == braces_balanced(s@),
{
    let n = s.len();
    let mut depth: usize = 0;
    let mut i: usize = 0;
    while i < n
        invariant
            n == s@.len(),
            i <= n,
            depth == brace_depth(s@, i as int),
            depth <= i,
            forall|j: int| 0 <= j <= i ==> brace_depth(s@, j) >= 0,
        decreases n - i,
    {
        let b = s[i];
        if b == 123 {
            depth += 1;
        } else if b == 125 {
            if depth == 0 {
                proof {
                    assert(brace_depth(s@, i + 1) < 0);
                }
                return false;
            }
            depth -= 1;
        }
        i += 1;
    }
    depth == 0
}

} // verus!
