//! Verified text utilities: prefix/suffix tests, substring search, splitting
//! on a separator, and ASCII lowercasing, each pinned to a spec-level model
//! over `Seq<char>`.

use vstd::prelude::*;
use vstd::string::StrSliceExecFns;

verus! {

/// `pre` is a prefix of `s`.
pub open spec fn is_prefix_of(pre: Seq<char>, s: Seq<char>) -> bool {
    pre.len() <= s.len() && s.subrange(0, pre.len() as int) == pre
}

/// `suf` is a suffix of `s`.
pub open spec fn is_suffix_of(suf: Seq<char>, s: Seq<char>) -> bool {
    suf.len() <= s.len() && s.subrange(s.len() - suf.len(), s.len() as int) == suf
}

/// `pat` occurs in `s` starting at position `i`.
pub open spec fn occurs_at(s: Seq<char>, pat: Seq<char>, i: int) -> bool {
    0 <= i && i + pat.len() <= s.len() && s.subrange(i, i + pat.len()) == pat
}

/// Position of the leftmost occurrence of `pat` in `s`, if any.
/// An empty pattern occurs at position 0.
pub open spec fn spec_find(s: Seq<char>, pat: Seq<char>) -> Option<int>
    decreases s.len(),
{
    if pat.len() > s.len() {
        None
    } else if s.subrange(0, pat.len() as int) == pat {
        Some(0int)
    } else if s.len() == 0 {
        None
    } else {
        match spec_find(s.subrange(1, s.len() as int), pat) {
            Some(i) => Some(i + 1),
            None => None,
        }
    }
}

/// `spec_find` returns exactly the leftmost occurrence: a `Some(i)` is an
/// occurrence with none before it, and a `None` means no occurrence at all.
pub proof fn lemma_find_first(s: Seq<char>, pat: Seq<char>)
    ensures
        match spec_find(s, pat) {
            Some(i) => occurs_at(s, pat, i) && (forall|j: int|
                0 <= j < i ==> !occurs_at(s, pat, j)),
            None => forall|j: int| !occurs_at(s, pat, j),
        },
    decreases s.len(),
{
    if pat.len() > s.len() {
        assert forall|j: int| !occurs_at(s, pat, j) by {}
    } else if s.subrange(0, pat.len() as int) == pat {
        assert(occurs_at(s, pat, 0));
    } else if s.len() == 0 {
        assert forall|j: int| !occurs_at(s, pat, j) by {
            if occurs_at(s, pat, j) {
                assert(s.subrange(j, j + pat.len() as int) == pat);
                assert(pat.len() == 0);
                assert(s.subrange(0, pat.len() as int) =~= pat);
            }
        }
    } else {
        let tail = s.subrange(1, s.len() as int);
        lemma_find_first(tail, pat);
        // an occurrence in s at j >= 1 is an occurrence in tail at j - 1
        assert forall|j: int| 1 <= j implies occurs_at(s, pat, j) == occurs_at(
            tail,
            pat,
            j - 1,
        ) by {
            if j + pat.len() <= s.len() {
                assert(tail.subrange(j - 1, j - 1 + pat.len() as int) =~= s.subrange(
                    j,
                    j + pat.len() as int,
                ));
            }
        }
        match spec_find(tail, pat) {
            Some(i) => {
                assert(spec_find(s, pat) == Some(i + 1));
                assert(occurs_at(s, pat, i + 1));
                assert forall|j: int| 0 <= j < i + 1 implies !occurs_at(s, pat, j) by {
                    if j == 0 {
                        if occurs_at(s, pat, 0) {
                            assert(s.subrange(0, pat.len() as int) == pat);
                        }
                    }
                }
            },
            None => {
                assert forall|j: int| !occurs_at(s, pat, j) by {
                    if occurs_at(s, pat, j) {
                        if j == 0 {
                            assert(s.subrange(0, pat.len() as int) == pat);
                        }
                    }
                }
            },
        }
    }
}

/// Compares `pat` against the characters of `s` starting at position `i`.
fn matches_at(s: &str, i: usize, pat: &str) -> (r: bool)
    requires
        i + pat@.len() <= s@.len(),
        s@.len() <= usize::MAX,
    ensures
        r == occurs_at(s@, pat@, i as int),
{
    let n = pat.unicode_len();
    let mut k: usize = 0;
    while k < n
        invariant
            n == pat@.len(),
            i + n <= s@.len() <= usize::MAX,
            0 <= k <= n,
            forall|m: int| 0 <= m < k ==> s@[i + m] == pat@[m],
        decreases n - k,
    {
        if s.get_char(i + k) != pat.get_char(k) {
            proof {
                if occurs_at(s@, pat@, i as int) {
                    assert(s@.subrange(i as int, i + n as int)[k as int] == pat@[k as int]);
                }
            }
            return false;
        }
        k += 1;
    }
    proof {
        assert(s@.subrange(i as int, i + n as int) =~= pat@);
    }
    true
}

/// `s` starts with `pre`.
pub fn starts_with_str(s: &str, pre: &str) -> (r: bool)
    ensures
        r == is_prefix_of(pre@, s@),
{
    let n = pre.unicode_len();
    let m = s.unicode_len();
    if n > m {
        false
    } else {
        let r = matches_at(s, 0, pre);
        r
    }
}

/// `s` ends with `suf`.
pub fn ends_with_str(s: &str, suf: &str) -> (r: bool)
    ensures
        r == is_suffix_of(suf@, s@),
{
    let n = suf.unicode_len();
    let m = s.unicode_len();
    if n > m {
        false
    } else {
        let r = matches_at(s, m - n, suf);
        r
    }
}

/// The two strings hold the same characters.
pub fn str_eq(a: &str, b: &str) -> (r: bool)
    ensures
        r == (a@ == b@),
{
    let n = a.unicode_len();
    let m = b.unicode_len();
    if n != m {
        false
    } else {
        let r = matches_at(a, 0, b);
        proof {
            assert(a@.subrange(0, n as int) =~= a@);
        }
        r
    }
}

/// Position of the leftmost occurrence of `pat` in `s`, if any.
pub fn find_str(s: &str, pat: &str) -> (r: Option<usize>)
    ensures
        match r {
            Some(i) => spec_find(s@, pat@) == Some(i as int),
            None => spec_find(s@, pat@) is None,
        },
{
    proof {
        lemma_find_first(s@, pat@);
    }
    let m = s.unicode_len();
    let n = pat.unicode_len();
    if n > m {
        return None;
    }
    if n == 0 {
        proof {
            assert(s@.subrange(0, 0) =~= pat@);
            assert(occurs_at(s@, pat@, 0));
        }
        return Some(0);
    }
    let mut i: usize = 0;
    while i <= m - n
        invariant
            n == pat@.len(),
            m == s@.len(),
            0 < n <= m,
            0 <= i <= m - n + 1,
            forall|j: int| 0 <= j < i ==> !occurs_at(s@, pat@, j),
        decreases m + 1 - n - i,
    {
        if matches_at(s, i, pat) {
            proof {
                lemma_find_first(s@, pat@);
            }
            return Some(i);
        }
        i += 1;
    }
    None
}

/// The parts of `s` split on the separator `sep`, leftmost-first and
/// non-overlapping; a string with no occurrence of `sep` is one part.
pub open spec fn spec_split(s: Seq<char>, sep: Seq<char>) -> Seq<Seq<char>>
    decreases s.len(),
    via spec_split_decreases
{
    if sep.len() == 0 {
        seq![s]
    } else {
        match spec_find(s, sep) {
            Some(i) => seq![s.subrange(0, i)] + spec_split(
                s.subrange(i + sep.len() as int, s.len() as int),
                sep,
            ),
            None => seq![s],
        }
    }
}

#[via_fn]
proof fn spec_split_decreases(s: Seq<char>, sep: Seq<char>) {
    lemma_find_first(s, sep);
}

/// Splits `s` on the separator `sep`.
pub fn split_str(s: &str, sep: &str) -> (r: Vec<String>)
    requires
        sep@.len() > 0,
    ensures
        r.deep_view() == spec_split(s@, sep@),
{
    let ghost full: Seq<char> = s@;
    let mut parts: Vec<String> = Vec::new();
    let mut rem: String = s.to_owned();
    let sep_len = sep.unicode_len();
    loop
        invariant_except_break
            sep_len == sep@.len(),
            sep@.len() > 0,
            spec_split(full, sep@) =~= parts.deep_view() + spec_split(rem@, sep@),
        ensures
            parts.deep_view() =~= spec_split(full, sep@),
        decreases rem@.len(),
    {
        proof {
            lemma_find_first(rem@, sep@);
        }
        let ghost before = parts.deep_view();
        let ghost rem_view = rem@;
        match find_str(rem.as_str(), sep) {
            Some(i) => {
                let rl = rem.as_str().unicode_len();
                let head = rem.as_str().substring_char(0, i).to_owned();
                let tail = rem.as_str().substring_char(i + sep_len, rl).to_owned();
                parts.push(head);
                rem = tail;
                proof {
                    assert(parts.deep_view() =~= before.push(rem_view.subrange(0, i as int)));
                    assert(parts.deep_view() + spec_split(rem@, sep@) =~= before + spec_split(
                        rem_view,
                        sep@,
                    ));
                }
            },
            None => {
                parts.push(rem);
                proof {
                    assert(parts.deep_view() =~= before.push(rem_view));
                    assert(parts.deep_view() =~= before + spec_split(rem_view, sep@));
                }
                break ;
            },
        }
    }
    parts
}

/// The ASCII lowercase of a character: the letters 'A' to 'Z' map to
/// 'a' to 'z'; every other character is unchanged.
pub open spec fn lower_char(c: char) -> char {
    if 'A' <= c && c <= 'Z' {
        ((c as u32) + 32) as char
    } else {
        c
    }
}

/// The ASCII lowercase of a character sequence.
pub open spec fn lower_seq(s: Seq<char>) -> Seq<char> {
    s.map_values(|c: char| lower_char(c))
}

/// Relies on str::to_ascii_lowercase: ASCII uppercase letters are replaced
/// by their lowercase counterparts and all other characters are unchanged,
/// so the result is the character-wise ASCII lowercase of the input.
#[verifier::external_body]
pub fn lower_str(s: &str) -> (r: String)
    ensures
        r@ == lower_seq(s@),
{
    s.to_ascii_lowercase()
}

} // verus!
