//! What counts as an absolute URL: a scheme, `://`, and an authority that is
//! not empty, with no blank and no control character anywhere.

use vstd::prelude::*;

use crate::text::{blank, control, has_blank, has_control, is_blank, is_control};

verus! {

/// An ASCII letter.
pub open spec fn is_letter(c: char) -> bool {
    (0x41 <= c as u32 && c as u32 <= 0x5a) || (0x61 <= c as u32 && c as u32 <= 0x7a)
}

/// A character that a scheme may hold: an ASCII letter or digit, `+`, `-`
/// or `.`.
pub open spec fn is_scheme_char(c: char) -> bool {
    is_letter(c) || (0x30 <= c as u32 && c as u32 <= 0x39) || c == '+' || c == '-' || c == '.'
}

/// A scheme: a letter, then any number of scheme characters.
pub open spec fn is_scheme(s: Seq<char>) -> bool {
    &&& s.len() > 0
    &&& is_letter(s[0])
    &&& forall|i: int| 0 <= i < s.len() ==> is_scheme_char(#[trigger] s[i])
}

/// A character that ends the authority of a URL.
pub open spec fn ends_authority(c: char) -> bool {
    c == '/' || c == '?' || c == '#'
}

/// Whether `s` splits after `k` characters into a scheme, `://` and an
/// authority of at least one character.
pub open spec fn splits_at(s: Seq<char>, k: int) -> bool {
    &&& 0 < k
    &&& k + 3 < s.len()
    &&& is_scheme(s.take(k))
    &&& s[k] == ':'
    &&& s[k + 1] == '/'
    &&& s[k + 2] == '/'
    &&& !ends_authority(s[k + 3])
}

/// An absolute URL: a scheme, `://`, an authority that is not empty, and
/// whatever follows it, with no blank and no control character anywhere.
/// No scheme is supplied where the text has none.
pub open spec fn is_absolute_url(s: Seq<char>) -> bool {
    &&& !has_blank(s)
    &&& !has_control(s)
    &&& exists|k: int| splits_at(s, k)
}

fn letter(c: char) -> (r: bool)
    ensures
        r == is_letter(c),
{
    let code: u32 = c as u32;
    (0x41 <= code && code <= 0x5a) || (0x61 <= code && code <= 0x7a)
}

fn scheme_char(c: char) -> (r: bool)
    ensures
        r == is_scheme_char(c),
{
    let code: u32 = c as u32;
    letter(c) || (0x30 <= code && code <= 0x39) || c == '+' || c == '-' || c == '.'
}

/// Where every character before `k` is a scheme character and the one at `k`,
/// if there is one, is not, `s` can split at `k` only.
proof fn lemma_splits_only_after_scheme(s: Seq<char>, k: int, j: int)
    requires
        0 <= k <= s.len(),
        forall|i: int| 0 <= i < k ==> is_scheme_char(#[trigger] s[i]),
        k < s.len() ==> !is_scheme_char(s[k]),
        splits_at(s, j),
    ensures
        j == k,
{
    assert(!is_scheme_char(':'));
    if j < k {
        assert(is_scheme_char(s[j]));
    } else if j > k {
        assert(s.take(j)[k] == s[k]);
    }
}

/// Whether `v` is an absolute URL.
pub fn absolute_url(v: &Vec<char>) -> (r: bool)
    ensures
        r == is_absolute_url(v@),
{
    let n = v.len();
    let mut k: usize = 0;
    while k < n && scheme_char(v[k])
        invariant
            n == v.len(),
            k <= n,
            forall|i: int| 0 <= i < k ==> is_scheme_char(#[trigger] v@[i]),
        decreases n - k,
    {
        k += 1;
    }
    proof {
        assert forall|j: int| splits_at(v@, j) implies j == k by {
            lemma_splits_only_after_scheme(v@, k as int, j);
        }
    }
    if k == 0 || n - k < 4 {
        return false;
    }
    if !letter(v[0]) {
        proof {
            assert(v@.take(k as int)[0] == v@[0]);
        }
        return false;
    }
    let next = v[k + 3];
    if v[k] != ':' || v[k + 1] != '/' || v[k + 2] != '/' || next == '/' || next == '?' || next
        == '#' {
        return false;
    }
    proof {
        assert(splits_at(v@, k as int));
    }
    let mut i: usize = 0;
    while i < n
        invariant
            n == v.len(),
            i <= n,
            forall|j: int| 0 <= j < i ==> !is_blank(#[trigger] v@[j]) && !is_control(v@[j]),
        decreases n - i,
    {
        if blank(v[i]) || control(v[i]) {
            return false;
        }
        i += 1;
    }
    true
}

} // verus!
