//! Verified text utilities: equality and substring search over the
//! character sequences that string views denote.
use vstd::prelude::*;

verus! {

/// Whether the needle `n` occurs in the haystack `h` starting at index `i`.
pub open spec fn match_at(h: Seq<char>, n: Seq<char>, i: int) -> bool {
    &&& 0 <= i
    &&& i + n.len() <= h.len()
    &&& forall|j: int| 0 <= j < n.len() ==> #[trigger] h[i + j] == n[j]
}

/// Whether the needle `n` occurs anywhere in the haystack `h`.
pub open spec fn contains_seq(h: Seq<char>, n: Seq<char>) -> bool {
    exists|i: int| match_at(h, n, i)
}

/// Whether the needle occurs in the haystack exactly at index `i`.
fn matches_here(haystack: &str, needle: &str, i: usize) -> (r: bool)
    requires
        i + needle@.len() <= haystack@.len(),
        haystack@.len() <= usize::MAX,
    ensures
        r == match_at(haystack@, needle@, i as int),
{
    let nl = needle.unicode_len();
    let mut k: usize = 0;
    while k < nl
        invariant
            nl == needle@.len(),
            i + nl <= haystack@.len(),
            haystack@.len() <= usize::MAX,
            k <= nl,
            forall|j: int| 0 <= j < k ==> #[trigger] haystack@[i + j] == needle@[j],
        decreases nl - k,
    {
        if haystack.get_char(i + k) != needle.get_char(k) {
            assert(haystack@[i as int + k as int] != needle@[k as int]);
            return false;
        }
        k = k + 1;
    }
    true
}

/// Substring search: whether `needle` occurs contiguously in `haystack`.
pub fn contains_substring(haystack: &str, needle: &str) -> (r: bool)
    ensures
        r == contains_seq(haystack@, needle@),
{
    let hl = haystack.unicode_len();
    let nl = needle.unicode_len();
    if nl > hl {
        assert(forall|i: int| !match_at(haystack@, needle@, i));
        return false;
    }
    let mut i: usize = 0;
    while i <= hl - nl
        invariant
            hl == haystack@.len(),
            nl == needle@.len(),
            nl <= hl,
            i <= hl - nl + 1,
            forall|x: int| 0 <= x < i ==> !match_at(haystack@, needle@, x),
        decreases hl - i,
    {
        if matches_here(haystack, needle, i) {
            return true;
        }
        i = i + 1;
    }
    assert forall|x: int| !match_at(haystack@, needle@, x) by {
        if 0 <= x < i {
        } else if x >= i {
            assert(x + nl > hl);
        }
    }
    false
}

/// String slice equality, stated over the views.
pub fn str_eq(a: &str, b: &str) -> (r: bool)
    ensures
        r == (a@ == b@),
{
    let al = a.unicode_len();
    let bl = b.unicode_len();
    if al != bl {
        return false;
    }
    let mut i: usize = 0;
    while i < al
        invariant
            al == a@.len(),
            al == b@.len(),
            i <= al,
            forall|j: int| 0 <= j < i ==> #[trigger] a@[j] == b@[j],
        decreases al - i,
    {
        if a.get_char(i) != b.get_char(i) {
            assert(a@[i as int] != b@[i as int]);
            return false;
        }
        i = i + 1;
    }
    proof {
        assert(a@ =~= b@);
    }
    true
}


/// Whether a haystack character matches a needle character up to ASCII
/// case: equal outright, or an upper-case letter matching its lower-case
/// form (the needle is expected in lower case).
pub open spec fn chars_equal_ci(h: char, n: char) -> bool {
    h == n || ('A' <= h && h <= 'Z' && h as u32 + 32 == n as u32)
}

/// Whether the needle occurs in the haystack at index `i`, up to ASCII
/// case in the haystack.
pub open spec fn match_at_ci(h: Seq<char>, n: Seq<char>, i: int) -> bool {
    &&& 0 <= i
    &&& i + n.len() <= h.len()
    &&& forall|j: int| 0 <= j < n.len() ==> #[trigger] chars_equal_ci(h[i + j], n[j])
}

/// Whether the needle occurs anywhere in the haystack, up to ASCII case
/// in the haystack.
pub open spec fn contains_seq_ci(h: Seq<char>, n: Seq<char>) -> bool {
    exists|i: int| match_at_ci(h, n, i)
}

/// Whether the needle occurs in the haystack exactly at index `i`, up to
/// ASCII case in the haystack.
fn matches_here_ci(haystack: &str, needle: &str, i: usize) -> (r: bool)
    requires
        i + needle@.len() <= haystack@.len(),
        haystack@.len() <= usize::MAX,
    ensures
        r == match_at_ci(haystack@, needle@, i as int),
{
    let nl = needle.unicode_len();
    let mut k: usize = 0;
    while k < nl
        invariant
            nl == needle@.len(),
            i + nl <= haystack@.len(),
            haystack@.len() <= usize::MAX,
            k <= nl,
            forall|j: int| 0 <= j < k ==> #[trigger] chars_equal_ci(haystack@[i + j], needle@[j]),
        decreases nl - k,
    {
        let hc = haystack.get_char(i + k);
        let nc = needle.get_char(k);
        let same = hc == nc || (hc >= 'A' && hc <= 'Z' && (hc as u32) + 32 == nc as u32);
        if !same {
            assert(!chars_equal_ci(haystack@[i as int + k as int], needle@[k as int]));
            return false;
        }
        k = k + 1;
    }
    true
}

/// Substring search up to ASCII case in the haystack: whether the
/// lower-case needle occurs contiguously in the haystack, however the
/// haystack cases its letters.
pub fn contains_substring_ci(haystack: &str, needle: &str) -> (r: bool)
    ensures
        r == contains_seq_ci(haystack@, needle@),
{
    let hl = haystack.unicode_len();
    let nl = needle.unicode_len();
    if nl > hl {
        assert(forall|i: int| !match_at_ci(haystack@, needle@, i));
        return false;
    }
    let mut i: usize = 0;
    while i <= hl - nl
        invariant
            hl == haystack@.len(),
            nl == needle@.len(),
            nl <= hl,
            i <= hl - nl + 1,
            forall|x: int| 0 <= x < i ==> !match_at_ci(haystack@, needle@, x),
        decreases hl - i,
    {
        if matches_here_ci(haystack, needle, i) {
            return true;
        }
        i = i + 1;
    }
    assert forall|x: int| !match_at_ci(haystack@, needle@, x) by {
        if 0 <= x < i {
        } else if x >= i {
            assert(x + nl > hl);
        }
    }
    false
}


/// Whether a character is an ASCII hexadecimal digit.
pub open spec fn spec_is_hex_digit(c: char) -> bool {
    ('0' <= c && c <= '9') || ('a' <= c && c <= 'f') || ('A' <= c && c <= 'F')
}

/// Whether an id has the hyphenated textual form of a UUID: thirty-six
/// characters, hyphens at the four canonical positions, and hexadecimal
/// digits everywhere else.
pub open spec fn spec_is_hyphenated_uuid(s: Seq<char>) -> bool {
    &&& s.len() == 36
    &&& forall|i: int|
        0 <= i < 36 ==> (if i == 8 || i == 13 || i == 18 || i == 23 {
            #[trigger] s[i] == '-'
        } else {
            spec_is_hex_digit(s[i])
        })
}

/// Whether an id has the simple textual form of a UUID: thirty-two
/// hexadecimal digits.
pub open spec fn spec_is_simple_uuid(s: Seq<char>) -> bool {
    &&& s.len() == 32
    &&& forall|i: int| 0 <= i < 32 ==> spec_is_hex_digit(#[trigger] s[i])
}

/// Whether an id has one of the two canonical textual forms of a UUID:
/// hyphenated or simple.
pub open spec fn spec_is_uuid_shaped(s: Seq<char>) -> bool {
    spec_is_hyphenated_uuid(s) || spec_is_simple_uuid(s)
}

/// Check whether an id has the hyphenated or the simple UUID form.
pub fn is_uuid_shaped(s: &str) -> (r: bool)
    ensures
        r == spec_is_uuid_shaped(s@),
{
    let n = s.unicode_len();
    if n == 36 {
        let mut i: usize = 0;
        while i < 36
            invariant
                s@.len() == 36,
                i <= 36,
                forall|j: int|
                    0 <= j < i ==> (if j == 8 || j == 13 || j == 18 || j == 23 {
                        #[trigger] s@[j] == '-'
                    } else {
                        spec_is_hex_digit(s@[j])
                    }),
            decreases 36 - i,
        {
            let c = s.get_char(i);
            let ok = if i == 8 || i == 13 || i == 18 || i == 23 {
                c == '-'
            } else {
                ('0' <= c && c <= '9') || ('a' <= c && c <= 'f') || ('A' <= c && c <= 'F')
            };
            if !ok {
                return false;
            }
            i = i + 1;
        }
        true
    } else if n == 32 {
        let mut i: usize = 0;
        while i < 32
            invariant
                s@.len() == 32,
                i <= 32,
                forall|j: int| 0 <= j < i ==> spec_is_hex_digit(#[trigger] s@[j]),
            decreases 32 - i,
        {
            let c = s.get_char(i);
            if !(('0' <= c && c <= '9') || ('a' <= c && c <= 'f') || ('A' <= c && c <= 'F')) {
                return false;
            }
            i = i + 1;
        }
        true
    } else {
        false
    }
}

} // verus!
