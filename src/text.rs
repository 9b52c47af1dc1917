use vstd::prelude::*;

verus! {

/// A character is an upper-case ASCII letter.
pub open spec fn is_ascii_upper(c: char) -> bool {
    65 <= c as u32 <= 90
}

/// Two characters are equal once ASCII letters are folded to lower case.
pub open spec fn char_eq_ignore_ascii_case(a: char, b: char) -> bool {
    a as u32 == b as u32 || (is_ascii_upper(a) && a as u32 + 32 == b as u32) || (is_ascii_upper(b) && b as u32
        + 32 == a as u32)
}

/// Two texts are equal once ASCII letters are folded to lower case.
pub open spec fn eq_ignore_ascii_case(a: Seq<char>, b: Seq<char>) -> bool {
    a.len() == b.len() && forall|i: int|
        0 <= i < a.len() ==> #[trigger] char_eq_ignore_ascii_case(a[i], b[i])
}

/// `needle` occurs in `s` starting at position `i`.
pub open spec fn occurs_at(s: Seq<char>, needle: Seq<char>, i: int) -> bool {
    0 <= i && i + needle.len() <= s.len() && s.subrange(i, i + needle.len()) == needle
}

/// `needle` occurs in `s` as a contiguous substring.
pub open spec fn contains(s: Seq<char>, needle: Seq<char>) -> bool {
    exists|i: int| occurs_at(s, needle, i)
}

/// Compares two characters, folding ASCII letters to lower case.
pub fn chars_eq_ignore_ascii_case(a: char, b: char) -> (r: bool)
    ensures
        r == char_eq_ignore_ascii_case(a, b),
{
    let x = a as u32;
    let y = b as u32;
    x == y || (65 <= x && x <= 90 && x + 32 == y) || (65 <= y && y <= 90 && y + 32 == x)
}

/// Compares two texts, folding ASCII letters to lower case.
pub fn str_eq_ignore_ascii_case(a: &str, b: &str) -> (r: bool)
    ensures
        r == eq_ignore_ascii_case(a@, b@),
{
    let n = a.unicode_len();
    if n != b.unicode_len() {
        return false;
    }
    let mut i: usize = 0;
    while i < n
        invariant
            n == a@.len() == b@.len(),
            i <= n,
            forall|j: int| 0 <= j < i ==> #[trigger] char_eq_ignore_ascii_case(a@[j], b@[j]),
        decreases n - i,
    {
        if !chars_eq_ignore_ascii_case(a.get_char(i), b.get_char(i)) {
            return false;
        }
        i = i + 1;
    }
    true
}

/// Compares two texts character by character.
pub fn str_eq(a: &str, b: &str) -> (r: bool)
    ensures
        r == (a@ == b@),
{
    let n = a.unicode_len();
    if n != b.unicode_len() {
        return false;
    }
    let mut i: usize = 0;
    while i < n
        invariant
            n == a@.len() == b@.len(),
            i <= n,
            forall|j: int| 0 <= j < i ==> a@[j] == b@[j],
        decreases n - i,
    {
        if a.get_char(i) != b.get_char(i) {
            return false;
        }
        i = i + 1;
    }
    assert(a@ =~= b@);
    true
}

/// Whether `needle` occurs in `s` at position `at`.
fn occurs_at_exec(s: &str, needle: &str, at: usize, n: usize, m: usize) -> (r: bool)
    requires
        n == s@.len(),
        m == needle@.len(),
        at + m <= n,
    ensures
        r == occurs_at(s@, needle@, at as int),
{
    let mut j: usize = 0;
    while j < m
        invariant
            n == s@.len(),
            m == needle@.len(),
            at + m <= n,
            j <= m,
            forall|k: int| 0 <= k < j ==> s@[at + k] == needle@[k],
        decreases m - j,
    {
        if s.get_char(at + j) != needle.get_char(j) {
            assert(s@.subrange(at as int, at + m)[j as int] != needle@[j as int]);
            return false;
        }
        j = j + 1;
    }
    assert(s@.subrange(at as int, at + m) =~= needle@);
    true
}

/// Whether `needle` occurs in `s` as a contiguous substring.
pub fn str_contains(s: &str, needle: &str) -> (r: bool)
    ensures
        r == contains(s@, needle@),
{
    let n = s.unicode_len();
    let m = needle.unicode_len();
    if m > n {
        assert(forall|i: int| !occurs_at(s@, needle@, i));
        return false;
    }
    let mut at: usize = 0;
    loop
        invariant
            n == s@.len(),
            m == needle@.len(),
            m <= n,
            at <= n - m,
            forall|i: int| 0 <= i < at ==> !occurs_at(s@, needle@, i),
        ensures
            forall|i: int| 0 <= i <= n - m ==> !occurs_at(s@, needle@, i),
        decreases n - m - at,
    {
        if occurs_at_exec(s, needle, at, n, m) {
            return true;
        }
        if at == n - m {
            break;
        }
        at = at + 1;
    }
    assert(forall|i: int| !occurs_at(s@, needle@, i));
    false
}

} // verus!
