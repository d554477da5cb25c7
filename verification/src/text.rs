//! Character classes and sequence-level text operations: splitting on a
//! separator, trimming whitespace, and substring search. The spec functions
//! here are the vocabulary in which the tag and listing contracts are stated.

use vstd::prelude::*;

verus! {

/// A character is an ASCII decimal digit.
pub open spec fn is_digit(c: char) -> bool {
    '0' <= c && c <= '9'
}

/// Numeric value of an ASCII decimal digit.
pub open spec fn digit_val(c: char) -> nat {
    (c as u32 - 48) as nat
}

/// A non-empty sequence of ASCII decimal digits.
pub open spec fn is_digit_seq(s: Seq<char>) -> bool {
    s.len() >= 1 && forall|i: int| 0 <= i < s.len() ==> is_digit(s[i])
}

/// Whether `c` is an ASCII decimal digit.
pub fn char_is_digit(c: char) -> (r: bool)
    ensures
        r == is_digit(c),
{
    '0' <= c && c <= '9'
}

/// Index of the first occurrence of `sep` in `s`, or -1 if `s` has none.
pub open spec fn first_index_of(s: Seq<char>, sep: char) -> int
    decreases s.len(),
{
    if s.len() == 0 {
        -1
    } else if s[0] == sep {
        0
    } else {
        let r = first_index_of(s.drop_first(), sep);
        if r < 0 {
            -1
        } else {
            r + 1
        }
    }
}

/// `first_index_of` points at the first `sep`, and is -1 exactly when
/// `s` contains no `sep`.
pub proof fn lemma_first_index_of(s: Seq<char>, sep: char)
    ensures
        -1 <= first_index_of(s, sep) < s.len(),
        first_index_of(s, sep) >= 0 ==> s[first_index_of(s, sep)] == sep,
        forall|j: int| 0 <= j < s.len() && s[j] == sep ==> first_index_of(s, sep) >= 0,
        forall|j: int| 0 <= j < first_index_of(s, sep) ==> s[j] != sep,
        first_index_of(s, sep) < 0 ==> forall|j: int| 0 <= j < s.len() ==> s[j] != sep,
    decreases s.len(),
{
    if s.len() == 0 {
    } else if s[0] == sep {
    } else {
        lemma_first_index_of(s.drop_first(), sep);
        assert forall|j: int| 0 <= j < s.len() && s[j] == sep implies first_index_of(s, sep)
            >= 0 by {
            if j > 0 {
                assert(s.drop_first()[j - 1] == sep);
            }
        }
        assert forall|j: int| 0 <= j < first_index_of(s, sep) implies s[j] != sep by {
            if j > 0 {
                assert(s[j] == s.drop_first()[j - 1]);
            }
        }
    }
}

/// Fields of `s` between occurrences of `sep`. Empty fields count, so the
/// result always holds exactly one more field than `s` has separators.
pub open spec fn split_on(s: Seq<char>, sep: char) -> Seq<Seq<char>>
    decreases s.len(),
{
    let i = first_index_of(s, sep);
    if 0 <= i < s.len() {
        seq![s.subrange(0, i)] + split_on(s.subrange(i + 1, s.len() as int), sep)
    } else {
        seq![s]
    }
}

pub proof fn lemma_split_on_len(s: Seq<char>, sep: char)
    ensures
        split_on(s, sep).len() >= 1,
    decreases s.len(),
{
    let i = first_index_of(s, sep);
    if 0 <= i < s.len() {
        lemma_split_on_len(s.subrange(i + 1, s.len() as int), sep);
    }
}

/// A sequence without the separator splits into itself alone.
pub proof fn lemma_split_on_sep_free(s: Seq<char>, sep: char)
    requires
        forall|j: int| 0 <= j < s.len() ==> s[j] != sep,
    ensures
        split_on(s, sep) == seq![s],
{
    lemma_first_index_of(s, sep);
}

/// If the split has a single field, that field is `s` itself and `s` holds
/// no separator.
pub proof fn lemma_split_on_single(s: Seq<char>, sep: char)
    requires
        split_on(s, sep).len() == 1,
    ensures
        split_on(s, sep) == seq![s],
        forall|j: int| 0 <= j < s.len() ==> s[j] != sep,
{
    lemma_first_index_of(s, sep);
    let i = first_index_of(s, sep);
    if 0 <= i < s.len() {
        lemma_split_on_len(s.subrange(i + 1, s.len() as int), sep);
        assert(split_on(s, sep).len() >= 2);
    }
}

/// Where the first separator of a concatenation falls when the left part is
/// separator-free.
pub proof fn lemma_first_index_of_concat(a: Seq<char>, b: Seq<char>, sep: char)
    requires
        forall|j: int| 0 <= j < a.len() ==> a[j] != sep,
    ensures
        first_index_of(a + b, sep) == if first_index_of(b, sep) < 0 {
            -1
        } else {
            a.len() + first_index_of(b, sep)
        },
    decreases a.len(),
{
    if a.len() == 0 {
        assert(a + b =~= b);
    } else {
        assert((a + b)[0] == a[0]);
        assert((a + b).drop_first() =~= a.drop_first() + b);
        lemma_first_index_of_concat(a.drop_first(), b, sep);
        lemma_first_index_of(b, sep);
    }
}

/// Splitting a separator-free prefix followed by a separator: the prefix is
/// the first field, and the rest splits on its own.
pub proof fn lemma_split_on_concat(a: Seq<char>, b: Seq<char>, sep: char)
    requires
        forall|j: int| 0 <= j < a.len() ==> a[j] != sep,
        b.len() >= 1,
        b[0] == sep,
    ensures
        split_on(a + b, sep) == seq![a] + split_on(b.subrange(1, b.len() as int), sep),
{
    lemma_first_index_of_concat(a, b, sep);
    let s = a + b;
    let i = first_index_of(s, sep);
    assert(i == a.len());
    assert(s.subrange(0, i) =~= a);
    assert(s.subrange(i + 1, s.len() as int) =~= b.subrange(1, b.len() as int));
}

/// Splits `s` into the fields between occurrences of `sep`.
pub fn split_str(s: &str, sep: char) -> (v: Vec<String>)
    ensures
        v.deep_view() == split_on(s@, sep),
{
    let n = s.unicode_len();
    let mut out: Vec<String> = Vec::new();
    let mut start: usize = 0;
    let mut i: usize = 0;
    proof {
        assert(s@.subrange(0, n as int) =~= s@);
        assert(out.deep_view() =~= Seq::<Seq<char>>::empty());
        assert(out.deep_view() + split_on(s@, sep) =~= split_on(s@, sep));
    }
    while i < n
        invariant
            start <= i <= n,
            n == s@.len(),
            forall|j: int| start <= j < i ==> s@[j] != sep,
            split_on(s@, sep) == out.deep_view() + split_on(
                s@.subrange(start as int, n as int),
                sep,
            ),
        decreases n - i,
    {
        if s.get_char(i) == sep {
            let piece = s.substring_char(start, i);
            let ghost prev = out.deep_view();
            out.push(String::from_str(piece));
            proof {
                let a = s@.subrange(start as int, i as int);
                let b = s@.subrange(i as int, n as int);
                assert(s@.subrange(start as int, n as int) =~= a + b);
                assert(b[0] == sep);
                lemma_split_on_concat(a, b, sep);
                assert(b.subrange(1, b.len() as int) =~= s@.subrange(i + 1, n as int));
                assert(out.deep_view() =~= prev.push(a));
                assert(out.deep_view() + split_on(s@.subrange(i + 1, n as int), sep) =~= prev + (
                seq![a] + split_on(s@.subrange(i + 1, n as int), sep)));
            }
            start = i + 1;
        }
        i += 1;
    }
    let piece = s.substring_char(start, n);
    let ghost prev = out.deep_view();
    out.push(String::from_str(piece));
    proof {
        let a = s@.subrange(start as int, n as int);
        lemma_split_on_sep_free(a, sep);
        assert(out.deep_view() =~= prev.push(a));
        assert(out.deep_view() =~= prev + seq![a]);
    }
    out
}

/// A whitespace character, as Rust's `char::is_whitespace` recognizes it:
/// the Unicode `White_Space` set.
pub open spec fn is_ws(c: char) -> bool {
    let u = c as u32;
    u == 9 || u == 10 || u == 11 || u == 12 || u == 13 || u == 32 || u == 0x85 || u == 0xA0 || u
        == 0x1680 || (0x2000 <= u && u <= 0x200A) || u == 0x2028 || u == 0x2029 || u == 0x202F || u
        == 0x205F || u == 0x3000
}

/// Whether `c` is a whitespace character.
pub fn char_is_ws(c: char) -> (r: bool)
    ensures
        r == is_ws(c),
{
    let u = c as u32;
    u == 9 || u == 10 || u == 11 || u == 12 || u == 13 || u == 32 || u == 0x85 || u == 0xA0 || u
        == 0x1680 || (0x2000 <= u && u <= 0x200A) || u == 0x2028 || u == 0x2029 || u == 0x202F || u
        == 0x205F || u == 0x3000
}

/// `s` with leading and trailing whitespace removed.
pub open spec fn trim_spec(s: Seq<char>) -> Seq<char>
    decreases s.len(),
{
    if s.len() > 0 && is_ws(s[0]) {
        trim_spec(s.drop_first())
    } else if s.len() > 0 && is_ws(s.last()) {
        trim_spec(s.drop_last())
    } else {
        s
    }
}

/// The trimmed sequence is the range between the first and the last
/// non-whitespace character.
pub proof fn lemma_trim_range(s: Seq<char>, a: int, b: int)
    requires
        0 <= a <= b <= s.len(),
        forall|j: int| 0 <= j < a ==> is_ws(s[j]),
        forall|j: int| b <= j < s.len() ==> is_ws(s[j]),
        a < b ==> !is_ws(s[a]) && !is_ws(s[b - 1]),
    ensures
        trim_spec(s) == s.subrange(a, b),
    decreases s.len(),
{
    if s.len() > 0 && is_ws(s[0]) {
        let t = s.drop_first();
        if a > 0 {
            lemma_trim_range(t, a - 1, b - 1);
            assert(t.subrange(a - 1, b - 1) =~= s.subrange(a, b));
        } else {
            // a == 0 and s[0] is whitespace, so a == b == 0.
            lemma_trim_range(t, 0, 0);
            assert(t.subrange(0, 0) =~= s.subrange(0, 0));
        }
    } else if s.len() > 0 && is_ws(s.last()) {
        let t = s.drop_last();
        if b < s.len() {
            lemma_trim_range(t, a, b);
            assert(t.subrange(a, b) =~= s.subrange(a, b));
        } else {
            // b == s.len() and the last character is whitespace, so a == b.
            assert(a < b ==> !is_ws(s[b - 1]));
            assert(a == b);
            lemma_trim_range(t, t.len() as int, t.len() as int);
            assert(t.subrange(t.len() as int, t.len() as int) =~= s.subrange(a, b));
        }
    } else {
        assert(s.subrange(a, b) =~= s);
    }
}

/// Removes leading and trailing whitespace.
pub fn trim_str<'a>(s: &'a str) -> (r: &'a str)
    ensures
        r@ == trim_spec(s@),
{
    let n = s.unicode_len();
    let mut a: usize = 0;
    while a < n && char_is_ws(s.get_char(a))
        invariant
            a <= n,
            n == s@.len(),
            forall|j: int| 0 <= j < a ==> is_ws(s@[j]),
        decreases n - a,
    {
        a += 1;
    }
    if a == n {
        let r = s.substring_char(n, n);
        proof {
            lemma_trim_range(s@, n as int, n as int);
        }
        return r;
    }
    let mut b: usize = n;
    while b > a && char_is_ws(s.get_char(b - 1))
        invariant
            a <= b <= n,
            n == s@.len(),
            forall|j: int| b <= j < s@.len() ==> is_ws(s@[j]),
        decreases b,
    {
        b -= 1;
    }
    // a points at a non-whitespace character, so the scan from the right
    // stopped at some b > a with s[b - 1] non-whitespace.
    let r = s.substring_char(a, b);
    proof {
        lemma_trim_range(s@, a as int, b as int);
    }
    r
}

/// `pat` occurs in `s` starting at index `i`.
pub open spec fn matches_at(s: Seq<char>, pat: Seq<char>, i: int) -> bool {
    0 <= i && i + pat.len() <= s.len() && s.subrange(i, i + pat.len() as int) == pat
}

/// `pat` occurs somewhere in `s`.
pub open spec fn contains_seq(s: Seq<char>, pat: Seq<char>) -> bool {
    exists|i: int| matches_at(s, pat, i)
}

/// Whether `pat` occurs in `s` as a contiguous substring.
pub fn str_contains(s: &str, pat: &str) -> (r: bool)
    ensures
        r == contains_seq(s@, pat@),
{
    let n = s.unicode_len();
    let m = pat.unicode_len();
    if m > n {
        proof {
            assert forall|i: int| !matches_at(s@, pat@, i) by {}
        }
        return false;
    }
    let mut i: usize = 0;
    while i <= n - m
        invariant
            m <= n,
            n == s@.len(),
            m == pat@.len(),
            i <= n - m + 1,
            forall|k: int| 0 <= k < i ==> !matches_at(s@, pat@, k),
        decreases n + 1 - i,
    {
        let mut j: usize = 0;
        let mut mismatch = false;
        while j < m
            invariant
                m <= n,
                n == s@.len(),
                m == pat@.len(),
                i <= n - m,
                j <= m,
                !mismatch ==> forall|t: int| 0 <= t < j ==> s@[i + t] == pat@[t],
                mismatch ==> !matches_at(s@, pat@, i as int) && m >= 1,
            ensures
                mismatch ==> !matches_at(s@, pat@, i as int) && m >= 1,
                !mismatch ==> forall|t: int| 0 <= t < m ==> s@[i + t] == pat@[t],
            decreases m - j,
        {
            if s.get_char(i + j) != pat.get_char(j) {
                proof {
                    if matches_at(s@, pat@, i as int) {
                        assert(s@.subrange(i as int, i + m as int)[j as int] == pat@[j as int]);
                    }
                }
                mismatch = true;
                break;
            }
            j += 1;
        }
        if !mismatch {
            proof {
                assert(s@.subrange(i as int, i + m as int) =~= pat@);
                assert(matches_at(s@, pat@, i as int));
            }
            return true;
        }
        i += 1;
    }
    proof {
        assert forall|k: int| !matches_at(s@, pat@, k) by {
            if 0 <= k < i {
            }
        }
    }
    false
}

/// Whether the character `c` occurs in `s`.
pub fn str_contains_char(s: &str, c: char) -> (r: bool)
    ensures
        r == s@.contains(c),
{
    let n = s.unicode_len();
    let mut i: usize = 0;
    while i < n
        invariant
            i <= n,
            n == s@.len(),
            forall|j: int| 0 <= j < i ==> s@[j] != c,
        decreases n - i,
    {
        if s.get_char(i) == c {
            return true;
        }
        i += 1;
    }
    proof {
        assert forall|j: int| 0 <= j < s@.len() implies s@[j] != c by {}
    }
    false
}

/// Whether `s` is a non-empty string of ASCII decimal digits.
pub fn str_is_digit_seq(s: &str) -> (r: bool)
    ensures
        r == is_digit_seq(s@),
{
    let n = s.unicode_len();
    if n == 0 {
        return false;
    }
    let mut i: usize = 0;
    while i < n
        invariant
            i <= n,
            n == s@.len(),
            forall|j: int| 0 <= j < i ==> is_digit(s@[j]),
        decreases n - i,
    {
        if !char_is_digit(s.get_char(i)) {
            return false;
        }
        i += 1;
    }
    true
}

} // verus!
