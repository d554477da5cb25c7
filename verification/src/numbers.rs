//! Decimal numerals: the value of a digit string, the canonical decimal
//! representation of a number, and the executable conversions between them.

use vstd::prelude::*;
use vstd::arithmetic::div_mod::lemma_fundamental_div_mod;
use crate::text::{is_digit, digit_val, is_digit_seq, char_is_digit};

verus! {

/// Value of a string of ASCII digits, read in base 10.
pub open spec fn digits_val(s: Seq<char>) -> nat
    decreases s.len(),
{
    if s.len() == 0 {
        0
    } else {
        digits_val(s.drop_last()) * 10 + digit_val(s.last())
    }
}

/// The digit character for a value below ten.
pub open spec fn digit_char(n: nat) -> char {
    if n == 0 {
        '0'
    } else if n == 1 {
        '1'
    } else if n == 2 {
        '2'
    } else if n == 3 {
        '3'
    } else if n == 4 {
        '4'
    } else if n == 5 {
        '5'
    } else if n == 6 {
        '6'
    } else if n == 7 {
        '7'
    } else if n == 8 {
        '8'
    } else {
        '9'
    }
}

/// Canonical decimal representation of `n`: no sign, no leading zeros
/// (except for `n == 0` itself).
pub open spec fn dec_digits(n: nat) -> Seq<char>
    decreases n,
{
    if n < 10 {
        seq![digit_char(n)]
    } else {
        dec_digits(n / 10).push(digit_char(n % 10))
    }
}

/// The canonical representation is a digit string, and reading it back
/// yields the number it was made from.
pub proof fn lemma_dec_digits(n: nat)
    ensures
        is_digit_seq(dec_digits(n)),
        digits_val(dec_digits(n)) == n,
    decreases n,
{
    if n < 10 {
        let s = dec_digits(n);
        assert(s.drop_last() =~= Seq::<char>::empty());
        assert(digits_val(Seq::<char>::empty()) == 0);
        assert(digits_val(s) == digit_val(digit_char(n)));
    } else {
        lemma_dec_digits(n / 10);
        let p = dec_digits(n / 10);
        let s = p.push(digit_char(n % 10));
        assert(s.drop_last() =~= p);
        assert(digits_val(s) == digits_val(p) * 10 + digit_val(digit_char(n % 10)));
        assert(digit_val(digit_char(n % 10)) == n % 10);
        lemma_fundamental_div_mod(n as int, 10);
        assert forall|i: int| 0 <= i < s.len() implies is_digit(s[i]) by {
            if i < p.len() {
                assert(s[i] == p[i]);
            }
        }
    }
}

/// A one-character string slice holding the digit for `d`.
pub fn digit_str(d: u32) -> (s: &'static str)
    requires
        d < 10,
    ensures
        s@ == seq![digit_char(d as nat)],
{
    proof {
        reveal_strlit("0");
        reveal_strlit("1");
        reveal_strlit("2");
        reveal_strlit("3");
        reveal_strlit("4");
        reveal_strlit("5");
        reveal_strlit("6");
        reveal_strlit("7");
        reveal_strlit("8");
        reveal_strlit("9");
    }
    let s = match d {
        0 => "0",
        1 => "1",
        2 => "2",
        3 => "3",
        4 => "4",
        5 => "5",
        6 => "6",
        7 => "7",
        8 => "8",
        _ => "9",
    };
    proof {
        assert(s@ =~= seq![digit_char(d as nat)]);
    }
    s
}

/// Renders `n` in decimal.
pub fn u32_to_dec(n: u32) -> (s: String)
    ensures
        s@ == dec_digits(n as nat),
    decreases n,
{
    if n < 10 {
        String::from_str(digit_str(n))
    } else {
        let mut s = u32_to_dec(n / 10);
        s.append(digit_str(n % 10));
        proof {
            assert(s@ =~= dec_digits((n / 10) as nat).push(digit_char((n % 10) as nat)));
        }
        s
    }
}

/// The value a digit field contributes: its decimal value if it fits in an
/// unsigned 32-bit integer, and zero otherwise (an unparsable field counts
/// as zero).
pub open spec fn field_u32_val(s: Seq<char>) -> nat {
    if digits_val(s) <= u32::MAX as nat {
        digits_val(s)
    } else {
        0
    }
}

/// Reads a string of ASCII digits as an unsigned 32-bit integer; a value
/// too large for the type yields zero.
pub fn parse_digit_field(s: &str) -> (v: u32)
    requires
        is_digit_seq(s@),
    ensures
        v as nat == field_u32_val(s@),
{
    let n = s.unicode_len();
    let mut v: u32 = 0;
    let mut over = false;
    let mut i: usize = 0;
    proof {
        assert(s@.subrange(0, 0) =~= Seq::<char>::empty());
    }
    while i < n
        invariant
            i <= n,
            n == s@.len(),
            is_digit_seq(s@),
            !over ==> v as nat == digits_val(s@.subrange(0, i as int)),
            over <==> digits_val(s@.subrange(0, i as int)) > u32::MAX as nat,
        decreases n - i,
    {
        let c = s.get_char(i);
        assert(is_digit(s@[i as int]));
        let d = (c as u32) - 48;
        proof {
            let pre = s@.subrange(0, i as int);
            let ext = s@.subrange(0, i + 1);
            assert(ext.drop_last() =~= pre);
            assert(ext.last() == s@[i as int]);
            assert(digits_val(ext) == digits_val(pre) * 10 + digit_val(s@[i as int]));
        }
        if over {
        } else if v > (u32::MAX - d) / 10 {
            proof {
                lemma_fundamental_div_mod((u32::MAX - d) as int, 10);
            }
            over = true;
        } else {
            proof {
                lemma_fundamental_div_mod((u32::MAX - d) as int, 10);
            }
            v = v * 10 + d;
        }
        i += 1;
    }
    proof {
        assert(s@.subrange(0, n as int) =~= s@);
    }
    if over {
        0
    } else {
        v
    }
}

} // verus!
