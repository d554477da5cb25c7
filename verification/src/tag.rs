//! The version incrementer: recognizing the four version-tag shapes and
//! producing the next tag.
//!
//! Recognized shapes, in the order they are tried:
//! 1. `v<major>.<minor>.<patch>` — the patch number is incremented;
//! 2. `<major>.<minor>.<patch>` — the same, with no `v` prefix;
//! 3. `v<major>` — the single number is incremented;
//! 4. `<major>` — the same, with no `v` prefix.
//!
//! Anything else yields the empty string. Numeric fields are read as
//! unsigned 32-bit integers; a field too large for the type counts as zero,
//! and incrementing saturates at the type's maximum.

use vstd::prelude::*;
use crate::errors::TagError;
use crate::numbers::{dec_digits, digits_val, field_u32_val, parse_digit_field, u32_to_dec};
use crate::text::{
    is_digit, is_digit_seq, split_on, split_str, str_is_digit_seq, first_index_of,
    lemma_first_index_of, lemma_split_on_sep_free, lemma_split_on_single, lemma_split_on_len,
};

verus! {

/// Incrementing that saturates at the largest unsigned 32-bit value.
pub open spec fn sat_inc(n: nat) -> nat {
    if n >= u32::MAX as nat {
        u32::MAX as nat
    } else {
        n + 1
    }
}

/// Saturating increment on unsigned 32-bit integers.
pub fn sat_add1(n: u32) -> (r: u32)
    ensures
        r as nat == sat_inc(n as nat),
{
    if n == u32::MAX {
        n
    } else {
        n + 1
    }
}

/// Three dot-separated, non-empty digit fields.
pub open spec fn dotted3(s: Seq<char>) -> bool {
    let f = split_on(s, '.');
    f.len() == 3 && is_digit_seq(f[0]) && is_digit_seq(f[1]) && is_digit_seq(f[2])
}

/// The incremented form of a three-field version: the first two fields kept
/// (renormalized through their numeric value), the third incremented.
pub open spec fn inc_dotted(s: Seq<char>) -> Seq<char> {
    let f = split_on(s, '.');
    dec_digits(field_u32_val(f[0])) + seq!['.'] + dec_digits(field_u32_val(f[1])) + seq!['.']
        + dec_digits(sat_inc(field_u32_val(f[2])))
}

/// Shape 1: `v<major>.<minor>.<patch>`.
pub open spec fn is_v_dotted_triple(s: Seq<char>) -> bool {
    s.len() >= 1 && s[0] == 'v' && dotted3(s.subrange(1, s.len() as int))
}

/// Shape 3: `v<major>`.
pub open spec fn is_v_single(s: Seq<char>) -> bool {
    s.len() >= 1 && s[0] == 'v' && is_digit_seq(s.subrange(1, s.len() as int))
}

/// The next tag after `s`: the matching shape with its last numeric field
/// incremented, or the empty sequence when no shape matches.
pub open spec fn next_tag_spec(s: Seq<char>) -> Seq<char> {
    if is_v_dotted_triple(s) {
        seq!['v'] + inc_dotted(s.subrange(1, s.len() as int))
    } else if dotted3(s) {
        inc_dotted(s)
    } else if is_v_single(s) {
        seq!['v'] + dec_digits(sat_inc(field_u32_val(s.subrange(1, s.len() as int))))
    } else if is_digit_seq(s) {
        dec_digits(sat_inc(field_u32_val(s)))
    } else {
        Seq::empty()
    }
}

/// A digit string holds no dot, so it splits into itself alone.
pub proof fn lemma_digit_seq_split(s: Seq<char>)
    requires
        is_digit_seq(s),
    ensures
        split_on(s, '.') == seq![s],
{
    assert forall|j: int| 0 <= j < s.len() implies s[j] != '.' by {
        assert(is_digit(s[j]));
    }
    lemma_split_on_sep_free(s, '.');
}

/// A three-field version starts with a digit.
pub proof fn lemma_dotted3_starts_digit(s: Seq<char>)
    requires
        dotted3(s),
    ensures
        s.len() >= 1 && is_digit(s[0]),
{
    let f = split_on(s, '.');
    lemma_first_index_of(s, '.');
    let i = first_index_of(s, '.');
    if 0 <= i < s.len() {
        assert(f[0] == s.subrange(0, i));
        assert(is_digit_seq(f[0]));
        assert(f[0][0] == s[0]);
    } else {
        assert(f =~= seq![s]);
        assert(f.len() == 1);
    }
}

/// The four recognized shapes are mutually exclusive: no tag matches two
/// of them.
pub proof fn lemma_shapes_mutually_exclusive(s: Seq<char>)
    ensures
        is_v_dotted_triple(s) ==> !dotted3(s) && !is_v_single(s) && !is_digit_seq(s),
        dotted3(s) ==> !is_v_single(s) && !is_digit_seq(s),
        is_v_single(s) ==> !is_digit_seq(s),
{
    if dotted3(s) {
        lemma_dotted3_starts_digit(s);
    }
    if is_digit_seq(s) {
        assert(is_digit(s[0]));
        lemma_digit_seq_split(s);
        assert(split_on(s, '.').len() == 1);
    }
    if is_v_dotted_triple(s) && is_v_single(s) {
        let rest = s.subrange(1, s.len() as int);
        lemma_digit_seq_split(rest);
        assert(split_on(rest, '.').len() == 1);
    }
}

/// Splitting three digit fields joined by dots recovers the fields.
pub proof fn lemma_split_dotted(a: Seq<char>, b: Seq<char>, c: Seq<char>)
    requires
        is_digit_seq(a),
        is_digit_seq(b),
        is_digit_seq(c),
    ensures
        split_on(a + seq!['.'] + b + seq!['.'] + c, '.') == seq![a, b, c],
{
    assert forall|j: int| 0 <= j < a.len() implies a[j] != '.' by {
        assert(is_digit(a[j]));
    }
    assert forall|j: int| 0 <= j < b.len() implies b[j] != '.' by {
        assert(is_digit(b[j]));
    }
    let s = a + seq!['.'] + b + seq!['.'] + c;
    let r1 = seq!['.'] + b + seq!['.'] + c;
    assert(s =~= a + r1);
    assert(r1[0] == '.');
    crate::text::lemma_split_on_concat(a, r1, '.');
    let r2 = b + seq!['.'] + c;
    assert(r1.subrange(1, r1.len() as int) =~= r2);
    let r3 = seq!['.'] + c;
    assert(r2 =~= b + r3);
    assert(r3[0] == '.');
    crate::text::lemma_split_on_concat(b, r3, '.');
    assert(r3.subrange(1, r3.len() as int) =~= c);
    lemma_digit_seq_split(c);
    assert(split_on(s, '.') =~= seq![a, b, c]);
}

/// Law: for a canonical dotted version `major.minor.patch`, with or without
/// the `v` prefix, the next tag keeps major and minor and increments patch.
pub proof fn lemma_increment_dotted(major: u32, minor: u32, patch: u32)
    requires
        patch < u32::MAX,
    ensures
        next_tag_spec(
            seq!['v'] + dec_digits(major as nat) + seq!['.'] + dec_digits(minor as nat)
                + seq!['.'] + dec_digits(patch as nat),
        ) == seq!['v'] + dec_digits(major as nat) + seq!['.'] + dec_digits(minor as nat)
            + seq!['.'] + dec_digits((patch + 1) as nat),
        next_tag_spec(
            dec_digits(major as nat) + seq!['.'] + dec_digits(minor as nat) + seq!['.']
                + dec_digits(patch as nat),
        ) == dec_digits(major as nat) + seq!['.'] + dec_digits(minor as nat) + seq!['.']
            + dec_digits((patch + 1) as nat),
{
    crate::numbers::lemma_dec_digits(major as nat);
    crate::numbers::lemma_dec_digits(minor as nat);
    crate::numbers::lemma_dec_digits(patch as nat);
    let a = dec_digits(major as nat);
    let b = dec_digits(minor as nat);
    let c = dec_digits(patch as nat);
    lemma_split_dotted(a, b, c);
    let s = a + seq!['.'] + b + seq!['.'] + c;
    assert(dotted3(s));
    assert(field_u32_val(a) == major as nat);
    assert(field_u32_val(b) == minor as nat);
    assert(field_u32_val(c) == patch as nat);
    assert(sat_inc(patch as nat) == (patch + 1) as nat);
    assert(inc_dotted(s) =~= a + seq!['.'] + b + seq!['.'] + dec_digits((patch + 1) as nat));
    // Without the prefix: the string starts with a digit, so only the plain
    // dotted shape applies.
    assert(s[0] == a[0] && is_digit(a[0]));
    assert(!is_v_dotted_triple(s));
    assert(next_tag_spec(s) == inc_dotted(s));
    // With the prefix: the remainder after the `v` is the dotted triple.
    let vs = seq!['v'] + s;
    assert(vs.subrange(1, vs.len() as int) =~= s);
    assert(is_v_dotted_triple(vs));
    assert(next_tag_spec(vs) =~= seq!['v'] + inc_dotted(s));
    assert(vs =~= seq!['v'] + a + seq!['.'] + b + seq!['.'] + c);
    assert(seq!['v'] + inc_dotted(s) =~= seq!['v'] + a + seq!['.'] + b + seq!['.'] + dec_digits(
        (patch + 1) as nat,
    ));
}

/// Law: for a canonical bare number, with or without the `v` prefix, the
/// next tag is the incremented number under the same prefix.
pub proof fn lemma_increment_bare(major: u32)
    requires
        major < u32::MAX,
    ensures
        next_tag_spec(seq!['v'] + dec_digits(major as nat)) == seq!['v'] + dec_digits(
            (major + 1) as nat,
        ),
        next_tag_spec(dec_digits(major as nat)) == dec_digits((major + 1) as nat),
{
    crate::numbers::lemma_dec_digits(major as nat);
    let a = dec_digits(major as nat);
    lemma_digit_seq_split(a);
    assert(split_on(a, '.').len() == 1);
    assert(!dotted3(a));
    assert(is_digit(a[0]));
    assert(!is_v_dotted_triple(a) && !is_v_single(a));
    assert(field_u32_val(a) == major as nat);
    assert(sat_inc(major as nat) == (major + 1) as nat);
    assert(next_tag_spec(a) == dec_digits((major + 1) as nat));
    let vs = seq!['v'] + a;
    assert(vs.subrange(1, vs.len() as int) =~= a);
    assert(is_v_single(vs));
    assert(!is_v_dotted_triple(vs));
    if dotted3(vs) {
        lemma_dotted3_starts_digit(vs);
    }
    assert(next_tag_spec(vs) == seq!['v'] + dec_digits((major + 1) as nat));
}

/// Produces the tag that follows `tag`, or the empty string when `tag`
/// matches none of the recognized shapes. Never fails; the error type
/// appears only for interface compatibility.
pub fn generate_tag(tag: &str) -> (r: Result<String, TagError>)
    ensures
        r matches Ok(t) && t@ == next_tag_spec(tag@),
{
    let n = tag.unicode_len();
    let has_v = n >= 1 && tag.get_char(0) == 'v';
    let rest: &str = if has_v {
        tag.substring_char(1, n)
    } else {
        tag
    };
    proof {
        if !has_v {
            assert(rest@ == tag@);
        }
    }
    let fields = split_str(rest, '.');
    proof {
        assert(fields.deep_view() == split_on(rest@, '.'));
        lemma_split_on_len(rest@, '.');
    }
    if fields.len() == 3 {
        proof {
            assert(fields.deep_view()[0] == fields@[0]@);
            assert(fields.deep_view()[1] == fields@[1]@);
            assert(fields.deep_view()[2] == fields@[2]@);
        }
        if str_is_digit_seq(fields[0].as_str()) && str_is_digit_seq(fields[1].as_str())
            && str_is_digit_seq(fields[2].as_str()) {
            assert(dotted3(rest@));
            let a = parse_digit_field(fields[0].as_str());
            let b = parse_digit_field(fields[1].as_str());
            let c = parse_digit_field(fields[2].as_str());
            let mut out = if has_v {
                String::from_str("v")
            } else {
                String::new()
            };
            let sa = u32_to_dec(a);
            let sb = u32_to_dec(b);
            let sc = u32_to_dec(sat_add1(c));
            out.append(sa.as_str());
            out.append(".");
            out.append(sb.as_str());
            out.append(".");
            out.append(sc.as_str());
            proof {
                reveal_strlit("v");
                reveal_strlit(".");
                lemma_dotted3_starts_digit(rest@);
                if has_v {
                    assert(is_v_dotted_triple(tag@));
                    assert(out@ =~= seq!['v'] + inc_dotted(rest@));
                } else {
                    assert(tag@.len() == 0 || tag@[0] != 'v');
                    assert(!is_v_dotted_triple(tag@));
                    assert(out@ =~= inc_dotted(tag@));
                }
            }
            return Ok(out);
        }
    } else if fields.len() == 1 {
        proof {
            lemma_split_on_single(rest@, '.');
            assert(fields.deep_view()[0] == fields@[0]@);
            assert(fields@[0]@ == rest@);
        }
        if str_is_digit_seq(fields[0].as_str()) {
            assert(is_digit_seq(rest@));
            let a = parse_digit_field(fields[0].as_str());
            let mut out = if has_v {
                String::from_str("v")
            } else {
                String::new()
            };
            let sa = u32_to_dec(sat_add1(a));
            out.append(sa.as_str());
            proof {
                reveal_strlit("v");
                if has_v {
                    assert(split_on(rest@, '.').len() == 1);
                    assert(!dotted3(rest@));
                    assert(!is_v_dotted_triple(tag@));
                    if dotted3(tag@) {
                        lemma_dotted3_starts_digit(tag@);
                    }
                    assert(is_v_single(tag@));
                    assert(out@ =~= seq!['v'] + dec_digits(
                        sat_inc(field_u32_val(tag@.subrange(1, tag@.len() as int))),
                    ));
                } else {
                    assert(rest@ == tag@);
                    assert(tag@.len() >= 1);
                    assert(tag@[0] != 'v');
                    assert(!is_v_dotted_triple(tag@));
                    assert(!dotted3(tag@));
                    assert(!is_v_single(tag@));
                    assert(out@ =~= dec_digits(sat_inc(field_u32_val(tag@))));
                }
            }
            return Ok(out);
        }
    }
    // No recognized shape.
    proof {
        // The remainder after the optional `v` is neither a dotted triple
        // nor a bare number.
        if is_digit_seq(rest@) {
            lemma_digit_seq_split(rest@);
            assert(fields.deep_view().len() == 1);
            assert(fields.deep_view()[0] == fields@[0]@);
            assert(fields@[0]@ == rest@);
        }
        assert(!is_digit_seq(rest@));
        assert(!dotted3(rest@));
        if has_v {
            assert(tag@.subrange(1, tag@.len() as int) == rest@);
            if dotted3(tag@) {
                lemma_dotted3_starts_digit(tag@);
            }
            assert(!is_digit_seq(tag@));
            assert(next_tag_spec(tag@) == Seq::<char>::empty());
        } else {
            assert(rest@ == tag@);
            assert(!is_v_dotted_triple(tag@));
            assert(!is_v_single(tag@));
            assert(next_tag_spec(tag@) == Seq::<char>::empty());
        }
    }
    let empty = String::new();
    Ok(empty)
}

} // verus!
