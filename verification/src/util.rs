//! Small utilities: lenient unsigned parsing, command-line rendering for
//! trace output, indexed string access, and the two calls that depend on
//! the machine (the clock and the filesystem).

use vstd::prelude::*;
use crate::numbers::{digits_val, field_u32_val, parse_digit_field};
use crate::text::{char_is_digit, is_digit, is_digit_seq, str_contains_char};

verus! {

/// The number `s` denotes: an optional leading `+`, then decimal digits,
/// read as an unsigned 32-bit value. Anything else — empty, signs other
/// than `+`, stray characters, or a value too large for the type — counts
/// as zero.
pub open spec fn parse_uint_spec(s: Seq<char>) -> nat {
    let b = if s.len() >= 1 && s[0] == '+' {
        s.drop_first()
    } else {
        s
    };
    if is_digit_seq(b) && digits_val(b) <= u32::MAX as nat {
        digits_val(b)
    } else {
        0
    }
}

/// Reads `text` as an unsigned 32-bit integer, yielding zero for anything
/// unparsable.
pub fn parse_uint(text: &str) -> (n: u32)
    ensures
        n as nat == parse_uint_spec(text@),
{
    let len = text.unicode_len();
    let start: usize = if len >= 1 && text.get_char(0) == '+' {
        1
    } else {
        0
    };
    let ghost b = if start == 1 {
        text@.drop_first()
    } else {
        text@
    };
    proof {
        assert(b =~= text@.subrange(start as int, len as int));
    }
    if start == len {
        return 0;
    }
    let mut i: usize = start;
    while i < len
        invariant
            start <= i <= len,
            len == text@.len(),
            b == text@.subrange(start as int, len as int),
            start == 1 || start == 0,
            start == 1 <==> text@.len() >= 1 && text@[0] == '+',
            forall|j: int| start <= j < i ==> is_digit(text@[j]),
        decreases len - i,
    {
        if !char_is_digit(text.get_char(i)) {
            proof {
                if start == 1 {
                    assert(text@.drop_first() =~= text@.subrange(1, len as int));
                }
                assert(b[i - start] == text@[i as int]);
                assert(!is_digit_seq(b));
            }
            return 0;
        }
        i += 1;
    }
    let body = text.substring_char(start, len);
    let v = parse_digit_field(body);
    proof {
        assert(body@ == b);
        assert(field_u32_val(b) == parse_uint_spec(text@));
    }
    v
}

/// A parameter as it is shown in a traced command line: wrapped in double
/// quotes when it holds a space.
pub open spec fn quoted_param(p: Seq<char>) -> Seq<char> {
    if p.contains(' ') {
        seq!['"'] + p + seq!['"']
    } else {
        p
    }
}

/// The rendered command line: parameters joined by single spaces, each
/// quoted when it holds a space. A leading empty parameter contributes
/// nothing, so no space is written after it.
pub open spec fn straighten_spec(params: Seq<Seq<char>>) -> Seq<char>
    decreases params.len(),
{
    if params.len() == 0 {
        Seq::empty()
    } else {
        let acc = straighten_spec(params.drop_last());
        let sep: Seq<char> = if acc.len() > 0 {
            seq![' ']
        } else {
            Seq::empty()
        };
        acc + sep + quoted_param(params.last())
    }
}

/// Renders a command and its parameters as one line for trace output.
pub fn straighten_command_string(params: &[&str]) -> (r: String)
    ensures
        r@ == straighten_spec(params.deep_view()),
{
    let mut result = String::new();
    let n = params.len();
    let mut i: usize = 0;
    proof {
        assert(params.deep_view().subrange(0, 0) =~= Seq::<Seq<char>>::empty());
    }
    while i < n
        invariant
            i <= n,
            n == params@.len(),
            params.deep_view().len() == n,
            result@ == straighten_spec(params.deep_view().subrange(0, i as int)),
        decreases n - i,
    {
        let param: &str = params[i];
        proof {
            assert(params.deep_view()[i as int] == params@[i as int]@);
        }
        if result.as_str().unicode_len() > 0 {
            result.append(" ");
        }
        if str_contains_char(param, ' ') {
            result.append("\"");
            result.append(param);
            result.append("\"");
        } else {
            result.append(param);
        }
        proof {
            reveal_strlit(" ");
            reveal_strlit("\"");
            let dv = params.deep_view();
            assert(dv.subrange(0, i + 1).drop_last() =~= dv.subrange(0, i as int));
            assert(dv.subrange(0, i + 1).last() == dv[i as int]);
            assert(result@ =~= straighten_spec(dv.subrange(0, i + 1)));
        }
        i += 1;
    }
    proof {
        assert(params.deep_view().subrange(0, n as int) =~= params.deep_view());
    }
    result
}

/// Indexed access into a list of strings that yields the empty string
/// instead of failing when the index is out of range.
pub trait StringUtility: DeepView<V = Seq<Seq<char>>> {
    /// The string at `index`, or the empty string when there is none.
    fn at(&self, index: usize) -> (r: &str)
        ensures
            r@ == if (index as int) < self.deep_view().len() {
                self.deep_view()[index as int]
            } else {
                Seq::<char>::empty()
            },
    ;
}

impl StringUtility for Vec<String> {
    fn at(&self, index: usize) -> (r: &str)
        ensures
            r@ == if (index as int) < self.deep_view().len() {
                self.deep_view()[index as int]
            } else {
                Seq::<char>::empty()
            },
    {
        if self.len() <= index {
            let r = "";
            proof {
                reveal_strlit("");
                assert(r@ =~= Seq::<char>::empty());
            }
            r
        } else {
            proof {
                assert(self.deep_view()[index as int] == self@[index as int]@);
            }
            self[index].as_str()
        }
    }
}

/// Relies on `std::path::Path::exists` (through the `Path::new` view of the
/// string): whether the path points at an existing filesystem entity. The
/// result depends on the state of the disk, so nothing is promised of it.
#[verifier::external_body]
pub fn is_file(path: &str) -> bool {
    std::path::Path::new(path).exists()
}

/// Relies on `chrono::Local::now`, rendered through chrono's formatting
/// with `"%Y-%m-%d %H:%M:%S%.3f"`: the current local time. The result
/// depends on the clock, so nothing is promised of it.
#[verifier::external_body]
pub fn get_current_timestamp() -> String {
    let date = chrono::Local::now();
    format!("{}", date.format("%Y-%m-%d %H:%M:%S%.3f"))
}

} // verus!
