//! Verified decimal parsing and rendering.
//!
//! The parsers accept exactly what the standard integer parsers accept: an
//! optional sign, then at least one digit, with the value in range; anything
//! else is malformed input.

use vstd::prelude::*;
use vstd::string::StrSliceExecFns;

use crate::errors::ErrorKind;
use crate::text::string_push;

verus! {

/// Whether `c` is a decimal digit.
pub open spec fn is_digit(c: char) -> bool {
    '0' <= c && c <= '9'
}

/// The numeric value of a digit character.
pub open spec fn digit_val(c: char) -> int {
    c as int - '0' as int
}

/// Whether every character of `s` is a decimal digit.
pub open spec fn all_digits(s: Seq<char>) -> bool {
    forall|i: int| 0 <= i < s.len() ==> is_digit(#[trigger] s[i])
}

/// The value of a digit string, most significant digit first.
pub open spec fn digits_value(s: Seq<char>) -> int
    decreases s.len(),
{
    if s.len() == 0 {
        0
    } else {
        digits_value(s.drop_last()) * 10 + digit_val(s.last())
    }
}

/// A digit string's value is never negative.
proof fn lemma_digits_value_nonneg(s: Seq<char>)
    requires
        all_digits(s),
    ensures
        digits_value(s) >= 0,
    decreases s.len(),
{
    if s.len() > 0 {
        assert(all_digits(s.drop_last())) by {
            assert(forall|i: int| 0 <= i < s.len() - 1 ==> s.drop_last()[i] == s[i]);
        }
        lemma_digits_value_nonneg(s.drop_last());
    }
}

/// A prefix of a digit string never has a larger value than the whole.
proof fn lemma_digits_value_prefix_le(s: Seq<char>, i: int)
    requires
        all_digits(s),
        0 <= i <= s.len(),
    ensures
        digits_value(s.take(i)) <= digits_value(s),
    decreases s.len() - i,
{
    if i < s.len() {
        assert(all_digits(s.take(i))) by {
            assert(forall|j: int| 0 <= j < i ==> s.take(i)[j] == s[j]);
        }
        lemma_digits_value_nonneg(s.take(i));
        assert(s.take(i + 1).drop_last() =~= s.take(i));
        assert(s.take(i + 1).last() == s[i]);
        lemma_digits_value_prefix_le(s, i + 1);
    } else {
        assert(s.take(i) =~= s);
    }
}

/// The `u32` a string parses to: an optional leading `+`, then at least one
/// digit, with a value no greater than `u32::MAX`; anything else is
/// malformed.
pub open spec fn parse_u32_spec(s: Seq<char>) -> Result<u32, ErrorKind> {
    let body = if s.len() > 0 && s[0] == '+' {
        s.drop_first()
    } else {
        s
    };
    if body.len() > 0 && all_digits(body) && digits_value(body) <= u32::MAX {
        Ok(digits_value(body) as u32)
    } else {
        Err(ErrorKind::Malformed)
    }
}

/// Parse a `u32` from a decimal string.
pub fn parse_u32(s: &str) -> (r: Result<u32, ErrorKind>)
    ensures
        r == parse_u32_spec(s@),
{
    let len = s.unicode_len();
    let start: usize = if len > 0 && s.get_char(0) == '+' {
        1
    } else {
        0
    };
    let ghost body = if s@.len() > 0 && s@[0] == '+' {
        s@.drop_first()
    } else {
        s@
    };
    proof {
        assert(body =~= s@.subrange(start as int, len as int));
    }
    if start == len {
        return Err(ErrorKind::Malformed);
    }
    let mut acc: u32 = 0;
    let mut i: usize = start;
    proof {
        assert(s@.subrange(start as int, start as int) =~= Seq::<char>::empty());
    }
    while i < len
        invariant
            len == s@.len(),
            start <= i <= len,
            start <= 1,
            body == s@.subrange(start as int, len as int),
            body == (if s@.len() > 0 && s@[0] == '+' {
                s@.drop_first()
            } else {
                s@
            }),
            all_digits(s@.subrange(start as int, i as int)),
            acc == digits_value(s@.subrange(start as int, i as int)),
        decreases len - i,
    {
        let c = s.get_char(i);
        let cu = c as u32;
        if !(48 <= cu && cu <= 57) {
            proof {
                assert(!is_digit(s@[i as int]));
                assert(body[i - start] == s@[i as int]);
            }
            return Err(ErrorKind::Malformed);
        }
        let d = cu - 48;
        proof {
            assert(is_digit(s@[i as int]));
            assert(d == digit_val(s@[i as int]));
            assert(s@.subrange(start as int, i as int + 1).drop_last() =~= s@.subrange(
                start as int,
                i as int,
            ));
            assert(s@.subrange(start as int, i as int + 1).last() == s@[i as int]);
        }
        let next = match acc.checked_mul(10) {
            Some(m) => m.checked_add(d),
            None => None,
        };
        match next {
            Some(a) => {
                acc = a;
            },
            None => {
                proof {
                    let upto = s@.subrange(start as int, i as int + 1);
                    assert(digits_value(upto) > u32::MAX);
                    if all_digits(body) {
                        assert(body.take(i + 1 - start) =~= upto);
                        lemma_digits_value_prefix_le(body, i + 1 - start);
                    }
                }
                return Err(ErrorKind::Malformed);
            },
        }
        i = i + 1;
    }
    proof {
        assert(s@.subrange(start as int, len as int) =~= body);
    }
    Ok(acc)
}

/// The `i32` a string parses to: an optional leading `+` or `-`, then at
/// least one digit, with the signed value in range; anything else is
/// malformed.
pub open spec fn parse_i32_spec(s: Seq<char>) -> Result<i32, ErrorKind> {
    let neg = s.len() > 0 && s[0] == '-';
    let body = if s.len() > 0 && (s[0] == '+' || s[0] == '-') {
        s.drop_first()
    } else {
        s
    };
    if body.len() > 0 && all_digits(body) {
        let mag = digits_value(body);
        if neg && -mag >= i32::MIN {
            Ok((-mag) as i32)
        } else if !neg && mag <= i32::MAX {
            Ok(mag as i32)
        } else {
            Err(ErrorKind::Malformed)
        }
    } else {
        Err(ErrorKind::Malformed)
    }
}

/// Parse an `i32` from a decimal string.
pub fn parse_i32(s: &str) -> (r: Result<i32, ErrorKind>)
    ensures
        r == parse_i32_spec(s@),
{
    let len = s.unicode_len();
    let mut neg = false;
    let mut start: usize = 0;
    if len > 0 {
        let first = s.get_char(0);
        if first == '-' {
            neg = true;
            start = 1;
        } else if first == '+' {
            start = 1;
        }
    }
    let ghost body = if s@.len() > 0 && (s@[0] == '+' || s@[0] == '-') {
        s@.drop_first()
    } else {
        s@
    };
    proof {
        assert(body =~= s@.subrange(start as int, len as int));
    }
    if start == len {
        return Err(ErrorKind::Malformed);
    }
    let mut acc: u64 = 0;
    let mut i: usize = start;
    proof {
        assert(s@.subrange(start as int, start as int) =~= Seq::<char>::empty());
    }
    while i < len
        invariant
            len == s@.len(),
            start <= i <= len,
            start <= 1,
            body == s@.subrange(start as int, len as int),
            body == (if s@.len() > 0 && (s@[0] == '+' || s@[0] == '-') {
                s@.drop_first()
            } else {
                s@
            }),
            neg == (s@.len() > 0 && s@[0] == '-'),
            all_digits(s@.subrange(start as int, i as int)),
            acc == digits_value(s@.subrange(start as int, i as int)),
            acc <= 2147483648,
        decreases len - i,
    {
        let c = s.get_char(i);
        let cu = c as u32;
        if !(48 <= cu && cu <= 57) {
            proof {
                assert(!is_digit(s@[i as int]));
                assert(body[i - start] == s@[i as int]);
            }
            return Err(ErrorKind::Malformed);
        }
        let d = (cu - 48) as u64;
        proof {
            assert(is_digit(s@[i as int]));
            assert(d == digit_val(s@[i as int]));
            assert(s@.subrange(start as int, i as int + 1).drop_last() =~= s@.subrange(
                start as int,
                i as int,
            ));
            assert(s@.subrange(start as int, i as int + 1).last() == s@[i as int]);
        }
        acc = acc * 10 + d;
        if acc > 2147483648 {
            proof {
                let upto = s@.subrange(start as int, i as int + 1);
                assert(digits_value(upto) > 2147483648);
                if all_digits(body) {
                    assert(body.take(i + 1 - start) =~= upto);
                    lemma_digits_value_prefix_le(body, i + 1 - start);
                }
            }
            return Err(ErrorKind::Malformed);
        }
        i = i + 1;
    }
    proof {
        assert(s@.subrange(start as int, len as int) =~= body);
    }
    if neg {
        if acc == 2147483648 {
            Ok(i32::MIN)
        } else {
            Ok(-(acc as i32))
        }
    } else {
        if acc <= 2147483647 {
            Ok(acc as i32)
        } else {
            Err(ErrorKind::Malformed)
        }
    }
}

/// The character for one decimal digit.
pub open spec fn digit_char(d: int) -> char {
    if d == 0 {
        '0'
    } else if d == 1 {
        '1'
    } else if d == 2 {
        '2'
    } else if d == 3 {
        '3'
    } else if d == 4 {
        '4'
    } else if d == 5 {
        '5'
    } else if d == 6 {
        '6'
    } else if d == 7 {
        '7'
    } else if d == 8 {
        '8'
    } else {
        '9'
    }
}

/// The decimal digits of `n`, most significant first.
pub open spec fn dec_digits(n: int) -> Seq<char>
    decreases n,
{
    if n < 10 {
        seq![digit_char(n)]
    } else {
        dec_digits(n / 10).push(digit_char(n % 10))
    }
}

/// The character for one decimal digit.
pub fn digit_to_char(d: u32) -> (c: char)
    requires
        d < 10,
    ensures
        c == digit_char(d as int),
{
    if d == 0 {
        '0'
    } else if d == 1 {
        '1'
    } else if d == 2 {
        '2'
    } else if d == 3 {
        '3'
    } else if d == 4 {
        '4'
    } else if d == 5 {
        '5'
    } else if d == 6 {
        '6'
    } else if d == 7 {
        '7'
    } else if d == 8 {
        '8'
    } else {
        '9'
    }
}

/// Append the character for one decimal digit.
fn push_digit(target: &mut String, d: u32)
    requires
        d < 10,
    ensures
        final(target)@ == old(target)@.push(digit_char(d as int)),
{
    let c = digit_to_char(d);
    string_push(target, c);
}

/// Append the decimal rendering of `n`.
pub fn push_decimal(target: &mut String, n: u32)
    ensures
        final(target)@ == old(target)@ + dec_digits(n as int),
    decreases n,
{
    if n >= 10 {
        push_decimal(target, n / 10);
    }
    push_digit(target, n % 10);
    proof {
        if n >= 10 {
            assert(old(target)@ + dec_digits(n as int) =~= (old(target)@ + dec_digits(
                n as int / 10,
            )).push(digit_char(n as int % 10)));
        } else {
            assert(old(target)@ + dec_digits(n as int) =~= old(target)@.push(
                digit_char(n as int),
            ));
        }
    }
}

} // verus!
