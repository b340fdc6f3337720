//! Rendering integers as decimal text and reading signed decimal fields,
//! with exact contracts over the character sequences.

use vstd::prelude::*;

verus! {

/// The character for one decimal digit.
pub open spec fn spec_digit_char(d: nat) -> char {
    if d == 0 {
        '0'
    } else if d == 1 {
        '1'
    } else if d == 2 {
        '2'
    } else if d == 3 {
        '3'
    } else if d == 4 {
        '4'
    } else if d == 5 {
        '5'
    } else if d == 6 {
        '6'
    } else if d == 7 {
        '7'
    } else if d == 8 {
        '8'
    } else {
        '9'
    }
}

/// The decimal rendering of `n`, most significant digit first, no sign and
/// no leading zeros (a single `0` for zero).
pub open spec fn spec_decimal(n: nat) -> Seq<char>
    decreases n,
{
    if n < 10 {
        seq![spec_digit_char(n)]
    } else {
        spec_decimal(n / 10).push(spec_digit_char(n % 10))
    }
}

/// The decimal rendering of `n` with a leading minus sign when negative.
pub open spec fn spec_signed_decimal(n: int) -> Seq<char> {
    if n < 0 {
        seq!['-'] + spec_decimal((-n) as nat)
    } else {
        spec_decimal(n as nat)
    }
}

/// The one-character string for a decimal digit.
fn decimal_digit(d: u64) -> (r: &'static str)
    requires
        d < 10,
    ensures
        r@ == seq![spec_digit_char(d as nat)],
{
    let r = (match d {
        0 => "0",
        1 => "1",
        2 => "2",
        3 => "3",
        4 => "4",
        5 => "5",
        6 => "6",
        7 => "7",
        8 => "8",
        _ => "9",
    });
    proof {
        reveal_strlit("0");
        reveal_strlit("1");
        reveal_strlit("2");
        reveal_strlit("3");
        reveal_strlit("4");
        reveal_strlit("5");
        reveal_strlit("6");
        reveal_strlit("7");
        reveal_strlit("8");
        reveal_strlit("9");
        assert(r@ =~= seq![spec_digit_char(d as nat)]);
    }
    r
}

/// Render `n` in decimal.
pub fn u64_to_decimal(n: u64) -> (r: String)
    ensures
        r@ == spec_decimal(n as nat),
    decreases n,
{
    if n < 10 {
        let mut s = String::new();
        s.append(decimal_digit(n));
        proof {
            assert(s@ =~= spec_decimal(n as nat));
        }
        s
    } else {
        let mut s = u64_to_decimal(n / 10);
        s.append(decimal_digit(n % 10));
        proof {
            assert(s@ =~= spec_decimal(n as nat));
        }
        s
    }
}

/// Render `n` in decimal, with a minus sign when negative.
pub fn i32_to_decimal(n: i32) -> (r: String)
    ensures
        r@ == spec_signed_decimal(n as int),
{
    if n < 0 {
        let mut s = String::from_str("-");
        let magnitude = (-(n as i64)) as u64;
        let digits = u64_to_decimal(magnitude);
        s.append(digits.as_str());
        proof {
            reveal_strlit("-");
            assert(s@ =~= spec_signed_decimal(n as int));
        }
        s
    } else {
        u64_to_decimal(n as u64)
    }
}

/// Whether `c` is a decimal digit.
pub open spec fn is_dec_digit(c: char) -> bool {
    48 <= c as u32 && c as u32 <= 57
}

/// The value of one decimal digit.
pub open spec fn dec_digit_value(c: char) -> int {
    c as u32 - 48
}

/// The value of a big-endian string of decimal digits.
pub open spec fn dec_value(s: Seq<char>) -> int
    decreases s.len(),
{
    if s.len() == 0 {
        0
    } else {
        dec_value(s.drop_last()) * 10 + dec_digit_value(s.last())
    }
}

/// Every string of decimal digits has a non-negative value.
proof fn lemma_dec_value_nonneg(s: Seq<char>)
    requires
        forall|j: int| 0 <= j < s.len() ==> is_dec_digit(#[trigger] s[j]),
    ensures
        dec_value(s) >= 0,
    decreases s.len(),
{
    if s.len() > 0 {
        lemma_dec_value_nonneg(s.drop_last());
    }
}

/// A prefix of a string of decimal digits is worth no more than the whole.
proof fn lemma_dec_prefix_le(s: Seq<char>, i: int)
    requires
        forall|j: int| 0 <= j < s.len() ==> is_dec_digit(#[trigger] s[j]),
        0 <= i <= s.len(),
    ensures
        dec_value(s.subrange(0, i)) <= dec_value(s),
    decreases s.len() - i,
{
    if i < s.len() {
        lemma_dec_prefix_le(s, i + 1);
        let shorter = s.subrange(0, i);
        let longer = s.subrange(0, i + 1);
        assert(longer.drop_last() =~= shorter);
        lemma_dec_value_nonneg(shorter);
    } else {
        assert(s.subrange(0, i) =~= s);
    }
}

/// Why a decimal field could not be read as an `i32`.
#[derive(Clone, Copy, Debug, PartialEq, Eq, Structural)]
pub enum DecParseError {
    /// No digits: the field was empty, or only a minus sign.
    Empty,
    /// A character that is no decimal digit.
    InvalidDigit,
    /// The value does not fit in a signed 32-bit integer.
    OutOfRange,
}

/// Whether `s` reads as a signed decimal `i32`: an optional minus sign, then
/// at least one digit, the value within the `i32` range.
pub open spec fn spec_i32_ok(s: Seq<char>) -> bool {
    if s.len() > 0 && s[0] == '-' {
        let d = s.subrange(1, s.len() as int);
        &&& d.len() > 0
        &&& forall|j: int| 0 <= j < d.len() ==> is_dec_digit(#[trigger] d[j])
        &&& dec_value(d) <= 2147483648
    } else {
        &&& s.len() > 0
        &&& forall|j: int| 0 <= j < s.len() ==> is_dec_digit(#[trigger] s[j])
        &&& dec_value(s) <= 2147483647
    }
}

/// The signed value `s` denotes.
pub open spec fn spec_i32_value(s: Seq<char>) -> int {
    if s.len() > 0 && s[0] == '-' {
        -dec_value(s.subrange(1, s.len() as int))
    } else {
        dec_value(s)
    }
}

/// Read one signed decimal field as an `i32`.
///
/// Succeeds exactly on an optional minus sign followed by one or more
/// decimal digits whose value fits, and then returns that value.
pub fn parse_i32(s: &str) -> (r: Result<i32, DecParseError>)
    ensures
        r is Ok <==> spec_i32_ok(s@),
        r matches Ok(v) ==> v as int == spec_i32_value(s@),
        r == Err::<i32, DecParseError>(DecParseError::Empty) <==> (s@.len() == 0 || (s@.len() == 1
            && s@[0] == '-')),
{
    let n = s.unicode_len();
    let mut start: usize = 0;
    let mut neg = false;
    if n > 0 && s.get_char(0) == '-' {
        neg = true;
        start = 1;
    }
    if start == n {
        return Err(DecParseError::Empty);
    }
    let mut acc: u64 = 0;
    let mut i: usize = start;
    while i < n
        invariant
            n == s@.len(),
            start <= i <= n,
            start < n,
            neg ==> start == 1 && s@[0] == '-',
            !neg ==> start == 0 && !(s@.len() > 0 && s@[0] == '-'),
            acc as int == dec_value(s@.subrange(start as int, i as int)),
            acc <= 2147483648,
            forall|j: int| start <= j < i ==> is_dec_digit(#[trigger] s@[j]),
        decreases n - i,
    {
        let c = s.get_char(i);
        let v = c as u32;
        if !(48 <= v && v <= 57) {
            proof {
                if neg {
                    let d = s@.subrange(1, n as int);
                    assert(d[i - 1] == s@[i as int]);
                    assert(!is_dec_digit(d[i - 1]));
                }
            }
            return Err(DecParseError::InvalidDigit);
        }
        acc = acc * 10 + (v - 48) as u64;
        proof {
            assert(s@.subrange(start as int, i + 1).drop_last() =~= s@.subrange(
                start as int,
                i as int,
            ));
            assert(s@.subrange(start as int, i + 1).last() == s@[i as int]);
        }
        if acc > 2147483648 {
            proof {
                let d = s@.subrange(start as int, n as int);
                assert(s@.subrange(0, n as int) =~= s@);
                if forall|j: int| 0 <= j < d.len() ==> is_dec_digit(#[trigger] d[j]) {
                    lemma_dec_prefix_le(d, i + 1 - start);
                    assert(d.subrange(0, i + 1 - start) =~= s@.subrange(start as int, i + 1));
                }
            }
            return Err(DecParseError::OutOfRange);
        }
        i = i + 1;
    }
    proof {
        assert(s@.subrange(start as int, n as int) =~= s@.subrange(start as int, i as int));
        assert(s@.subrange(0, n as int) =~= s@);
        let d = s@.subrange(start as int, n as int);
        assert forall|j: int| 0 <= j < d.len() implies is_dec_digit(#[trigger] d[j]) by {
            assert(d[j] == s@[j + start]);
        }
    }
    if neg {
        let v = (-(acc as i64)) as i32;
        Ok(v)
    } else {
        if acc > 2147483647 {
            return Err(DecParseError::OutOfRange);
        }
        Ok(acc as i32)
    }
}

} // verus!
