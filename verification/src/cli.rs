use vstd::prelude::*;

use crate::text::{
    chars_of, decimal_value, hex_value, hex_value_of, lemma_trim_subrange, skip_white_end,
    skip_white_start, trim,
};

verus! {

/// Why text does not read as a `u8` (`std::num::IntErrorKind`).
pub enum IntFault {
    Empty,
    InvalidDigit,
    Overflow,
}

/// The message std gives for each of these errors.
pub open spec fn int_fault_text(f: IntFault) -> Seq<char> {
    match f {
        IntFault::Empty => "cannot parse integer from empty string"@,
        IntFault::InvalidDigit => "invalid digit found in string"@,
        IntFault::Overflow => "number too large to fit in target type"@,
    }
}

/// The value of a digit in base 16 or base 10.
pub open spec fn digit_value(c: char, radix: int) -> Option<u8> {
    if radix == 16 {
        hex_value(c)
    } else {
        decimal_value(c)
    }
}

/// Reads `digits` onto `acc`, most significant first, as a `u8`: the first
/// char that is no digit is an error, and so is the first value above 255.
pub open spec fn accumulate(digits: Seq<char>, radix: int, acc: int) -> Result<u8, IntFault>
    decreases digits.len(),
{
    if digits.len() == 0 {
        Ok(acc as u8)
    } else {
        match digit_value(digits[0], radix) {
            None => Err(IntFault::InvalidDigit),
            Some(d) => if acc * radix + d > 255 {
                Err(IntFault::Overflow)
            } else {
                accumulate(digits.drop_first(), radix, acc * radix + d)
            },
        }
    }
}

/// `u8::from_str_radix` for base 16 or 10: an optional `+`, then digits.
pub open spec fn radix_value(src: Seq<char>, radix: int) -> Result<u8, IntFault> {
    if src.len() == 0 {
        Err(IntFault::Empty)
    } else if src.len() == 1 && (src[0] == '+' || src[0] == '-') {
        Err(IntFault::InvalidDigit)
    } else if src[0] == '+' {
        accumulate(src.skip(1), radix, 0)
    } else {
        accumulate(src, radix, 0)
    }
}

/// What a PID argument reads as: after trimming white space, hex when it
/// starts with `0x` or `0X`, decimal otherwise.
pub open spec fn pid_arg_value(s: Seq<char>) -> Result<u8, IntFault> {
    let t = trim(s);
    if t.len() >= 2 && t[0] == '0' && (t[1] == 'x' || t[1] == 'X') {
        radix_value(t.skip(2), 16)
    } else {
        radix_value(t, 10)
    }
}

/// `u8::from_str_radix` on `chars[from..to]`, for base 16 or 10.
fn read_radix(chars: &Vec<char>, from: usize, to: usize, radix: u32) -> (r: Result<u8, IntFault>)
    requires
        from <= to <= chars@.len(),
        radix == 16 || radix == 10,
    ensures
        r == radix_value(chars@.subrange(from as int, to as int), radix as int),
{
    let ghost src = chars@.subrange(from as int, to as int);
    if from == to {
        return Err(IntFault::Empty);
    }
    if to - from == 1 && (chars[from] == '+' || chars[from] == '-') {
        return Err(IntFault::InvalidDigit);
    }
    let mut i = if chars[from] == '+' {
        from + 1
    } else {
        from
    };
    assert(src.skip(1) =~= chars@.subrange(from + 1, to as int));
    let mut acc: u32 = 0;
    while i < to
        invariant
            from <= i <= to <= chars@.len(),
            radix == 16 || radix == 10,
            acc <= 255,
            src == chars@.subrange(from as int, to as int),
            radix_value(src, radix as int) == accumulate(
                chars@.subrange(i as int, to as int),
                radix as int,
                acc as int,
            ),
        decreases to - i,
    {
        let c = chars[i];
        assert(chars@.subrange(i as int, to as int)[0] == c);
        assert(chars@.subrange(i as int, to as int).drop_first() =~= chars@.subrange(
            i + 1,
            to as int,
        ));
        let d = if radix == 16 {
            hex_value_of(c)
        } else if '0' <= c && c <= '9' {
            Some(((c as u32) - 48) as u8)
        } else {
            None
        };
        assert(d == digit_value(c, radix as int));
        match d {
            None => {
                return Err(IntFault::InvalidDigit);
            },
            Some(d) => {
                let scaled: u32 = if radix == 16 {
                    acc * 16
                } else {
                    acc * 10
                };
                assert(scaled == acc * radix);
                if scaled + d as u32 > 255 {
                    return Err(IntFault::Overflow);
                }
                acc = scaled + d as u32;
            },
        }
        i = i + 1;
    }
    assert(chars@.subrange(i as int, to as int) =~= Seq::<char>::empty());
    Ok(acc as u8)
}

/// Reads a PID given on the command line: decimal, or hex after `0x` / `0X`,
/// with surrounding white space ignored. The error is std's message.
pub fn parse_pid(s: &str) -> (r: Result<u8, String>)
    ensures
        match pid_arg_value(s@) {
            Ok(v) => r == Ok::<u8, String>(v),
            Err(f) => r matches Err(m) && m@ == int_fault_text(f),
        },
{
    let chars = chars_of(s);
    let n = chars.len();
    let b = skip_white_start(&chars, 0, n);
    let e = skip_white_end(&chars, b, n);
    assert(chars@.subrange(0, n as int) =~= s@);
    proof {
        lemma_trim_subrange(chars@, 0, b as int, n as int);
    }
    let ghost t = trim(s@);
    assert(t =~= chars@.subrange(b as int, e as int));
    let value = if e - b >= 2 && chars[b] == '0' && (chars[b + 1] == 'x' || chars[b + 1] == 'X') {
        assert(t.skip(2) =~= chars@.subrange(b + 2, e as int));
        read_radix(&chars, b + 2, e, 16)
    } else {
        read_radix(&chars, b, e, 10)
    };
    match value {
        Ok(v) => Ok(v),
        Err(IntFault::Empty) => Err(String::from_str("cannot parse integer from empty string")),
        Err(IntFault::InvalidDigit) => Err(String::from_str("invalid digit found in string")),
        Err(IntFault::Overflow) => Err(String::from_str("number too large to fit in target type")),
    }
}

} // verus!
