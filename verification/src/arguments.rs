use vstd::prelude::*;
use vstd::string::StringSliceAdditionalSpecFns;

verus! {

/// Why a command-line argument could not be used.
#[derive(Clone, Copy, Debug, PartialEq, Eq, Structural)]
pub enum ArgumentError {
    /// The argument was not given.
    Missing,
    /// The text is no decimal number that fits in 32 bits.
    NotANumber,
}

/// Whether a byte is one of the ten decimal digits.
pub open spec fn is_digit(byte: u8) -> bool {
    0x30 <= byte <= 0x39
}

/// The number that a sequence of decimal digits writes; 0 for no digit.
pub open spec fn digits_value(digits: Seq<u8>) -> nat
    decreases digits.len(),
{
    if digits.len() == 0 {
        0
    } else {
        let last: nat = if is_digit(digits.last()) {
            (digits.last() - 0x30) as nat
        } else {
            0
        };
        10 * digits_value(digits.drop_last()) + last
    }
}

/// The text without the plus sign that may stand in front of it.
pub open spec fn unsigned_part(text: Seq<u8>) -> Seq<u8> {
    if text.len() > 0 && text[0] == 0x2B {
        text.subrange(1, text.len() as int)
    } else {
        text
    }
}

/// The number that a text writes: an optional plus sign, then one decimal
/// digit or more and nothing else, for a number that fits in 32 bits.
pub open spec fn number_of(text: Seq<u8>) -> Option<u32> {
    let digits = unsigned_part(text);
    if digits.len() > 0 && (forall|i: int| 0 <= i < digits.len() ==> is_digit(#[trigger] digits[i]))
        && digits_value(digits) <= u32::MAX {
        Some(digits_value(digits) as u32)
    } else {
        None
    }
}

/// The digits written so far never write more than all of them do.
proof fn lemma_value_grows(digits: Seq<u8>, k: int)
    requires
        0 <= k <= digits.len(),
    ensures
        digits_value(digits.take(k)) <= digits_value(digits),
    decreases digits.len(),
{
    if k == digits.len() {
        assert(digits.take(k) =~= digits);
    } else {
        lemma_value_grows(digits.drop_last(), k);
        assert(digits.drop_last().take(k) =~= digits.take(k));
    }
}

/// The value of an argument that has to be given.
pub fn get_arg_value<'a>(parsed_arg: Option<&'a str>) -> (value: Result<&'a str, ArgumentError>)
    ensures
        match parsed_arg {
            Some(text) => value == Ok::<&str, ArgumentError>(text),
            None => value == Err::<&str, ArgumentError>(ArgumentError::Missing),
        },
{
    match parsed_arg {
        Some(value) => Ok(value),
        None => Err(ArgumentError::Missing),
    }
}

/// The number that a text writes in decimal digits.
pub fn get_number_from_str(str_value: &str) -> (number: Result<u32, ArgumentError>)
    ensures
        match number_of(str_value.spec_bytes()) {
            Some(value) => number == Ok::<u32, ArgumentError>(value),
            None => number == Err::<u32, ArgumentError>(ArgumentError::NotANumber),
        },
{
    let bytes = str_value.as_bytes();
    let len: usize = bytes.len();
    let start: usize = if len > 0 && bytes[0] == 0x2B {
        1
    } else {
        0
    };
    if start == len {
        return Err(ArgumentError::NotANumber);
    }
    let ghost digits = unsigned_part(bytes@);
    let mut value: u64 = 0;
    let mut i: usize = start;
    while i < len
        invariant
            start <= i <= len,
            len == bytes@.len(),
            bytes@ == str_value.spec_bytes(),
            digits == unsigned_part(bytes@),
            digits == bytes@.subrange(start as int, len as int),
            forall|j: int| 0 <= j < i - start ==> is_digit(#[trigger] digits[j]),
            value == digits_value(digits.take(i - start)),
            value <= u32::MAX,
        decreases len - i,
    {
        let byte: u8 = bytes[i];
        if byte < 0x30 || byte > 0x39 {
            assert(!is_digit(digits[i - start]));
            return Err(ArgumentError::NotANumber);
        }
        proof {
            assert(digits.take(i - start + 1).drop_last() =~= digits.take(i - start));
        }
        value = value * 10 + (byte - 0x30) as u64;
        if value > 0xFFFF_FFFF {
            proof {
                lemma_value_grows(digits, i - start + 1);
            }
            return Err(ArgumentError::NotANumber);
        }
        i = i + 1;
    }
    assert(digits.take(len - start) =~= digits);
    Ok(value as u32)
}

} // verus!
