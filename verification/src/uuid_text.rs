//! UUIDs as the static header stores them: 32 hexadecimal digits, without
//! separators. A UUID is held as the 128-bit number that those digits write.

use uuid::Uuid;
use vstd::prelude::*;
use vstd::string::StringSliceAdditionalSpecFns;
use vstd::utf8::{encode_utf8, pop_first_scalar, valid_first_scalar, valid_utf8};

verus! {

/// Number of bytes that a UUID takes in the static header.
pub const UUID_TEXT_LEN: usize = 32;

/// Whether `c` is one of `0-9`, `a-f`, `A-F`.
pub open spec fn is_hex_digit(c: u8) -> bool {
    ||| 0x30 <= c <= 0x39
    ||| 0x61 <= c <= 0x66
    ||| 0x41 <= c <= 0x46
}

/// The number that the hexadecimal digit `c` stands for.
pub open spec fn hex_digit_value(c: u8) -> nat
    recommends
        is_hex_digit(c),
{
    if 0x30 <= c <= 0x39 {
        (c - 0x30) as nat
    } else if 0x61 <= c <= 0x66 {
        (c - 0x61 + 10) as nat
    } else {
        (c - 0x41 + 10) as nat
    }
}

/// The lower-case hexadecimal digit for `n`.
pub open spec fn hex_char(n: nat) -> u8
    recommends
        n < 16,
{
    if n < 10 {
        (0x30 + n) as u8
    } else {
        (0x57 + n) as u8
    }
}

/// Whether every byte of `text` is a hexadecimal digit.
pub open spec fn all_hex_digits(text: Seq<u8>) -> bool {
    forall|i: int| 0 <= i < text.len() ==> is_hex_digit(#[trigger] text[i])
}

/// The number that `text` writes in base 16, first digit highest.
pub open spec fn hex_value(text: Seq<u8>) -> nat
    decreases text.len(),
{
    if text.len() == 0 {
        0
    } else {
        hex_value(text.drop_last()) * 16 + hex_digit_value(text.last())
    }
}

/// The lowest `digits` digits of `value` in base 16, lower case, first digit
/// highest.
pub open spec fn hex_text(value: nat, digits: nat) -> Seq<u8>
    decreases digits,
{
    if digits == 0 {
        Seq::empty()
    } else {
        hex_text(value / 16, (digits - 1) as nat).push(hex_char(value % 16))
    }
}

/// What is left of `value` once its lowest `digits` hexadecimal digits are
/// taken away.
pub open spec fn above_digits(value: nat, digits: nat) -> nat
    decreases digits,
{
    if digits == 0 {
        value
    } else {
        above_digits(value / 16, (digits - 1) as nat)
    }
}

/// The 32 digits that stand for `uuid` in a static header.
pub open spec fn uuid_text(uuid: u128) -> Seq<u8> {
    hex_text(uuid as nat, 32)
}

/// `hex_text` gives as many digits as asked for, all of them hexadecimal
/// digits in ASCII.
pub proof fn lemma_hex_text_shape(value: nat, digits: nat)
    ensures
        hex_text(value, digits).len() == digits,
        all_hex_digits(hex_text(value, digits)),
        forall|i: int| 0 <= i < digits ==> #[trigger] hex_text(value, digits)[i] < 0x80,
    decreases digits,
{
    if digits > 0 {
        lemma_hex_text_shape(value / 16, (digits - 1) as nat);
    }
}

/// Reading back the digits of a number that fits in them gives the number.
pub proof fn lemma_hex_value_of_text(value: nat, digits: nat)
    requires
        above_digits(value, digits) == 0,
    ensures
        hex_value(hex_text(value, digits)) == value,
    decreases digits,
{
    if digits > 0 {
        let rest = hex_text(value / 16, (digits - 1) as nat);
        let text = hex_text(value, digits);
        lemma_hex_value_of_text(value / 16, (digits - 1) as nat);
        assert(text.drop_last() =~= rest);
        assert(text.last() == hex_char(value % 16));
        assert(hex_digit_value(hex_char(value % 16)) == value % 16);
    }
}

/// A 128-bit number has no more than 32 hexadecimal digits.
pub proof fn lemma_u128_has_32_digits(uuid: u128)
    ensures
        above_digits(uuid as nat, 32) == 0,
{
    let v = uuid as nat;
    assert(v < 0x1_0000_0000_0000_0000_0000_0000_0000_0000);
    lemma_above_digits_8(v);
    let v8 = above_digits(v, 8);
    lemma_above_digits_8(v8);
    let v16 = above_digits(v8, 8);
    lemma_above_digits_8(v16);
    let v24 = above_digits(v16, 8);
    lemma_above_digits_8(v24);
    lemma_above_digits_add(v, 8, 8);
    lemma_above_digits_add(v, 16, 8);
    lemma_above_digits_add(v, 24, 8);
}

proof fn lemma_above_digits_8(value: nat)
    ensures
        above_digits(value, 8) == value / 0x1_0000_0000,
{
    reveal_with_fuel(above_digits, 9);
    let a = value / 16;
    let b = a / 16;
    let c = b / 16;
    let d = c / 16;
    let e = d / 16;
    let f = e / 16;
    let g = f / 16;
    let h = g / 16;
    assert(above_digits(value, 8) == h);
    assert(b == value / 0x100);
    assert(d == b / 0x100);
    assert(d == value / 0x1_0000);
    assert(f == d / 0x100);
    assert(h == f / 0x100);
    assert(h == d / 0x1_0000);
    assert(h == value / 0x1_0000_0000);
}

proof fn lemma_above_digits_add(value: nat, first: nat, second: nat)
    ensures
        above_digits(value, first + second) == above_digits(above_digits(value, first), second),
    decreases first,
{
    if first > 0 {
        lemma_above_digits_add(value / 16, (first - 1) as nat, second);
        assert((first - 1) as nat + second == (first + second - 1) as nat);
    }
}

/// The digits of a UUID read back as that UUID, and they are well-formed
/// text.
pub proof fn lemma_uuid_text_round_trip(uuid: u128)
    ensures
        uuid_text(uuid).len() == 32,
        all_hex_digits(uuid_text(uuid)),
        valid_utf8(uuid_text(uuid)),
        hex_value(uuid_text(uuid)) == uuid,
{
    lemma_hex_text_shape(uuid as nat, 32);
    lemma_u128_has_32_digits(uuid);
    lemma_hex_value_of_text(uuid as nat, 32);
    lemma_ascii_is_utf8(uuid_text(uuid));
}

/// Bytes below `0x80` are UTF-8 as they stand.
pub proof fn lemma_ascii_is_utf8(text: Seq<u8>)
    requires
        forall|i: int| 0 <= i < text.len() ==> #[trigger] text[i] < 0x80,
    ensures
        valid_utf8(text),
    decreases text.len(),
{
    if text.len() > 0 {
        let first = text[0];
        assert(first & 0x7f < 0xd800) by (bit_vector);
        assert(valid_first_scalar(text));
        let rest = pop_first_scalar(text);
        assert(rest == text.subrange(1, text.len() as int));
        assert forall|i: int| 0 <= i < rest.len() implies #[trigger] rest[i] < 0x80 by {
            assert(rest[i] == text[i + 1]);
        }
        lemma_ascii_is_utf8(rest);
    }
}

/// Hexadecimal digits are ASCII, so a field of them is UTF-8.
pub proof fn lemma_hex_digits_are_utf8(text: Seq<u8>)
    requires
        all_hex_digits(text),
    ensures
        valid_utf8(text),
{
    assert forall|i: int| 0 <= i < text.len() implies #[trigger] text[i] < 0x80 by {
        assert(is_hex_digit(text[i]));
    }
    lemma_ascii_is_utf8(text);
}

/// `core::str::Utf8Error`, the error of `core::str::from_utf8`; nothing is
/// claimed of what it holds.
#[verifier::external_type_specification]
#[verifier::external_body]
pub struct ExUtf8Error(core::str::Utf8Error);

/// `uuid::Error`, the error of `Uuid::parse_str`; nothing is claimed of what
/// it holds.
#[verifier::external_type_specification]
#[verifier::external_body]
pub struct ExUuidError(uuid::Error);

/// `core::str::from_utf8`: the bytes as a string where they are UTF-8, an
/// error where they are not.
pub assume_specification<'a>[ core::str::from_utf8 ](v: &'a [u8]) -> (r: Result<
    &'a str,
    core::str::Utf8Error,
>)
    ensures
        r is Ok <==> valid_utf8(v@),
        r matches Ok(s) ==> s.spec_bytes() == v@,
;

/// `Uuid::parse_str` of the uuid crate, then `Uuid::as_u128`. Of a text of 32
/// bytes: it is a UUID where all 32 are hexadecimal digits of either case,
/// and then the number that they write; else an error.
#[verifier::external_body]
pub(crate) fn parse_uuid(input: &str) -> (r: Result<u128, uuid::Error>)
    requires
        input.spec_bytes().len() == UUID_TEXT_LEN,
    ensures
        r is Ok <==> all_hex_digits(input.spec_bytes()),
        r matches Ok(uuid) ==> uuid == hex_value(input.spec_bytes()),
{
    match Uuid::parse_str(input) {
        Ok(uuid) => Ok(uuid.as_u128()),
        Err(e) => Err(e),
    }
}

/// `Uuid::from_u128`, `Uuid::simple` and `to_string` of the uuid crate: the
/// number in 32 lower-case hexadecimal digits, highest first.
#[verifier::external_body]
pub(crate) fn simple_uuid(uuid: u128) -> (text: String)
    ensures
        encode_utf8(text@) == uuid_text(uuid),
{
    Uuid::from_u128(uuid).simple().to_string()
}

} // verus!
