//! Hexadecimal text: lower-case encoding and decoding through the `hex`
//! crate, and the upper-case forms used in EUIs.
use vstd::prelude::*;
use vstd::string::StringSliceAdditionalSpecFns;

verus! {

/// Lower-case hex digits.
pub open spec fn lower_digits() -> Seq<char> {
    seq!['0', '1', '2', '3', '4', '5', '6', '7', '8', '9', 'a', 'b', 'c', 'd', 'e', 'f']
}

/// Upper-case hex digits.
pub open spec fn upper_digits() -> Seq<char> {
    seq!['0', '1', '2', '3', '4', '5', '6', '7', '8', '9', 'A', 'B', 'C', 'D', 'E', 'F']
}

/// Two lower-case hex digits per byte, high nibble first.
pub open spec fn hex_lower(b: Seq<u8>) -> Seq<char>
    decreases b.len(),
{
    if b.len() == 0 {
        Seq::empty()
    } else {
        seq![lower_digits()[b[0] as int / 16], lower_digits()[b[0] as int % 16]] + hex_lower(b.drop_first())
    }
}

/// Two upper-case hex digits for one byte, high nibble first.
pub open spec fn hex_byte_upper(b: u8) -> Seq<char> {
    seq![upper_digits()[b as int / 16], upper_digits()[b as int % 16]]
}

/// Value of a hex digit byte (either case).
pub open spec fn hex_value(c: u8) -> Option<u8> {
    if 0x30 <= c <= 0x39 {
        Some((c - 0x30) as u8)
    } else if 0x41 <= c <= 0x46 {
        Some((c - 0x41 + 10) as u8)
    } else if 0x61 <= c <= 0x66 {
        Some((c - 0x61 + 10) as u8)
    } else {
        None
    }
}

/// Text that `hex::decode` accepts: an even number of hex digits.
pub open spec fn hex_decodable(t: Seq<u8>) -> bool {
    t.len() % 2 == 0 && forall|i: int| 0 <= i < t.len() ==> (#[trigger] hex_value(t[i])) is Some
}

/// The bytes that hex text stands for, two digits per byte.
pub open spec fn hex_decoded(t: Seq<u8>) -> Seq<u8> {
    Seq::new(
        (t.len() / 2) as nat,
        |i: int| (hex_value(t[2 * i])->0 * 16 + hex_value(t[2 * i + 1])->0) as u8,
    )
}

#[verifier::external_type_specification]
#[verifier::external_body]
pub struct ExFromHexError(hex::FromHexError);

/// Lower-case hex encoding (`hex::encode`). Claims that the result is
/// `hex_lower` of the bytes: two lower-case digits per byte, high nibble
/// first.
#[verifier::external_body]
pub(crate) fn hex_encode(data: &[u8]) -> (r: String)
    ensures
        r@ == hex_lower(data@),
{
    hex::encode(data)
}

/// Hex decoding of the UTF-8 bytes of `s` (`hex::decode`). Claims that it
/// succeeds exactly on an even number of hex digits of either case, and then
/// gives one byte per two digits.
#[verifier::external_body]
pub(crate) fn hex_decode(s: &str) -> (r: Result<Vec<u8>, hex::FromHexError>)
    ensures
        r is Ok <==> hex_decodable(s.spec_bytes()),
        r matches Ok(v) ==> v@ == hex_decoded(s.spec_bytes()),
{
    hex::decode(s)
}

fn upper_digit(n: u8) -> (c: char)
    requires
        n < 16,
    ensures
        c == upper_digits()[n as int],
{
    if n < 10 {
        assert(upper_digits()[n as int] == (0x30 + n) as char);
        ((0x30 + n) as char)
    } else {
        assert(upper_digits()[n as int] == (0x41 + n - 10) as char);
        ((0x41 + n - 10) as char)
    }
}

/// Pushes the two upper-case hex digits of a byte.
pub fn push_hex_upper(out: &mut Vec<char>, b: u8)
    ensures
        final(out)@ == old(out)@ + hex_byte_upper(b),
{
    out.push(upper_digit(b / 16));
    out.push(upper_digit(b % 16));
    assert(final(out)@ =~= old(out)@ + hex_byte_upper(b));
}

} // verus!
