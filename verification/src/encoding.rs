//! Byte encodings used at the protocol's edges: lowercase hexadecimal for
//! digests, and 32-byte big-endian field elements for the proof's public
//! inputs.

use vstd::prelude::*;

verus! {

/// The lowercase hexadecimal digit for a nibble.
pub open spec fn spec_hex_digit(n: u8) -> char
    recommends
        n < 16,
{
    seq!['0', '1', '2', '3', '4', '5', '6', '7', '8', '9', 'a', 'b', 'c', 'd', 'e', 'f'][n as int]
}

/// Lowercase hexadecimal rendering of a byte sequence: two digits per byte,
/// high nibble first.
pub open spec fn spec_hex(bytes: Seq<u8>) -> Seq<char>
    decreases bytes.len(),
{
    if bytes.len() == 0 {
        Seq::empty()
    } else {
        seq![spec_hex_digit(bytes[0] / 16), spec_hex_digit(bytes[0] % 16)] + spec_hex(
            bytes.drop_first(),
        )
    }
}

/// Relies on hex::encode: two lowercase hexadecimal digits per input byte,
/// high nibble first, drawn from "0123456789abcdef".
#[verifier::external_body]
fn hex_encode32(data: &[u8; 32]) -> (r: String)
    ensures
        r@ == spec_hex(data@),
{
    hex::encode(data)
}

/// Render a 32-byte digest as the lowercase hexadecimal string that the proof
/// transport carries.
pub fn digest_hex(digest: &[u8; 32]) -> (r: String)
    ensures
        r@ == spec_hex(digest@),
{
    hex_encode32(digest)
}

/// A value embedded in a 32-byte field element: zero padding, then the value's
/// four big-endian bytes.
pub open spec fn spec_field_element(x: u32) -> Seq<u8> {
    Seq::new(
        32,
        |i: int|
            if i == 28 {
                (x / 0x1000000) as u8
            } else if i == 29 {
                ((x / 0x10000) % 0x100) as u8
            } else if i == 30 {
                ((x / 0x100) % 0x100) as u8
            } else if i == 31 {
                (x % 0x100) as u8
            } else {
                0u8
            },
    )
}

/// Embed a small integer in a 32-byte field element, as the proof's public
/// inputs carry positions and revealed values.
pub fn field_element(x: u32) -> (r: [u8; 32])
    ensures
        r@ == spec_field_element(x),
{
    let mut out: [u8; 32] = [0u8; 32];
    out[28] = (x / 0x1000000) as u8;
    out[29] = ((x / 0x10000) % 0x100) as u8;
    out[30] = ((x / 0x100) % 0x100) as u8;
    out[31] = (x % 0x100) as u8;
    proof {
        assert(out@ =~= spec_field_element(x));
    }
    out
}

} // verus!
