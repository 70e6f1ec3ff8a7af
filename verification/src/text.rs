//! Text conversions that lean on outside code: expanding UCS-2 code units to
//! UTF-8 bytes, and testing a byte buffer for UTF-8 validity.
use vstd::prelude::*;

verus! {

/// The UTF-8 expansion of a sequence of UCS-2 code units.
pub uninterp spec fn utf8_of(units: Seq<u16>) -> Seq<u8>;

/// Whether a byte sequence is valid UTF-8.
pub uninterp spec fn is_utf8(bytes: Seq<u8>) -> bool;

/// Relies on ucs2::decode: it expands each UCS-2 code unit into its one- to
/// three-byte UTF-8 form, so with three output bytes per unit the buffer
/// never overflows and the call returns the number of bytes written.
#[verifier::external_body]
pub fn ucs2_to_utf8(units: &Vec<u16>) -> (r: Vec<u8>)
    requires
        units@.len() <= 0x10000,
    ensures
        r@ == utf8_of(units@),
        r@.len() <= 3 * units@.len(),
        units@.len() == 0 ==> r@.len() == 0,
{
    let mut buf = vec![0u8; units.len() * 3];
    match ucs2::decode(units, &mut buf) {
        Ok(size) => {
            buf.truncate(size);
            buf
        },
        Err(_) => Vec::new(),
    }
}

/// Relies on str::from_utf8 of std: it returns Ok exactly when the bytes are
/// valid UTF-8, and an empty buffer is valid.
#[verifier::external_body]
pub fn bytes_are_utf8(bytes: &Vec<u8>) -> (r: bool)
    ensures
        r == is_utf8(bytes@),
        bytes@.len() == 0 ==> r,
{
    core::str::from_utf8(bytes).is_ok()
}

} // verus!
