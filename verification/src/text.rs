//! Byte-to-text conversion shared by the line buffers.
//!
//! The wire protocol is plain ASCII, so the only fact the crate needs
//! about UTF-8 decoding is that an all-ASCII byte buffer decodes
//! successfully, character for character.

use vstd::prelude::*;

verus! {

/// Every byte is 7-bit ASCII.
pub open spec fn ascii_only(bytes: Seq<u8>) -> bool {
    forall|i: int| 0 <= i < bytes.len() ==> #[trigger] bytes[i] < 0x80
}

#[verifier::external_type_specification]
#[verifier::external_body]
pub struct ExUtf8Error(core::str::Utf8Error);

/// Relies on `core::str::from_utf8`: an ASCII-only byte slice is valid
/// UTF-8 and decodes to the same characters, one per byte.
#[verifier::external_body]
pub fn bytes_to_str(bytes: &[u8]) -> (r: Result<&str, core::str::Utf8Error>)
    ensures
        ascii_only(bytes@) ==> r is Ok && r->Ok_0@ == bytes@.map_values(|b: u8| b as char),
{
    core::str::from_utf8(bytes)
}

} // verus!
