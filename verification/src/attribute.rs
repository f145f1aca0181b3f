//! The content of a block-size attribute file.

use crate::error::Error;
use crate::text::{chars_of, parse_u32, parse_u32_range, trim, trim_range};
use vstd::prelude::*;
use vstd::slice::*;
use vstd::string::*;
use vstd::utf8::*;

verus! {

/// `core::str::Utf8Error`: why bytes are no text. It is passed on and never
/// looked into.
#[verifier::external_type_specification]
#[verifier::external_body]
pub struct ExUtf8Error(core::str::Utf8Error);

/// `core::str::from_utf8`: the bytes are handed back as text exactly when
/// they are well-formed UTF-8, and the text then holds those same bytes.
pub assume_specification[ core::str::from_utf8 ](v: &[u8]) -> (r: Result<
    &str,
    core::str::Utf8Error,
>)
    ensures
        r is Ok <==> valid_utf8(v@),
        r matches Ok(s) ==> s.spec_bytes() == v@,
;

/// What the content `bytes` of an attribute file says: decoded as UTF-8,
/// with the white space at both ends taken away, it must be an unsigned
/// number that fits 32 bits.
pub open spec fn attribute_value(bytes: Seq<u8>) -> Result<u32, Error> {
    if !valid_utf8(bytes) {
        Err(Error::NotUtf8)
    } else {
        match parse_u32(trim(decode_utf8(bytes))) {
            Some(size) => Ok(size),
            None => Err(Error::NotANumber),
        }
    }
}

/// How many bytes of an attribute file count: what lies behind them is
/// never read.
pub const ATTRIBUTE_BYTES: usize = 64;

/// The part of the content of a file that counts: its first
/// [`ATTRIBUTE_BYTES`] bytes.
pub open spec fn first_bytes(content: Seq<u8>) -> Seq<u8> {
    if content.len() > ATTRIBUTE_BYTES {
        content.take(ATTRIBUTE_BYTES as int)
    } else {
        content
    }
}

/// The block size that an attribute file with this content holds.
pub open spec fn file_value(content: Seq<u8>) -> Result<u32, Error> {
    attribute_value(first_bytes(content))
}

/// Reads a block size from the bytes of an attribute file.
pub fn parse_block_size(bytes: &[u8]) -> (r: Result<u32, Error>)
    ensures
        r == attribute_value(bytes@),
{
    match core::str::from_utf8(bytes) {
        Err(_) => Err(Error::NotUtf8),
        Ok(s) => {
            broadcast use encode_utf8_decode_utf8;

            assert(s@ == decode_utf8(bytes@));
            let chars = chars_of(s);
            let (lo, hi) = trim_range(&chars, 0, chars.len());
            assert(chars@.subrange(0, chars.len() as int) =~= chars@);
            match parse_u32_range(&chars, lo, hi) {
                Some(size) => Ok(size),
                None => Err(Error::NotANumber),
            }
        },
    }
}

/// Reads the block size that an attribute file with this content holds.
pub fn read_block_size(content: &[u8]) -> (r: Result<u32, Error>)
    ensures
        r == file_value(content@),
{
    if content.len() > ATTRIBUTE_BYTES {
        let head = slice_subrange(content, 0, ATTRIBUTE_BYTES);
        assert(head@ =~= first_bytes(content@));
        parse_block_size(head)
    } else {
        parse_block_size(content)
    }
}

} // verus!
