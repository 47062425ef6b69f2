//! The content hasher: a stable digest of the style sheet source, used for
//! cache-busting file names and as the `<style_sheet_hash>` template
//! placeholder.  The digest is the 256-bit content hash in lowercase
//! hexadecimal, re-encoded as URL-safe base64 without padding.

use vstd::prelude::*;
use base64::Engine;
use vstd::string::StringSliceAdditionalSpecFns;
use crate::StyleSheetKind;

verus! {

/// A failure while obtaining the bytes to hash: reading a file-backed
/// source failed, with the report of the read.  The read happens at the
/// caller's edge; hashing bytes already in hand cannot fail.
#[derive(Debug)]
pub enum HashingError {
    FileRead(String),
}

/// The 64 lowercase hexadecimal characters of the 256-bit content hash that
/// `blake3::hash` computes, a function of the input bytes alone.
pub uninterp spec fn blake3_hex_of(bytes: Seq<u8>) -> Seq<char>;

/// A lowercase hexadecimal digit.
pub open spec fn is_hex_char(c: char) -> bool {
    (48 <= c as u32 && c as u32 <= 57) || (97 <= c as u32 && c as u32 <= 102)
}

/// Relies on `blake3::hash` and `Hash::to_hex`: the hash is 32 bytes and
/// its hex form is 64 lowercase hexadecimal characters, a function of the
/// input alone.
#[verifier::external_body]
fn blake3_hex(bytes: &[u8]) -> (r: String)
    ensures
        r@ == blake3_hex_of(bytes@),
        r@.len() == 64,
        forall|i: int| 0 <= i < r@.len() ==> is_hex_char(#[trigger] r@[i]),
{
    blake3::hash(bytes).to_hex().as_str().to_string()
}

/// The URL-safe base64 encoding, without padding, that base64's
/// `URL_SAFE_NO_PAD` engine computes, a function of the input bytes alone.
pub uninterp spec fn base64_url_of(bytes: Seq<u8>) -> Seq<char>;

/// The length of a base64 encoding without padding: four characters for
/// each three input bytes, two or three for a trailing one or two bytes.
pub open spec fn base64_nopad_len(n: int) -> int {
    (4 * n + 2) / 3
}

/// Relies on base64's `URL_SAFE_NO_PAD` engine: the encoding of the
/// string's bytes, unpadded, four characters per three bytes.
#[verifier::external_body]
fn base64_url_nopad(s: &str) -> (r: String)
    ensures
        r@ == base64_url_of(s.spec_bytes()),
        r@.len() == base64_nopad_len(s.spec_bytes().len() as int),
{
    base64::engine::general_purpose::URL_SAFE_NO_PAD.encode(s)
}

/// The bytes a style sheet source hashes: the UTF-8 bytes of a file-backed
/// source's contents, or of the inline text.
pub open spec fn style_sheet_source_bytes(s: StyleSheetKind) -> Seq<u8> {
    match s {
        StyleSheetKind::File { path, contents } => vstd::utf8::encode_utf8(contents@),
        StyleSheetKind::Inline(text) => vstd::utf8::encode_utf8(text@),
    }
}

/// The content hash of a byte sequence: the hexadecimal 256-bit digest,
/// base64-encoded URL-safe without padding.
pub open spec fn content_hash_of(bytes: Seq<u8>) -> Seq<char> {
    base64_url_of(vstd::utf8::encode_utf8(blake3_hex_of(bytes)))
}

/// Hashes the bytes of a style sheet source.  Deterministic: the result is
/// a function of the source bytes alone.
pub fn hash_style_sheet(style_sheet: &StyleSheetKind) -> (r: String)
    ensures
        r@ == content_hash_of(style_sheet_source_bytes(*style_sheet)),
{
    let hex = match style_sheet {
        StyleSheetKind::File { path, contents } => blake3_hex(contents.as_str().as_bytes()),
        StyleSheetKind::Inline(text) => blake3_hex(text.as_str().as_bytes()),
    };
    base64_url_nopad(hex.as_str())
}

} // verus!
