//! Naming of CSS output files.  Writing to disk is the caller's edge; the
//! library decides the names: the per-stylesheet output file is named after
//! the source file's base name with a `.css` extension, or after the 64-bit
//! content hash for inline sources.

use vstd::prelude::*;
use crate::StyleSheetKind;
use crate::css_compilation::{base_name_start, find_base_name_start};
use crate::text::{chars_of, string_of, copy_range, hex_string, hex_u128};

verus! {

/// A failure writing a CSS output file, with the path concerned and the
/// report of the write.  Constructed at the caller's writing edge.
#[derive(Debug)]
pub struct CssFileWriteError {
    pub path: String,
    pub message: String,
}

/// The 64-bit hash that `xxhash_rust::xxh3::xxh3_64` computes, a function
/// of the input bytes alone.
pub uninterp spec fn xxh3_64_of(bytes: Seq<u8>) -> u64;

/// Relies on `xxhash_rust::xxh3::xxh3_64`: the hash of the bytes.
#[verifier::external_body]
fn xxh3_64(bytes: &[u8]) -> (r: u64)
    ensures
        r == xxh3_64_of(bytes@),
{
    xxhash_rust::xxh3::xxh3_64(bytes)
}

/// The position of the last `.` at or after index 1 and before `i`, or zero
/// when there is none: an extension needs a stem in front of it.
pub open spec fn last_dot(s: Seq<char>, i: int) -> int
    decreases i,
{
    if i <= 1 {
        0
    } else if s[i - 1] == '.' {
        i - 1
    } else {
        last_dot(s, i - 1)
    }
}

/// The base name with its extension replaced by `css`: the stem before the
/// last dot, or the whole name when it has no extension, then `.css`.
pub open spec fn with_css_extension(base: Seq<char>) -> Seq<char> {
    let d = last_dot(base, base.len() as int);
    if d > 0 {
        base.take(d) + seq!['.', 'c', 's', 's']
    } else {
        base + seq!['.', 'c', 's', 's']
    }
}

/// The name of the separate output file for one source: the source file's
/// base name with a `.css` extension, or the inline text's 64-bit content
/// hash in lowercase hexadecimal followed by `.css`.
pub open spec fn separate_file_name_spec(s: StyleSheetKind) -> Seq<char> {
    match s {
        StyleSheetKind::File { path, contents } => with_css_extension(
            path@.skip(base_name_start(path@, path@.len() as int)),
        ),
        StyleSheetKind::Inline(text) => hex_string(
            xxh3_64_of(vstd::utf8::encode_utf8(text@)) as int,
        ) + seq!['.', 'c', 's', 's'],
    }
}

proof fn lemma_last_dot_bounds(s: Seq<char>, i: int)
    requires
        0 <= i <= s.len(),
    ensures
        0 <= last_dot(s, i) < i || last_dot(s, i) == 0,
        last_dot(s, i) <= s.len(),
    decreases i,
{
    if i > 1 && s[i - 1] != '.' {
        lemma_last_dot_bounds(s, i - 1);
    }
}

/// Finds the position of the base name's last extension dot, or zero.
fn find_last_dot(s: &Vec<char>) -> (r: usize)
    ensures
        r == last_dot(s@, s@.len() as int),
        r <= s@.len(),
{
    proof {
        lemma_last_dot_bounds(s@, s@.len() as int);
    }
    let mut i: usize = s.len();
    while i > 1
        invariant
            0 <= i <= s@.len(),
            last_dot(s@, s@.len() as int) == last_dot(s@, i as int),
        decreases i,
    {
        if s[i - 1] == '.' {
            return i - 1;
        }
        i = i - 1;
    }
    0
}

/// Pushes `.css` onto a name.
fn push_css_extension(v: &mut Vec<char>)
    ensures
        final(v)@ == old(v)@ + seq!['.', 'c', 's', 's'],
{
    v.push('.');
    v.push('c');
    v.push('s');
    v.push('s');
    proof {
        assert(v@ =~= old(v)@ + seq!['.', 'c', 's', 's']);
    }
}

/// The file name the separate per-stylesheet output is written under.
pub fn separate_css_file_name(style_sheet: &StyleSheetKind) -> (r: String)
    ensures
        r@ == separate_file_name_spec(*style_sheet),
{
    match style_sheet {
        StyleSheetKind::File { path, contents } => {
            let p = chars_of(path.as_str());
            let b = find_base_name_start(&p);
            let base = copy_range(&p, b, p.len());
            proof {
                assert(p@.subrange(b as int, p@.len() as int) =~= p@.skip(b as int));
            }
            let d = find_last_dot(&base);
            let mut name = if d > 0 {
                let stem = copy_range(&base, 0, d);
                proof {
                    assert(base@.subrange(0, d as int) =~= base@.take(d as int));
                }
                stem
            } else {
                copy_range(&base, 0, base.len())
            };
            proof {
                assert(base@.subrange(0, base@.len() as int) =~= base@);
            }
            push_css_extension(&mut name);
            string_of(&name)
        },
        StyleSheetKind::Inline(text) => {
            let h = xxh3_64(text.as_str().as_bytes());
            let mut name = hex_u128(h as u128);
            proof {
                assert(h as u128 as int == xxh3_64_of(vstd::utf8::encode_utf8(text@)) as int);
            }
            push_css_extension(&mut name);
            string_of(&name)
        },
    }
}

} // verus!
