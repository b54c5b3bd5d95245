use vstd::prelude::*;
use vstd::string::StringSliceAdditionalSpecFns;
use vstd::utf8::encode_utf8;

use crate::bytes::{bytes_equal, write_bytes};

verus! {

/// What a run in atlas-builder mode was asked to do.
pub struct BuildRequest {
    pub font_path: String,
    /// The size as written on the command line.
    pub size: String,
    pub atlas_path: String,
}

/// Why a run in atlas-builder mode cannot start.
#[derive(Clone, Copy, Debug, PartialEq, Eq, Structural)]
pub enum BuilderError {
    MissingFontPath,
    MissingSize,
    MissingAtlasPath,
}

/// "--build-font-atlas"
pub open spec fn builder_flag() -> Seq<u8> {
    seq![
        45u8, 45, 98, 117, 105, 108, 100, 45, 102, 111, 110, 116, 45, 97, 116, 108, 97, 115,
    ]
}

/// Whether the command line asks for builder mode: its first argument
/// after the program name is the builder flag.
pub open spec fn asks_for_builder(args: Seq<String>) -> bool {
    args.len() >= 2 && encode_utf8(args[1]@) == builder_flag()
}

/// Decides whether this run only builds a glyph atlas: `Ok(None)` when the
/// command line does not ask for it, else the font path, size and atlas
/// path that follow the flag, or which of them is missing.
pub fn maybe_run_builder_mode(args: &[String]) -> (r: Result<Option<BuildRequest>, BuilderError>)
    ensures
        !asks_for_builder(args@) ==> r matches Ok(None),
        asks_for_builder(args@) && args@.len() < 3 ==> r == Err::<Option<BuildRequest>, BuilderError>(
            BuilderError::MissingFontPath,
        ),
        asks_for_builder(args@) && args@.len() == 3 ==> r == Err::<Option<BuildRequest>, BuilderError>(
            BuilderError::MissingSize,
        ),
        asks_for_builder(args@) && args@.len() == 4 ==> r == Err::<Option<BuildRequest>, BuilderError>(
            BuilderError::MissingAtlasPath,
        ),
        asks_for_builder(args@) && args@.len() >= 5 ==> (r matches Ok(Some(req)) && req.font_path@
            == args@[2]@ && req.size@ == args@[3]@ && req.atlas_path@ == args@[4]@),
{
    if args.len() < 2 {
        return Ok(None);
    }
    let flag: [u8; 18] = [45, 45, 98, 117, 105, 108, 100, 45, 102, 111, 110, 116, 45, 97, 116, 108, 97, 115];
    assert(flag@ =~= builder_flag());
    if !bytes_equal(args[1].as_str().as_bytes(), flag.as_slice()) {
        return Ok(None);
    }
    if args.len() < 3 {
        return Err(BuilderError::MissingFontPath);
    }
    if args.len() < 4 {
        return Err(BuilderError::MissingSize);
    }
    if args.len() < 5 {
        return Err(BuilderError::MissingAtlasPath);
    }
    Ok(
        Some(
            BuildRequest {
                font_path: args[2].clone(),
                size: args[3].clone(),
                atlas_path: args[4].clone(),
            },
        ),
    )
}

/// Bytes a font name keeps in a cache file name: ASCII letters and digits,
/// '-' and '_'.
pub open spec fn keeps(c: u8) -> bool {
    (48 <= c <= 57) || (65 <= c <= 90) || (97 <= c <= 122) || c == 45 || c == 95
}

/// A byte that continues a UTF-8 encoded character.
pub open spec fn is_continuation(c: u8) -> bool {
    0x80 <= c < 0xc0
}

/// The UTF-8 text `b` with each character that is not kept replaced by '_'.
pub open spec fn sanitized(b: Seq<u8>) -> Seq<u8>
    decreases b.len(),
{
    if b.len() == 0 {
        Seq::empty()
    } else {
        let prev = sanitized(b.drop_last());
        let c = b.last();
        if is_continuation(c) {
            prev
        } else if keeps(c) {
            prev.push(c)
        } else {
            prev.push(95)
        }
    }
}

/// A font name made safe for a cache file name: ASCII letters, digits, '-'
/// and '_' stay, every other character becomes '_'.
pub fn sanitize_font_name(name: &str) -> (r: Vec<u8>)
    ensures
        r@ == sanitized(name.spec_bytes()),
{
    let b = name.as_bytes();
    let mut out: Vec<u8> = Vec::new();
    let mut i: usize = 0;
    while i < b.len()
        invariant
            i <= b@.len(),
            out@ == sanitized(b@.take(i as int)),
        decreases b@.len() - i,
    {
        let c = b[i];
        proof {
            assert(b@.take(i + 1).drop_last() =~= b@.take(i as int));
            assert(b@.take(i + 1).last() == c);
        }
        if c >= 0x80 && c < 0xc0 {
        } else if (c >= 48 && c <= 57) || (c >= 65 && c <= 90) || (c >= 97 && c <= 122) || c == 45
            || c == 95 {
            out.push(c);
        } else {
            out.push(95);
        }
        i = i + 1;
    }
    assert(b@.take(i as int) =~= b@);
    out
}

/// Decimal digits of `n`, most significant first, without leading zeros.
pub open spec fn decimal_digits(n: nat) -> Seq<u8>
    decreases n,
{
    if n < 10 {
        seq![(48 + n) as u8]
    } else {
        decimal_digits(n / 10).push((48 + n % 10) as u8)
    }
}

/// Decimal digits of `n`, at least two of them.
pub open spec fn two_or_more_digits(n: nat) -> Seq<u8> {
    if n < 10 {
        seq![48u8] + decimal_digits(n)
    } else {
        decimal_digits(n)
    }
}

/// The name of the atlas cache file for a font named `font_stem` whose path
/// hashes to `path_hash`, at a size of `size_tag` tenths of a pixel:
/// `font_atlas_<name>_<hash>_<size>.bin`.
pub open spec fn atlas_file_name_spec(font_stem: Seq<u8>, path_hash: u64, size_tag: u32) -> Seq<u8> {
    seq![102u8, 111, 110, 116, 95, 97, 116, 108, 97, 115, 95] + sanitized(font_stem) + seq![95u8]
        + decimal_digits(path_hash as nat) + seq![95u8] + two_or_more_digits(size_tag as nat)
        + seq![46u8, 98, 105, 110]
}

/// Appends the decimal digits of `n`.
fn push_decimal(out: &mut Vec<u8>, n: u64)
    ensures
        final(out)@ == old(out)@ + decimal_digits(n as nat),
    decreases n,
{
    if n >= 10 {
        push_decimal(out, n / 10);
    }
    out.push((48 + n % 10) as u8);
    assert(out@ =~= old(out)@ + decimal_digits(n as nat));
}

/// Computes `atlas_file_name_spec`.
pub fn atlas_file_name(font_stem: &str, path_hash: u64, size_tag: u32) -> (r: Vec<u8>)
    ensures
        r@ == atlas_file_name_spec(font_stem.spec_bytes(), path_hash, size_tag),
{
    let mut out: Vec<u8> = Vec::new();
    let prefix: [u8; 11] = [102, 111, 110, 116, 95, 97, 116, 108, 97, 115, 95];
    write_bytes(&mut out, prefix.as_slice());
    let name = sanitize_font_name(font_stem);
    write_bytes(&mut out, name.as_slice());
    out.push(95);
    push_decimal(&mut out, path_hash);
    out.push(95);
    if size_tag < 10 {
        out.push(48);
    }
    push_decimal(&mut out, size_tag as u64);
    let suffix: [u8; 4] = [46, 98, 105, 110];
    write_bytes(&mut out, suffix.as_slice());
    assert(out@ =~= atlas_file_name_spec(font_stem.spec_bytes(), path_hash, size_tag));
    out
}

} // verus!
