//! The compression primitive and the path-safety decision.
//!
//! Compression is delegated to the `flate2` crate; its output is named by
//! the uninterpreted functions below. The path-safety check is the pure
//! decision over already-canonicalized paths: resolving a path against the
//! filesystem is the caller's concern, judging the resolved forms is ours.

use vstd::prelude::*;

use crate::text;
use flate2::write::GzEncoder;
use flate2::Compression;
use std::io::Write;

verus! {

/// The gzip compression of `data` at the default level: a fixed function of
/// the bytes alone (the emitted header carries no timestamp).
pub uninterp spec fn gzip_of(data: Seq<u8>) -> Seq<u8>;

/// The gzip decompression of `data`; `None` when `data` is not a well-formed
/// gzip stream.
pub uninterp spec fn gunzip_of(data: Seq<u8>) -> Option<Seq<u8>>;

/// Relies on flate2's `GzEncoder` over a `Vec<u8>` sink: writing to a vector
/// cannot fail, and decompressing the produced stream yields the input again.
#[verifier::external_body]
pub fn gzip_compress(data: &[u8]) -> (r: Vec<u8>)
    ensures
        r@ == gzip_of(data@),
        gunzip_of(r@) == Some(data@),
{
    let mut encoder = GzEncoder::new(Vec::new(), Compression::default());
    encoder.write_all(data).unwrap();
    encoder.finish().unwrap()
}

/// True when the path `c` is equal to or nested under the path `b`, both in
/// canonical form: `b` itself, or `b` extended at a component boundary.
pub open spec fn path_within(c: Seq<char>, b: Seq<char>) -> bool {
    ||| c == b
    ||| (c.len() > b.len() && c.take(b.len() as int) == b && ((b.len() > 0 && b[b.len() - 1]
        == '/') || c[b.len() as int] == '/'))
}

/// A request is safe exactly when both the candidate and the served directory
/// canonicalized successfully and the candidate lies within the directory.
pub open spec fn safe_path(c: Option<Seq<char>>, b: Option<Seq<char>>) -> bool {
    &&& c matches Some(cv)
    &&& b matches Some(bv)
    &&& path_within(cv, bv)
}

/// Decides whether a static-file request may proceed. `canonical_path` is the
/// canonical form of the requested file (or of its parent directory, for a
/// file that does not exist yet), `canonical_base` the canonical form of the
/// served directory; `None` records that canonicalization failed, which is
/// always unsafe.
pub fn is_safe_path(canonical_path: &Option<String>, canonical_base: &Option<String>) -> (r: bool)
    ensures
        r == safe_path(canonical_path.deep_view(), canonical_base.deep_view()),
{
    match (canonical_path, canonical_base) {
        (Some(c), Some(b)) => {
            let c_str = c.as_str();
            let b_str = b.as_str();
            if text::str_eq(c_str, b_str) {
                true
            } else if text::str_has_prefix(c_str, b_str) {
                let b_len: usize = b_str.unicode_len();
                let c_len: usize = c_str.unicode_len();
                if c_len > b_len {
                    (b_len > 0 && b_str.get_char(b_len - 1) == '/') || c_str.get_char(b_len) == '/'
                } else {
                    false
                }
            } else {
                false
            }
        },
        _ => false,
    }
}

} // verus!
