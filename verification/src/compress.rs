//! Transparent decompression of stored content.
//!
//! Content whose file name carries a recognized compressed extension is
//! inflated before it is indexed; the inflated bytes become the content.
//! The inflaters come from outside crates; each result is a function of the
//! compressed bytes alone and is given a name here.

use vstd::prelude::*;
use vstd::string::StrSliceExecFns;

verus! {

/// Failure to inflate content that its file extension declares compressed.
#[derive(Clone, Copy, PartialEq, Eq, Debug)]
pub enum DecompressError {
    Corrupt,
}

/// What gzip inflation yields on the given bytes, or nothing when they are
/// not a well-formed gzip stream.
pub uninterp spec fn gzip_inflate(b: Seq<u8>) -> Option<Seq<u8>>;

/// What zstd inflation yields on the given bytes, or nothing when they are
/// not a well-formed zstd stream.
pub uninterp spec fn zstd_inflate(b: Seq<u8>) -> Option<Seq<u8>>;

/// What bzip2 inflation yields on the given bytes, or nothing when they are
/// not a well-formed bzip2 stream.
pub uninterp spec fn bzip2_inflate(b: Seq<u8>) -> Option<Seq<u8>>;

/// Relies on flate2's `GzDecoder` reading from an in-memory slice: the
/// outcome depends on the compressed bytes alone.
#[verifier::external_body]
fn gz_decompress(data: &[u8]) -> (r: Option<Vec<u8>>)
    ensures
        r is Some <==> gzip_inflate(data@) is Some,
        r matches Some(v) ==> gzip_inflate(data@) == Some(v@),
{
    let mut dec = flate2::read::GzDecoder::new(data);
    let mut out = Vec::new();
    match std::io::Read::read_to_end(&mut dec, &mut out) {
        Ok(_) => Some(out),
        Err(_) => None,
    }
}

/// Relies on `zstd::stream::decode_all` over an in-memory slice: the
/// outcome depends on the compressed bytes alone.
#[verifier::external_body]
fn zst_decompress(data: &[u8]) -> (r: Option<Vec<u8>>)
    ensures
        r is Some <==> zstd_inflate(data@) is Some,
        r matches Some(v) ==> zstd_inflate(data@) == Some(v@),
{
    match zstd::stream::decode_all(data) {
        Ok(out) => Some(out),
        Err(_) => None,
    }
}

/// Relies on bzip2's `BzDecoder` reading from an in-memory slice: the
/// outcome depends on the compressed bytes alone.
#[verifier::external_body]
fn bz2_decompress(data: &[u8]) -> (r: Option<Vec<u8>>)
    ensures
        r is Some <==> bzip2_inflate(data@) is Some,
        r matches Some(v) ==> bzip2_inflate(data@) == Some(v@),
{
    let mut dec = bzip2::read::BzDecoder::new(data);
    let mut out = Vec::new();
    match std::io::Read::read_to_end(&mut dec, &mut out) {
        Ok(_) => Some(out),
        Err(_) => None,
    }
}

/// Index of the last `.` in `name`, or -1 when there is none.
pub open spec fn last_dot(name: Seq<char>) -> int
    decreases name.len(),
{
    if name.len() == 0 {
        -1
    } else if name.last() == '.' {
        name.len() - 1
    } else {
        last_dot(name.drop_last())
    }
}

/// The extension of a file name: what follows the final `.`, absent when
/// there is no `.` or when the name starts with its only `.`.
pub open spec fn file_extension(name: Seq<char>) -> Option<Seq<char>> {
    let i = last_dot(name);
    if i <= 0 {
        None
    } else {
        Some(name.subrange(i + 1, name.len() as int))
    }
}

/// Which inflater, if any, handles the given file name.
pub open spec fn compression_kind(name: Seq<char>) -> Option<int> {
    if file_extension(name) == Some("gz"@) {
        Some(0int)
    } else if file_extension(name) == Some("zst"@) || file_extension(name) == Some("zstd"@) {
        Some(1int)
    } else if file_extension(name) == Some("bz2"@) {
        Some(2int)
    } else {
        None
    }
}

/// What transparent decompression yields for a file name and raw bytes:
/// `None` when the name carries no recognized compressed extension,
/// otherwise the inflater's outcome.
pub open spec fn spec_decompressed(name: Seq<char>, raw: Seq<u8>) -> Option<Option<Seq<u8>>> {
    match compression_kind(name) {
        Some(k) => Some(
            if k == 0 {
                gzip_inflate(raw)
            } else if k == 1 {
                zstd_inflate(raw)
            } else {
                bzip2_inflate(raw)
            },
        ),
        None => None,
    }
}

/// Finds the last `.` of `name`, as `last_dot` names it.
fn find_last_dot(name: &str) -> (r: Option<usize>)
    ensures
        match r {
            Some(i) => last_dot(name@) == i as int && i < name@.len(),
            None => last_dot(name@) == -1,
        },
{
    let n = name.unicode_len();
    let mut k = n;
    proof {
        assert(name@.subrange(0, n as int) =~= name@);
    }
    while k > 0
        invariant
            n == name@.len(),
            k <= n,
            last_dot(name@) == last_dot(name@.subrange(0, k as int)),
        decreases k,
    {
        proof {
            assert(name@.subrange(0, k as int).last() == name@[k - 1]);
            assert(name@.subrange(0, k as int).drop_last() =~= name@.subrange(0, k - 1));
        }
        if name.get_char(k - 1) == '.' {
            return Some(k - 1);
        }
        k = k - 1;
    }
    proof {
        assert(name@.subrange(0, 0) =~= Seq::<char>::empty());
    }
    None
}

/// The extension of `name`, exactly `file_extension(name@)`.
pub fn extension_of(name: &str) -> (r: Option<String>)
    ensures
        match r {
            Some(e) => file_extension(name@) == Some(e@),
            None => file_extension(name@) is None,
        },
{
    match find_last_dot(name) {
        None => None,
        Some(i) => {
            if i == 0 {
                None
            } else {
                let n = name.unicode_len();
                let mut out = String::new();
                let mut j = i + 1;
                while j < n
                    invariant
                        n == name@.len(),
                        i + 1 <= j <= n,
                        out@ =~= name@.subrange(i + 1, j as int),
                    decreases n - j,
                {
                    crate::text::string_push(&mut out, name.get_char(j));
                    proof {
                        assert(out@ =~= name@.subrange(i + 1, j + 1));
                    }
                    j = j + 1;
                }
                proof {
                    assert(out@ =~= name@.subrange(i + 1, n as int));
                }
                Some(out)
            }
        },
    }
}

/// Inflates `data` when the file name `name` carries a recognized
/// compressed extension; hands back `Ok(None)` for any other name, and
/// `Err` when the declared compression cannot be inflated.
pub fn decompress_if_needed(name: &str, data: &[u8]) -> (r: Result<Option<Vec<u8>>, DecompressError>)
    ensures
        match spec_decompressed(name@, data@) {
            None => r == Result::<Option<Vec<u8>>, DecompressError>::Ok(
                Option::<Vec<u8>>::None,
            ),
            Some(out) => match out {
                Some(bytes) => r matches Ok(Some(v)) && v@ == bytes,
                None => r is Err,
            },
        },
{
    let ext = match extension_of(name) {
        Some(e) => e,
        None => {
            return Ok(None);
        },
    };
    let s = ext.as_str();
    if crate::text::str_eq(s, "gz") {
        match gz_decompress(data) {
            Some(v) => Ok(Some(v)),
            None => Err(DecompressError::Corrupt),
        }
    } else if crate::text::str_eq(s, "zst") || crate::text::str_eq(s, "zstd") {
        match zst_decompress(data) {
            Some(v) => Ok(Some(v)),
            None => Err(DecompressError::Corrupt),
        }
    } else if crate::text::str_eq(s, "bz2") {
        match bz2_decompress(data) {
            Some(v) => Ok(Some(v)),
            None => Err(DecompressError::Corrupt),
        }
    } else {
        Ok(None)
    }
}

} // verus!
