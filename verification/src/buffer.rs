//! One open document: fixed byte content, its line-start table, and
//! metadata.  Content is replaced wholesale on reload and never mutated in
//! place.

use vstd::prelude::*;
use vstd::utf8::{decode_utf8, encode_utf8, valid_utf8};
use crate::lines::{
    line_starts, line_bytes, strip_eol, index_lines, lemma_line_starts_props,
};
use crate::changes::{ChangeMap, GitChange};
use crate::compress::{DecompressError, spec_decompressed, decompress_if_needed};

verus! {

/// Content is treated as binary when a NUL byte occurs among its first
/// 8 KiB (or anywhere, for shorter content).
pub open spec fn spec_is_binary(data: Seq<u8>) -> bool {
    exists|i: int| 0 <= i < data.len() && i < 8192 && data[i] == 0
}

/// Rows of a 16-byte-per-row rendering of `len` bytes.
pub open spec fn spec_hex_rows(len: int) -> int {
    (len + 15) / 16
}

/// The text of line `n`: its bytes with the end-of-line marker stripped,
/// decoded as UTF-8; absent when `n` is out of range or the bytes are not
/// valid text.
pub open spec fn spec_get_line(data: Seq<u8>, n: int) -> Option<Seq<char>> {
    if 0 <= n < line_starts(data).len() {
        let lb = strip_eol(line_bytes(data, n));
        if valid_utf8(lb) {
            Some(decode_utf8(lb))
        } else {
            None
        }
    } else {
        None
    }
}

/// The lines of `data` below line `n` that decode as text, in order.
pub open spec fn spec_snapshot(data: Seq<u8>, n: int) -> Seq<Seq<char>>
    decreases n,
{
    if n <= 0 {
        Seq::empty()
    } else {
        let rest = spec_snapshot(data, n - 1);
        match spec_get_line(data, n - 1) {
            Some(s) => rest.push(s),
            None => rest,
        }
    }
}

/// One open document.
pub struct Buffer {
    /// The fixed byte content.
    pub content: Vec<u8>,
    /// Byte offset of the start of each line.
    pub line_offsets: Vec<usize>,
    /// Original file path (`None` for content that has no backing file).
    pub path: Option<String>,
    /// Display name.
    pub name: String,
    /// Change annotations per line.
    pub git_changes: ChangeMap,
    /// True when this buffer holds a synthesized line-difference listing.
    pub is_diff: bool,
}

impl Buffer {
    /// The line-start table is exactly the content's, and the annotation
    /// map is well formed.
    pub open spec fn wf(&self) -> bool {
        &&& self.line_offsets@.map_values(|x: usize| x as int) == line_starts(self.content@)
        &&& self.git_changes.wf()
    }

    /// Builds a buffer over fixed bytes.
    pub fn from_bytes(data: Vec<u8>, name: String, path: Option<String>, is_diff: bool) -> (r:
        Buffer)
        ensures
            r.wf(),
            r.content@ == data@,
            r.name == name,
            r.path == path,
            r.is_diff == is_diff,
            r.git_changes@ == Map::<int, GitChange>::empty(),
    {
        let line_offsets = index_lines(&data);
        Buffer { content: data, line_offsets, path, name, git_changes: ChangeMap::new(), is_diff }
    }

    /// Builds a buffer from the raw bytes of a file, inflating content
    /// whose display name carries a recognized compressed extension.
    pub fn from_file_bytes(raw: Vec<u8>, name: String, path: Option<String>) -> (r: Result<
        Buffer,
        DecompressError,
    >)
        ensures
            match spec_decompressed(name@, raw@) {
                None => r matches Ok(b) && b.content@ == raw@,
                Some(out) => match out {
                    Some(bytes) => r matches Ok(b) && b.content@ == bytes,
                    None => r is Err,
                },
            },
            r matches Ok(b) ==> b.wf() && b.name == name && b.path == path && !b.is_diff
                && b.git_changes@ == Map::<int, GitChange>::empty(),
    {
        let data = match decompress_if_needed(name.as_str(), raw.as_slice()) {
            Ok(Some(inflated)) => inflated,
            Ok(None) => raw,
            Err(e) => {
                return Err(e);
            },
        };
        Ok(Self::from_bytes(data, name, path, false))
    }

    /// Total number of text lines.
    pub fn line_count(&self) -> (r: usize)
        requires
            self.wf(),
        ensures
            r == line_starts(self.content@).len(),
    {
        self.line_offsets.len()
    }

    /// Number of 16-byte rows a binary rendering of this content has.
    pub fn hex_line_count(&self) -> (r: usize)
        ensures
            r == spec_hex_rows(self.content@.len() as int),
    {
        let len = self.content.len();
        if len == 0 {
            0
        } else {
            let r = (len - 1) / 16 + 1;
            proof {
                assert(r == spec_hex_rows(len as int)) by (nonlinear_arith)
                    requires
                        len >= 1,
                        r == (len - 1) / 16 + 1,
                ;
            }
            r
        }
    }

    /// True when the content looks binary.
    pub fn is_binary(&self) -> (r: bool)
        ensures
            r == spec_is_binary(self.content@),
    {
        let len = self.content.len();
        let check_len = if len < 8192 {
            len
        } else {
            8192
        };
        let mut i: usize = 0;
        while i < check_len
            invariant
                check_len <= self.content@.len(),
                check_len <= 8192,
                check_len == if self.content@.len() < 8192 {
                    self.content@.len() as int
                } else {
                    8192int
                },
                i <= check_len,
                forall|k: int| 0 <= k < i ==> self.content@[k] != 0,
            decreases check_len - i,
        {
            if *vstd::slice::slice_index_get(self.content.as_slice(), i) == 0 {
                return true;
            }
            i = i + 1;
        }
        false
    }

    /// Line count used by the viewport: hex rows for binary content, text
    /// lines otherwise.
    pub fn display_line_count(&self) -> (r: usize)
        requires
            self.wf(),
        ensures
            r == if spec_is_binary(self.content@) {
                spec_hex_rows(self.content@.len() as int)
            } else {
                line_starts(self.content@).len() as int
            },
    {
        if self.is_binary() {
            self.hex_line_count()
        } else {
            self.line_count()
        }
    }

    /// The text of line `n` without its end-of-line marker, absent when
    /// `n` is out of range or the line's bytes are not valid text.
    pub fn get_line(&self, n: usize) -> (r: Option<String>)
        requires
            self.wf(),
        ensures
            r is Some <==> spec_get_line(self.content@, n as int) is Some,
            r matches Some(s) ==> spec_get_line(self.content@, n as int) == Some(s@)
                && encode_utf8(s@) == strip_eol(line_bytes(self.content@, n as int)),
    {
        proof {
            lemma_line_starts_props(self.content@);
        }
        let count = self.line_offsets.len();
        if n >= count {
            return None;
        }
        let start = self.line_offsets[n];
        let end = if n + 1 < count {
            self.line_offsets[n + 1]
        } else {
            self.content.len()
        };
        let mut line: Vec<u8> = Vec::new();
        let mut j = start;
        while j < end
            invariant
                start <= j <= end <= self.content@.len(),
                line@ =~= self.content@.subrange(start as int, j as int),
            decreases end - j,
        {
            line.push(*vstd::slice::slice_index_get(self.content.as_slice(), j));
            proof {
                assert(line@ =~= self.content@.subrange(start as int, j + 1));
            }
            j = j + 1;
        }
        proof {
            assert(line@ =~= line_bytes(self.content@, n as int));
        }
        let llen = line.len();
        if llen > 0 && line[llen - 1] == 10 {
            line.pop();
        }
        let llen2 = line.len();
        if llen2 > 0 && line[llen2 - 1] == 13 {
            line.pop();
        }
        proof {
            assert(line@ =~= strip_eol(line_bytes(self.content@, n as int)));
        }
        crate::text::bytes_to_string(line.as_slice())
    }

    /// Clones every line that decodes as text into an owned snapshot, in
    /// line order.
    pub fn text_snapshot(&self) -> (r: Vec<String>)
        requires
            self.wf(),
        ensures
            r@.map_values(|s: String| s@) == spec_snapshot(
                self.content@,
                line_starts(self.content@).len() as int,
            ),
    {
        let count = self.line_count();
        let mut out: Vec<String> = Vec::new();
        let mut i: usize = 0;
        while i < count
            invariant
                self.wf(),
                count == line_starts(self.content@).len(),
                i <= count,
                out@.map_values(|s: String| s@) =~= spec_snapshot(self.content@, i as int),
            decreases count - i,
        {
            let ghost prev = out@;
            if let Some(s) = self.get_line(i) {
                out.push(s);
                proof {
                    prev.lemma_push_map_commute(|s: String| s@, out@.last());
                }
            }
            proof {
                assert(out@.map_values(|s: String| s@) =~= spec_snapshot(self.content@, i + 1));
            }
            i = i + 1;
        }
        out
    }

    /// Replaces the content from freshly read raw bytes, re-inflating when
    /// the display name declares compression; identity and metadata are
    /// preserved, and on failure the buffer is untouched.
    pub fn apply_reload(&mut self, raw: Vec<u8>) -> (r: Result<(), DecompressError>)
        requires
            old(self).wf(),
        ensures
            final(self).wf(),
            final(self).name == old(self).name,
            final(self).path == old(self).path,
            final(self).is_diff == old(self).is_diff,
            final(self).git_changes == old(self).git_changes,
            match spec_decompressed(old(self).name@, raw@) {
                None => r is Ok && final(self).content@ == raw@,
                Some(out) => match out {
                    Some(bytes) => r is Ok && final(self).content@ == bytes,
                    None => r is Err && *final(self) == *old(self),
                },
            },
    {
        let data = match decompress_if_needed(self.name.as_str(), raw.as_slice()) {
            Ok(Some(inflated)) => inflated,
            Ok(None) => raw,
            Err(e) => {
                return Err(e);
            },
        };
        self.line_offsets = index_lines(&data);
        self.content = data;
        Ok(())
    }

    /// Stores freshly computed change annotations.
    pub fn set_git_changes(&mut self, m: ChangeMap)
        requires
            old(self).wf(),
            m.wf(),
        ensures
            final(self).wf(),
            final(self).git_changes == m,
            final(self).content == old(self).content,
            final(self).line_offsets == old(self).line_offsets,
            final(self).name == old(self).name,
            final(self).path == old(self).path,
            final(self).is_diff == old(self).is_diff,
    {
        self.git_changes = m;
    }
}

} // verus!
