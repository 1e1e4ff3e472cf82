//! 16-byte-per-row rendering of binary content: offset column, hex cells,
//! and a printable-ASCII column.

use vstd::prelude::*;
use crate::buffer::Buffer;

verus! {

pub const HEX_DIGITS: [char; 16] = [
    '0',
    '1',
    '2',
    '3',
    '4',
    '5',
    '6',
    '7',
    '8',
    '9',
    'a',
    'b',
    'c',
    'd',
    'e',
    'f',
];

/// The hex digit characters of `n`, most significant first.
pub open spec fn hex_seq(n: int) -> Seq<char>
    decreases n,
{
    if n < 16 {
        seq![HEX_DIGITS@[if n < 0 { 0int } else { n }]]
    } else {
        hex_seq(n / 16).push(HEX_DIGITS@[n % 16])
    }
}

/// `k` zero characters.
pub open spec fn zero_chars(k: int) -> Seq<char>
    decreases k,
{
    if k <= 0 {
        Seq::empty()
    } else {
        zero_chars(k - 1).push('0')
    }
}

/// `k` space characters.
pub open spec fn space_chars(k: int) -> Seq<char>
    decreases k,
{
    if k <= 0 {
        Seq::empty()
    } else {
        space_chars(k - 1).push(' ')
    }
}

/// The offset column: hex digits of `n`, left-padded with zeros to width 8.
pub open spec fn offset_hex(n: int) -> Seq<char> {
    zero_chars(8 - hex_seq(n).len()) + hex_seq(n)
}

/// Two hex digit characters of one byte.
pub open spec fn byte_hex(b: u8) -> Seq<char> {
    seq![HEX_DIGITS@[b as int / 16], HEX_DIGITS@[b as int % 16]]
}

/// Hex cells of a row's bytes, one space between neighbours.
pub open spec fn hex_cells(chunk: Seq<u8>) -> Seq<char>
    decreases chunk.len(),
{
    if chunk.len() == 0 {
        Seq::empty()
    } else if chunk.len() == 1 {
        byte_hex(chunk[0])
    } else {
        hex_cells(chunk.drop_last()) + seq![' '] + byte_hex(chunk.last())
    }
}

/// The printable-ASCII column's character for one byte.
pub open spec fn ascii_cell(b: u8) -> char {
    if 32 <= b && b < 127 {
        b as char
    } else {
        '.'
    }
}

/// One full row: offset, two spaces, hex cells padded to width 48, a
/// space, and the ASCII column between bars.  Empty for a row beyond the
/// content.
pub open spec fn spec_hex_line(data: Seq<u8>, n: int) -> Seq<char> {
    let start = 16 * n;
    if start >= data.len() || n < 0 {
        Seq::empty()
    } else {
        let end = if start + 16 <= data.len() {
            start + 16
        } else {
            data.len() as int
        };
        let chunk = data.subrange(start, end);
        offset_hex(start) + seq![' ', ' '] + hex_cells(chunk) + space_chars(
            48 - hex_cells(chunk).len(),
        ) + seq![' ', '|'] + chunk.map_values(|b: u8| ascii_cell(b)) + seq!['|']
    }
}

/// Appends the minimal hex digits of `v`.
fn push_hex_min(s: &mut String, v: usize)
    ensures
        final(s)@ == old(s)@ + hex_seq(v as int),
    decreases v,
{
    if v >= 16 {
        push_hex_min(s, v / 16);
    }
    crate::text::string_push(s, HEX_DIGITS[v % 16]);
    proof {
        assert(s@ =~= old(s)@ + hex_seq(v as int));
    }
}

/// Number of hex digits of `v`.
pub open spec fn hex_digit_count(n: int) -> int
    decreases n,
{
    if n < 16 {
        1
    } else {
        1 + hex_digit_count(n / 16)
    }
}

/// `hex_seq` has `hex_digit_count` characters.
proof fn lemma_hex_seq_len(n: int)
    ensures
        hex_seq(n).len() == hex_digit_count(n),
        hex_digit_count(n) >= 1,
    decreases n,
{
    if n >= 16 {
        lemma_hex_seq_len(n / 16);
    }
}

/// Powers of sixteen.
pub open spec fn pow16(k: nat) -> nat
    decreases k,
{
    if k == 0 {
        1
    } else {
        16 * pow16((k - 1) as nat)
    }
}

/// A value below the `k`-th power of sixteen has at most `k` hex digits.
proof fn lemma_hex_digit_count_max(n: int, k: nat)
    requires
        k >= 1,
        0 <= n < pow16(k),
    ensures
        hex_digit_count(n) <= k,
    decreases k,
{
    if n >= 16 {
        assert(pow16(k) == 16 * pow16((k - 1) as nat));
        let q = pow16((k - 1) as nat);
        assert(n / 16 < q) by (nonlinear_arith)
            requires
                n < 16 * q,
                q >= 1,
        ;
        lemma_hex_digit_count_max(n / 16, (k - 1) as nat);
    }
}

/// Counts the hex digits of `v`.
fn count_hex_digits(v: usize) -> (r: usize)
    ensures
        r == hex_digit_count(v as int),
        r >= 1,
{
    let mut m = v;
    let mut count: usize = 1;
    while m >= 16
        invariant
            count >= 1,
            count + hex_digit_count(m as int) == 1 + hex_digit_count(v as int),
        decreases m,
    {
        proof {
            lemma_hex_count_usize(v as int);
            lemma_hex_seq_len((m / 16) as int);
            assert(hex_digit_count(m as int) >= 2);
        }
        m = m / 16;
        count = count + 1;
    }
    count
}

/// Any value that fits in 64 bits has at most 16 hex digits.
proof fn lemma_hex_count_usize(n: int)
    requires
        0 <= n < 0x1_0000_0000_0000_0000,
    ensures
        hex_digit_count(n) <= 16,
{
    assert(pow16(16) == 0x1_0000_0000_0000_0000) by {
        reveal_with_fuel(pow16, 17);
    }
    lemma_hex_digit_count_max(n, 16);
}

impl Buffer {
    /// Renders row `n` of the 16-byte-per-row binary view.
    pub fn hex_line(&self, n: usize) -> (r: String)
        ensures
            r@ == spec_hex_line(self.content@, n as int),
    {
        let len = self.content.len();
        if n > usize::MAX / 16 {
            proof {
                assert(16 * (n as int) > usize::MAX as int) by (nonlinear_arith)
                    requires
                        n as int > usize::MAX as int / 16,
                ;
            }
            return String::new();
        }
        let start = 16 * n;
        if start >= len {
            return String::new();
        }
        let end = if len - start >= 16 {
            start + 16
        } else {
            len
        };
        let m = end - start;
        let mut s = String::new();

        // Offset column, zero-padded to 8 digits.
        let digits = count_hex_digits(start);
        let mut pad: usize = 0;
        let pad_total = if digits >= 8 {
            0
        } else {
            8 - digits
        };
        while pad < pad_total
            invariant
                pad <= pad_total,
                s@ =~= zero_chars(pad as int),
            decreases pad_total - pad,
        {
            crate::text::string_push(&mut s, '0');
            proof {
                assert(s@ =~= zero_chars(pad + 1));
            }
            pad = pad + 1;
        }
        proof {
            lemma_hex_seq_len(start as int);
            assert(s@ =~= zero_chars(8 - hex_seq(start as int).len()));
        }
        push_hex_min(&mut s, start);
        proof {
            assert(s@ =~= offset_hex(start as int));
        }
        crate::text::string_push(&mut s, ' ');
        crate::text::string_push(&mut s, ' ');

        // Hex cells.
        let ghost chunk = self.content@.subrange(start as int, end as int);
        let ghost head = offset_hex(start as int) + seq![' ', ' '];
        let mut i: usize = 0;
        while i < m
            invariant
                start + m == end <= self.content@.len(),
                m <= 16,
                i <= m,
                chunk == self.content@.subrange(start as int, end as int),
                head == offset_hex(start as int) + seq![' ', ' '],
                s@ =~= head + hex_cells(chunk.subrange(0, i as int)),
                hex_cells(chunk.subrange(0, i as int)).len() == if i == 0 {
                    0int
                } else {
                    3 * i - 1
                },
            decreases m - i,
        {
            if i > 0 {
                crate::text::string_push(&mut s, ' ');
            }
            let b = *vstd::slice::slice_index_get(self.content.as_slice(), start + i);
            proof {
                assert(chunk[i as int] == self.content@[start + i]);
            }
            crate::text::string_push(&mut s, HEX_DIGITS[(b / 16) as usize]);
            crate::text::string_push(&mut s, HEX_DIGITS[(b % 16) as usize]);
            proof {
                let pre = chunk.subrange(0, i as int);
                let cur = chunk.subrange(0, i + 1);
                assert(cur.drop_last() =~= pre);
                assert(cur.last() == chunk[i as int]);
                if i == 0 {
                    assert(hex_cells(cur) =~= byte_hex(chunk[0]));
                } else {
                    assert(hex_cells(cur) =~= hex_cells(pre) + seq![' '] + byte_hex(
                        chunk[i as int],
                    ));
                }
                assert(s@ =~= head + hex_cells(cur));
            }
            i = i + 1;
        }
        proof {
            assert(chunk.subrange(0, m as int) =~= chunk);
        }

        // Pad the cells column to width 48.
        let cells_len = 3 * m - 1;
        let mut sp: usize = 0;
        let sp_total = 48 - cells_len;
        let ghost head2 = head + hex_cells(chunk);
        while sp < sp_total
            invariant
                sp <= sp_total,
                s@ =~= head2 + space_chars(sp as int),
                head2 == head + hex_cells(chunk),
            decreases sp_total - sp,
        {
            crate::text::string_push(&mut s, ' ');
            proof {
                assert(s@ =~= head2 + space_chars(sp + 1));
            }
            sp = sp + 1;
        }
        crate::text::string_push(&mut s, ' ');
        crate::text::string_push(&mut s, '|');

        // ASCII column.
        let ghost head3 = head2 + space_chars(48 - hex_cells(chunk).len()) + seq![' ', '|'];
        proof {
            assert(s@ =~= head3);
        }
        let mut k: usize = 0;
        while k < m
            invariant
                start + m == end <= self.content@.len(),
                k <= m,
                chunk == self.content@.subrange(start as int, end as int),
                s@ =~= head3 + chunk.subrange(0, k as int).map_values(|b: u8| ascii_cell(b)),
                head3 == head2 + space_chars(48 - hex_cells(chunk).len()) + seq![' ', '|'],
            decreases m - k,
        {
            let b = *vstd::slice::slice_index_get(self.content.as_slice(), start + k);
            proof {
                assert(chunk[k as int] == self.content@[start + k]);
            }
            if 32 <= b && b < 127 {
                crate::text::string_push(&mut s, b as char);
            } else {
                crate::text::string_push(&mut s, '.');
            }
            proof {
                let pre = chunk.subrange(0, k as int);
                let cur = chunk.subrange(0, k + 1);
                assert(cur.drop_last() =~= pre);
                pre.lemma_push_map_commute(|b: u8| ascii_cell(b), chunk[k as int]);
                assert(cur =~= pre.push(chunk[k as int]));
                assert(s@ =~= head3 + cur.map_values(|b: u8| ascii_cell(b)));
            }
            k = k + 1;
        }
        crate::text::string_push(&mut s, '|');
        proof {
            assert(chunk.subrange(0, m as int) =~= chunk);
            assert(s@ =~= spec_hex_line(self.content@, n as int));
        }
        s
    }
}

} // verus!
