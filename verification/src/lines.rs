//! Line indexing: byte offsets of line starts inside a fixed byte content.
//!
//! A content of `n > 0` bytes has one line per start offset: offset 0, plus
//! every offset that immediately follows a `\n` byte that is not the final
//! byte.  Empty content has no lines at all.

use vstd::prelude::*;

verus! {

/// Line-start offsets contributed by positions `0 .. n` of `data`: every
/// offset `j` with `0 < j <= n` that follows a newline byte and is not one
/// past the final byte.
pub open spec fn newline_starts(data: Seq<u8>, n: int) -> Seq<int>
    decreases n,
{
    if n <= 0 {
        Seq::empty()
    } else if data[n - 1] == 10 && n < data.len() {
        newline_starts(data, n - 1).push(n)
    } else {
        newline_starts(data, n - 1)
    }
}

/// All line-start offsets of `data`: offset 0 (when the content is not
/// empty) followed by the starts after each interior newline.
pub open spec fn line_starts(data: Seq<u8>) -> Seq<int> {
    if data.len() == 0 {
        Seq::empty()
    } else {
        seq![0int] + newline_starts(data, data.len() as int)
    }
}

/// Number of newline bytes among positions `0 .. n` that are not the final
/// byte of `data`.
pub open spec fn interior_newline_count(data: Seq<u8>, n: int) -> int
    decreases n,
{
    if n <= 0 {
        0
    } else {
        interior_newline_count(data, n - 1) + if data[n - 1] == 10 && n < data.len() {
            1int
        } else {
            0int
        }
    }
}

/// Every start produced by `newline_starts` lies in `(0, n]`, stays below
/// the content length, and the sequence is strictly increasing.
pub proof fn lemma_newline_starts_props(data: Seq<u8>, n: int)
    requires
        n <= data.len(),
    ensures
        forall|k: int|
            0 <= k < newline_starts(data, n).len() ==> 0 < #[trigger] newline_starts(data, n)[k]
                <= n && newline_starts(data, n)[k] < data.len(),
        forall|k1: int, k2: int|
            0 <= k1 < k2 < newline_starts(data, n).len() ==> newline_starts(data, n)[k1]
                < newline_starts(data, n)[k2],
    decreases n,
{
    if n > 0 {
        lemma_newline_starts_props(data, n - 1);
        let prev = newline_starts(data, n - 1);
        let cur = newline_starts(data, n);
        if data[n - 1] == 10 && n < data.len() {
            assert forall|k: int| 0 <= k < cur.len() implies 0 < #[trigger] cur[k] <= n && cur[k]
                < data.len() by {
                if k < prev.len() {
                    assert(cur[k] == prev[k]);
                } else {
                    assert(cur[k] == n);
                }
            }
            assert forall|k1: int, k2: int| 0 <= k1 < k2 < cur.len() implies #[trigger] cur[k1]
                < #[trigger] cur[k2] by {
                if k2 < prev.len() {
                    assert(cur[k1] == prev[k1] && cur[k2] == prev[k2]);
                } else {
                    assert(cur[k2] == n && cur[k1] == prev[k1] && prev[k1] <= n - 1);
                }
            }
        }
    }
}

/// An offset `j` is in `newline_starts(data, n)` exactly when it follows a
/// newline among the first `n` positions and is not one past the final byte.
pub proof fn lemma_newline_starts_mem(data: Seq<u8>, n: int, j: int)
    requires
        n <= data.len(),
    ensures
        newline_starts(data, n).contains(j) <==> (0 < j <= n && j < data.len() && data[j - 1]
            == 10),
    decreases n,
{
    if n > 0 {
        lemma_newline_starts_mem(data, n - 1, j);
        if data[n - 1] == 10 && n < data.len() {
            assert(newline_starts(data, n).last() == n);
            if j != n && newline_starts(data, n).contains(j) {
                let k = choose|k: int|
                    0 <= k < newline_starts(data, n).len() && #[trigger] newline_starts(data, n)[k]
                        == j;
                assert(newline_starts(data, n - 1)[k] == j);
                assert(newline_starts(data, n - 1).contains(j));
            }
            if newline_starts(data, n - 1).contains(j) {
                let k = choose|k: int|
                    0 <= k < newline_starts(data, n - 1).len() && #[trigger] newline_starts(
                        data,
                        n - 1,
                    )[k] == j;
                assert(newline_starts(data, n)[k] == j);
            }
        }
    }
}

/// `newline_starts` and `interior_newline_count` agree on length.
pub proof fn lemma_newline_starts_len(data: Seq<u8>, n: int)
    ensures
        newline_starts(data, n).len() == interior_newline_count(data, n),
    decreases n,
{
    if n > 0 {
        lemma_newline_starts_len(data, n - 1);
    }
}

/// The line count of any content equals the number of newline bytes that are
/// not at the final byte, plus one when the content is not empty.
pub proof fn lemma_index_len(data: Seq<u8>)
    ensures
        line_starts(data).len() == interior_newline_count(data, data.len() as int) + if data.len()
            > 0 {
            1int
        } else {
            0int
        },
{
    lemma_newline_starts_len(data, data.len() as int);
}

/// Shape facts for the full line-start table: it begins at offset 0, is
/// strictly increasing, and stays inside the content.
pub proof fn lemma_line_starts_props(data: Seq<u8>)
    ensures
        data.len() == 0 ==> line_starts(data).len() == 0,
        data.len() > 0 ==> line_starts(data).len() > 0 && line_starts(data)[0] == 0,
        forall|k: int|
            0 <= k < line_starts(data).len() ==> 0 <= #[trigger] line_starts(data)[k]
                < data.len(),
        forall|k1: int, k2: int|
            0 <= k1 < k2 < line_starts(data).len() ==> line_starts(data)[k1] < line_starts(
                data,
            )[k2],
{
    lemma_newline_starts_props(data, data.len() as int);
}

/// End offset of line `i`: the next line's start, or the end of the content
/// for the final line.
pub open spec fn line_end(data: Seq<u8>, i: int) -> int {
    if i + 1 < line_starts(data).len() {
        line_starts(data)[i + 1]
    } else {
        data.len() as int
    }
}

/// The raw bytes of line `i`, trailing newline included.
pub open spec fn line_bytes(data: Seq<u8>, i: int) -> Seq<u8> {
    data.subrange(line_starts(data)[i], line_end(data, i))
}

/// One trailing `\n` removed, then one trailing `\r`.
pub open spec fn strip_eol(b: Seq<u8>) -> Seq<u8> {
    let b1 = if b.len() > 0 && b.last() == 10 {
        b.drop_last()
    } else {
        b
    };
    if b1.len() > 0 && b1.last() == 13 {
        b1.drop_last()
    } else {
        b1
    }
}

/// Build the line-start table of `data`, exactly `line_starts(data@)`.
pub fn index_lines(data: &Vec<u8>) -> (offsets: Vec<usize>)
    ensures
        offsets@.map_values(|x: usize| x as int) == line_starts(data@),
{
    let mut offsets: Vec<usize> = Vec::new();
    if data.len() == 0 {
        assert(offsets@.map_values(|x: usize| x as int) =~= line_starts(data@));
        return offsets;
    }
    offsets.push(0);
    let n = data.len();
    for i in 0..n
        invariant
            n == data@.len(),
            n > 0,
            offsets@.map_values(|x: usize| x as int) =~= seq![0int] + newline_starts(
                data@,
                i as int,
            ),
    {
        let ghost prev_view = offsets@;
        if data[i] == 10 && i + 1 < n {
            offsets.push(i + 1);
        }
        proof {
            let prev = newline_starts(data@, i as int);
            let cur = newline_starts(data@, i + 1);
            if data@[i as int] == 10 && i + 1 < n {
                assert(cur == prev.push(i + 1));
                assert(offsets@ == prev_view.push((i + 1) as usize));
                prev_view.lemma_push_map_commute(|x: usize| x as int, (i + 1) as usize);
            } else {
                assert(cur == prev);
            }
            assert(offsets@.map_values(|x: usize| x as int) =~= seq![0int] + cur);
        }
    }
    offsets
}


/// Between one line's start and its end there is no interior newline:
/// only a line's final byte can be a newline.
pub proof fn lemma_no_interior_newline(data: Seq<u8>, i: int, j: int)
    requires
        0 <= i < line_starts(data).len(),
        line_starts(data)[i] < j < line_end(data, i),
    ensures
        data[j - 1] != 10,
{
    lemma_line_starts_props(data);
    let starts = line_starts(data);
    let nl = newline_starts(data, data.len() as int);
    if data[j - 1] == 10 {
        assert(j < data.len()) by {
            assert(line_end(data, i) <= data.len());
        }
        lemma_newline_starts_mem(data, data.len() as int, j);
        assert(nl.contains(j));
        let m0 = choose|m0: int| 0 <= m0 < nl.len() && #[trigger] nl[m0] == j;
        let m = m0 + 1;
        assert(starts[m] == j);
        assert(starts[i] < starts[m]);
        assert(m > i) by {
            if m <= i {
                assert(starts[m] < starts[i] || m == i);
            }
        }
        if i + 1 < starts.len() {
            assert(starts[m] < starts[i + 1]);
            assert(m < i + 1);
        } else {
            assert(m < starts.len());
        }
        assert(false);
    }
}

/// The byte just before every line start but the first is a newline.
pub proof fn lemma_byte_before_start(data: Seq<u8>, k: int)
    requires
        1 <= k < line_starts(data).len(),
    ensures
        0 < line_starts(data)[k] < data.len(),
        data[line_starts(data)[k] - 1] == 10,
{
    lemma_line_starts_props(data);
    let nl = newline_starts(data, data.len() as int);
    assert(line_starts(data)[k] == nl[k - 1]);
    assert(nl.contains(nl[k - 1]));
    lemma_newline_starts_mem(data, data.len() as int, nl[k - 1]);
}

/// A stripped line never ends with a newline.
pub proof fn lemma_stripped_no_trailing_newline(data: Seq<u8>, i: int)
    requires
        0 <= i < line_starts(data).len(),
    ensures
        strip_eol(line_bytes(data, i)).len() > 0 ==> strip_eol(line_bytes(data, i)).last() != 10,
{
    lemma_line_starts_props(data);
    let s = line_starts(data)[i];
    let e = line_end(data, i);
    let lb = line_bytes(data, i);
    let r = strip_eol(lb);
    if r.len() > 0 && r.last() == 10 {
        let b1 = if lb.len() > 0 && lb.last() == 10 {
            lb.drop_last()
        } else {
            lb
        };
        if b1.len() > 0 && b1.last() == 13 {
            assert(r == b1.drop_last());
        } else {
            assert(r == b1);
        }
        let a = s + r.len() - 1;
        assert(r.last() == data[a]);
        assert(s < a + 1 < e);
        lemma_no_interior_newline(data, i, a + 1);
    }
}

/// With carriage returns only immediately before newlines, a stripped
/// line never ends with a carriage return either.
pub proof fn lemma_stripped_no_trailing_cr(data: Seq<u8>, i: int)
    requires
        0 <= i < line_starts(data).len(),
        forall|j: int|
            0 <= j < data.len() && #[trigger] data[j] == 13 ==> j + 1 < data.len() && data[j + 1]
                == 10,
    ensures
        strip_eol(line_bytes(data, i)).len() > 0 ==> strip_eol(line_bytes(data, i)).last() != 13,
{
    lemma_line_starts_props(data);
    let s = line_starts(data)[i];
    let e = line_end(data, i);
    let lb = line_bytes(data, i);
    let r = strip_eol(lb);
    if r.len() > 0 && r.last() == 13 {
        let b1 = if lb.len() > 0 && lb.last() == 10 {
            lb.drop_last()
        } else {
            lb
        };
        let a = s + r.len() - 1;
        assert(r.last() == data[a]);
        assert(data[a] == 13);
        assert(data[a + 1] == 10);
        if b1.len() > 0 && b1.last() == 13 {
            assert(r == b1.drop_last());
            assert(s < a + 2 < e || a + 2 == e);
            if a + 2 < e {
                lemma_no_interior_newline(data, i, a + 2);
                assert(false);
            } else {
                assert(b1.last() == data[a + 1]);
                assert(false);
            }
        } else {
            assert(r == b1);
            if lb.len() > 0 && lb.last() == 10 {
                assert(b1.last() == data[e - 2]);
                assert(a == e - 2);
                assert(b1.len() > 0 && b1.last() == 13);
                assert(false);
            } else {
                assert(lb.last() == data[e - 1]);
                assert(a == e - 1);
                if a + 1 < data.len() {
                    if i + 1 < line_starts(data).len() {
                        lemma_byte_before_start(data, i + 1);
                        assert(data[e - 1] == 10);
                        assert(false);
                    } else {
                        assert(e == data.len());
                        assert(false);
                    }
                } else {
                    assert(false);
                }
            }
        }
    }
}

/// The first `k` stripped lines, joined by newlines.
pub open spec fn join_lines(data: Seq<u8>, k: int) -> Seq<u8>
    decreases k,
{
    if k <= 0 {
        Seq::empty()
    } else if k == 1 {
        strip_eol(line_bytes(data, 0))
    } else {
        join_lines(data, k - 1) + seq![10u8] + strip_eol(line_bytes(data, k - 1))
    }
}

/// For text without carriage returns, a full line (all but the last)
/// stripped is its bytes without the final newline.
proof fn lemma_stripped_full_line(data: Seq<u8>, j: int)
    requires
        forall|p: int| 0 <= p < data.len() ==> (#[trigger] data[p]) != 13,
        0 <= j,
        j + 1 < line_starts(data).len(),
    ensures
        strip_eol(line_bytes(data, j)) =~= data.subrange(
            line_starts(data)[j],
            line_starts(data)[j + 1] - 1,
        ),
{
    lemma_line_starts_props(data);
    lemma_byte_before_start(data, j + 1);
    let s = line_starts(data)[j];
    let e = line_starts(data)[j + 1];
    let lb = line_bytes(data, j);
    assert(lb.last() == data[e - 1]);
    assert(lb.last() == 10);
    let b1 = lb.drop_last();
    assert(b1 =~= data.subrange(s, e - 1));
    if b1.len() > 0 {
        assert(b1.last() == data[e - 2]);
        assert(b1.last() != 13);
    }
    assert(strip_eol(lb) == b1);
}

/// The first `k` joined lines of newline-free-of-CR text reproduce the
/// bytes up to one before the `k`-th line start.
proof fn lemma_join_prefix(data: Seq<u8>, k: int)
    requires
        forall|p: int| 0 <= p < data.len() ==> (#[trigger] data[p]) != 13,
        1 <= k < line_starts(data).len(),
    ensures
        join_lines(data, k) =~= data.subrange(0, line_starts(data)[k] - 1),
    decreases k,
{
    lemma_line_starts_props(data);
    lemma_byte_before_start(data, k);
    if k == 1 {
        lemma_stripped_full_line(data, 0);
    } else {
        lemma_join_prefix(data, k - 1);
        lemma_byte_before_start(data, k - 1);
        lemma_stripped_full_line(data, k - 1);
        let sk1 = line_starts(data)[k - 1];
        let sk = line_starts(data)[k];
        assert(data[sk1 - 1] == 10);
        assert(join_lines(data, k) =~= data.subrange(0, sk1 - 1) + seq![10u8] + data.subrange(
            sk1,
            sk - 1,
        ));
    }
}

/// Joining every stripped line with newlines reproduces the content minus
/// one trailing newline, for text without carriage returns.
pub proof fn lemma_join_all_lines(data: Seq<u8>)
    requires
        forall|p: int| 0 <= p < data.len() ==> (#[trigger] data[p]) != 13,
    ensures
        join_lines(data, line_starts(data).len() as int) =~= if data.len() > 0 && data.last()
            == 10 {
            data.drop_last()
        } else {
            data
        },
{
    lemma_line_starts_props(data);
    let n = line_starts(data).len() as int;
    if n == 0 {
        assert(data.len() == 0);
    } else {
        let s = line_starts(data)[n - 1];
        let lb = line_bytes(data, n - 1);
        assert(lb =~= data.subrange(s, data.len() as int));
        let stripped = strip_eol(lb);
        assert(lb.len() > 0);
        assert(lb.last() == data.last());
        if data.last() == 10 {
            let b1 = lb.drop_last();
            assert(b1 =~= data.subrange(s, data.len() - 1));
            if b1.len() > 0 {
                assert(b1.last() == data[data.len() - 2]);
            }
            assert(stripped =~= data.subrange(s, data.len() - 1));
        } else {
            if lb.len() > 0 {
                assert(lb.last() != 13);
            }
            assert(stripped =~= data.subrange(s, data.len() as int));
        }
        if n == 1 {
            assert(s == 0);
            assert(join_lines(data, 1) == stripped);
        } else {
            lemma_join_prefix(data, n - 1);
            lemma_byte_before_start(data, n - 1);
            assert(join_lines(data, n) =~= data.subrange(0, s - 1) + seq![10u8] + stripped);
            assert(data[s - 1] == 10);
        }
    }
}

} // verus!
