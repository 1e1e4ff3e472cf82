//! Synthesis of a unified line-difference listing from two texts: the
//! difference engine comes from an outside crate and its groups are a
//! named function of the two texts; the listing's textual shape is
//! rendered and specified here.

use vstd::prelude::*;
use vstd::string::StrSliceExecFns;
use crate::text::spec_decimal;
use crate::buffer::Buffer;
use crate::changes::GitChange;

verus! {

/// Kind of one differing line.
#[derive(Clone, Copy, PartialEq, Eq, Structural, Debug)]
pub enum DiffTag {
    Delete,
    Insert,
    Equal,
}

/// One group of difference operations with shared context: the covered
/// line ranges of both texts, and each line with its kind.
pub struct RawHunk {
    /// Covered ranges, one per operation: (old start, old end, new start,
    /// new end), each half-open.
    pub ops: Vec<(usize, usize, usize, usize)>,
    /// The group's lines in order, newline included where the source line
    /// had one.
    pub changes: Vec<(DiffTag, String)>,
}

/// The mathematical image of one hunk: its operations' covered ranges,
/// and its lines as kind/text pairs.
pub type HunkView = (Seq<(int, int, int, int)>, Seq<(DiffTag, Seq<char>)>);

/// The image of a hunk value.
pub open spec fn hunk_view(h: RawHunk) -> HunkView {
    (
        h.ops@.map_values(
            |o: (usize, usize, usize, usize)| (o.0 as int, o.1 as int, o.2 as int, o.3 as int),
        ),
        h.changes@.map_values(|c: (DiffTag, String)| (c.0, c.1@)),
    )
}

/// The groups of difference operations the difference engine finds
/// between two texts, three lines of context: a function of the texts
/// alone.
pub uninterp spec fn diff_groups_of(a: Seq<char>, b: Seq<char>) -> Seq<HunkView>;

/// Relies on similar's `TextDiff::from_lines`, `grouped_ops` and
/// `iter_changes`: the engine's groups are deterministic in the two
/// texts, so the result is `diff_groups_of` of them; each operation's
/// covered ranges are well formed.
#[verifier::external_body]
fn text_diff_hunks(a: &str, b: &str) -> (r: Vec<RawHunk>)
    ensures
        r@.map_values(|h: RawHunk| hunk_view(h)) == diff_groups_of(a@, b@),
        forall|h: int, o: int|
            0 <= h < r@.len() && 0 <= o < (#[trigger] r@[h]).ops@.len() ==> ((
            #[trigger] r@[h].ops@[o]).0 <= r@[h].ops@[o].1 && r@[h].ops@[o].2 <= r@[h].ops@[o].3),
{
    let diff = similar::TextDiff::from_lines(a, b);
    diff.grouped_ops(3).iter().map(|g| RawHunk {
        ops: g.iter().map(|op| {
            (op.old_range().start, op.old_range().end, op.new_range().start, op.new_range().end)
        }).collect(),
        changes: g.iter().flat_map(|op| diff.iter_changes(op)).map(|c| {
            (match c.tag() {
                similar::ChangeTag::Delete => DiffTag::Delete,
                similar::ChangeTag::Insert => DiffTag::Insert,
                similar::ChangeTag::Equal => DiffTag::Equal,
            }, c.value().to_string())
        }).collect(),
    }).collect()
}

/// Addition clamped at the machine word.
pub open spec fn sat_add(a: int, b: int) -> int {
    if a + b <= usize::MAX {
        a + b
    } else {
        usize::MAX as int
    }
}

/// Clamped sum of the old-range lengths of the first `i` operations.
pub open spec fn old_len_sum(ops: Seq<(int, int, int, int)>, i: int) -> int
    decreases i,
{
    if i <= 0 {
        0
    } else {
        sat_add(old_len_sum(ops, i - 1), ops[i - 1].1 - ops[i - 1].0)
    }
}

/// Clamped sum of the new-range lengths of the first `i` operations.
pub open spec fn new_len_sum(ops: Seq<(int, int, int, int)>, i: int) -> int
    decreases i,
{
    if i <= 0 {
        0
    } else {
        sat_add(new_len_sum(ops, i - 1), ops[i - 1].3 - ops[i - 1].2)
    }
}

/// The marker character of one line kind.
pub open spec fn tag_char(t: DiffTag) -> char {
    match t {
        DiffTag::Delete => '-',
        DiffTag::Insert => '+',
        DiffTag::Equal => ' ',
    }
}

/// The lines of one hunk, each prefixed with its marker.
pub open spec fn spec_changes_text(cs: Seq<(DiffTag, Seq<char>)>, i: int) -> Seq<char>
    decreases i,
{
    if i <= 0 {
        Seq::empty()
    } else {
        spec_changes_text(cs, i - 1) + seq![tag_char(cs[i - 1].0)] + cs[i - 1].1
    }
}

/// One hunk header line.
pub open spec fn spec_hunk_header(os: nat, ol: nat, ns: nat, nl: nat) -> Seq<char> {
    "@@ -"@ + spec_decimal(os) + ","@ + spec_decimal(ol) + " +"@ + spec_decimal(ns) + ","@
        + spec_decimal(nl) + " @@\n"@
}

/// One rendered hunk: its header, then its marked lines.  A hunk without
/// operations renders nothing.
pub open spec fn spec_hunk_text(h: HunkView) -> Seq<char> {
    if h.0.len() == 0 {
        Seq::empty()
    } else {
        spec_hunk_header(
            sat_add(h.0[0].0, 1) as nat,
            old_len_sum(h.0, h.0.len() as int) as nat,
            sat_add(h.0[0].2, 1) as nat,
            new_len_sum(h.0, h.0.len() as int) as nat,
        ) + spec_changes_text(h.1, h.1.len() as int)
    }
}

/// The rendered hunks, first `i` of them, in order.
pub open spec fn spec_hunks_text(hs: Seq<HunkView>, i: int) -> Seq<char>
    decreases i,
{
    if i <= 0 {
        Seq::empty()
    } else {
        spec_hunks_text(hs, i - 1) + spec_hunk_text(hs[i - 1])
    }
}

/// The whole listing: the two file name lines, then every hunk.
pub open spec fn spec_unified_diff(name_a: Seq<char>, name_b: Seq<char>, hs: Seq<HunkView>) -> Seq<
    char,
> {
    "--- "@ + name_a + "\n+++ "@ + name_b + "\n"@ + spec_hunks_text(hs, hs.len() as int)
}

/// Renders hunks as a unified listing, exactly as `spec_unified_diff`
/// says of their images.
pub fn render_unified_diff(name_a: &str, name_b: &str, hunks: &Vec<RawHunk>) -> (r: String)
    requires
        forall|h: int, o: int|
            0 <= h < hunks@.len() && 0 <= o < (#[trigger] hunks@[h]).ops@.len() ==> ((
            #[trigger] hunks@[h].ops@[o]).0 <= hunks@[h].ops@[o].1 && hunks@[h].ops@[o].2
                <= hunks@[h].ops@[o].3),
    ensures
        r@ == spec_unified_diff(
            name_a@,
            name_b@,
            hunks@.map_values(|h: RawHunk| hunk_view(h)),
        ),
{
    let ghost hviews = hunks@.map_values(|h: RawHunk| hunk_view(h));
    let mut s = "--- ".to_owned();
    s.append(name_a);
    s.append("\n+++ ");
    s.append(name_b);
    s.append("\n");
    let ghost head = "--- "@ + name_a@ + "\n+++ "@ + name_b@ + "\n"@;
    proof {
        assert(s@ =~= head);
        assert(s@ =~= head + spec_hunks_text(hviews, 0));
    }
    let nh = hunks.len();
    let mut i: usize = 0;
    while i < nh
        invariant
            nh == hunks@.len(),
            i <= nh,
            head == "--- "@ + name_a@ + "\n+++ "@ + name_b@ + "\n"@,
            hviews == hunks@.map_values(|h: RawHunk| hunk_view(h)),
            forall|h: int, o: int|
                0 <= h < hunks@.len() && 0 <= o < (#[trigger] hunks@[h]).ops@.len() ==> ((
                #[trigger] hunks@[h].ops@[o]).0 <= hunks@[h].ops@[o].1 && hunks@[h].ops@[o].2
                    <= hunks@[h].ops@[o].3),
            s@ =~= head + spec_hunks_text(hviews, i as int),
        decreases nh - i,
    {
        append_hunk(&mut s, &hunks[i]);
        proof {
            assert(hviews[i as int] == hunk_view(hunks@[i as int]));
            assert(s@ =~= head + spec_hunks_text(hviews, i + 1));
        }
        i = i + 1;
    }
    s
}

/// Appends one rendered hunk.
fn append_hunk(s: &mut String, h: &RawHunk)
    requires
        forall|o: int|
            0 <= o < h.ops@.len() ==> ((#[trigger] h.ops@[o]).0 <= h.ops@[o].1 && h.ops@[o].2
                <= h.ops@[o].3),
    ensures
        final(s)@ == old(s)@ + spec_hunk_text(hunk_view(*h)),
{
    let ghost ov = hunk_view(*h).0;
    let ghost cv = hunk_view(*h).1;
    let nops = h.ops.len();
    if nops == 0 {
        proof {
            assert(s@ =~= old(s)@ + spec_hunk_text(hunk_view(*h)));
        }
        return ;
    }
    let mut old_len: usize = 0;
    let mut new_len: usize = 0;
    let mut o: usize = 0;
    while o < nops
        invariant
            nops == h.ops@.len(),
            ov == hunk_view(*h).0,
            o <= nops,
            forall|k: int|
                0 <= k < h.ops@.len() ==> ((#[trigger] h.ops@[k]).0 <= h.ops@[k].1 && h.ops@[k].2
                    <= h.ops@[k].3),
            old_len as int == old_len_sum(ov, o as int),
            new_len as int == new_len_sum(ov, o as int),
        decreases nops - o,
    {
        let (os, oe, ns, ne) = h.ops[o];
        proof {
            assert(ov[o as int] == (os as int, oe as int, ns as int, ne as int));
        }
        let od = oe - os;
        let nd = ne - ns;
        old_len = if od <= usize::MAX - old_len {
            old_len + od
        } else {
            usize::MAX
        };
        new_len = if nd <= usize::MAX - new_len {
            new_len + nd
        } else {
            usize::MAX
        };
        o = o + 1;
    }
    let first = h.ops[0];
    proof {
        assert(ov[0] == (first.0 as int, first.1 as int, first.2 as int, first.3 as int));
    }
    let os1 = if first.0 < usize::MAX {
        first.0 + 1
    } else {
        usize::MAX
    };
    let ns1 = if first.2 < usize::MAX {
        first.2 + 1
    } else {
        usize::MAX
    };
    s.append("@@ -");
    crate::text::push_decimal(s, os1);
    s.append(",");
    crate::text::push_decimal(s, old_len);
    s.append(" +");
    crate::text::push_decimal(s, ns1);
    s.append(",");
    crate::text::push_decimal(s, new_len);
    s.append(" @@\n");
    let ghost with_header = old(s)@ + spec_hunk_header(
        os1 as nat,
        old_len as nat,
        ns1 as nat,
        new_len as nat,
    );
    proof {
        assert(s@ =~= with_header);
        assert(s@ =~= with_header + spec_changes_text(cv, 0));
    }
    let nc = h.changes.len();
    let mut c: usize = 0;
    while c < nc
        invariant
            nc == h.changes@.len(),
            cv == hunk_view(*h).1,
            with_header == old(s)@ + spec_hunk_header(
                os1 as nat,
                old_len as nat,
                ns1 as nat,
                new_len as nat,
            ),
            c <= nc,
            s@ =~= with_header + spec_changes_text(cv, c as int),
        decreases nc - c,
    {
        let tag = h.changes[c].0;
        proof {
            assert(cv[c as int] == (h.changes@[c as int].0, h.changes@[c as int].1@));
        }
        let marker = match tag {
            DiffTag::Delete => '-',
            DiffTag::Insert => '+',
            DiffTag::Equal => ' ',
        };
        crate::text::string_push(s, marker);
        s.append(h.changes[c].1.as_str());
        proof {
            assert(s@ =~= with_header + spec_changes_text(cv, c + 1));
        }
        c = c + 1;
    }
    proof {
        assert(s@ =~= old(s)@ + spec_hunk_text(hunk_view(*h)));
    }
}

impl Buffer {
    /// Builds a non-reloadable buffer holding the unified difference
    /// listing of the two texts: the content is exactly the rendering of
    /// the difference engine's groups for them.
    pub fn from_diff(text_a: &str, text_b: &str, name_a: &str, name_b: &str) -> (r: Buffer)
        ensures
            r.wf(),
            r.is_diff,
            r.path is None,
            r.name@ == name_a@ + " -> "@ + name_b@,
            r.git_changes@ == Map::<int, GitChange>::empty(),
            r.content@ == vstd::utf8::encode_utf8(
                spec_unified_diff(name_a@, name_b@, diff_groups_of(text_a@, text_b@)),
            ),
    {
        let hunks = text_diff_hunks(text_a, text_b);
        let text = render_unified_diff(name_a, name_b, &hunks);
        let data = text.as_str().as_bytes_vec();
        let mut name = name_a.to_owned();
        name.append(" -> ");
        name.append(name_b);
        proof {
            assert(name@ =~= name_a@ + " -> "@ + name_b@);
        }
        Buffer::from_bytes(data, name, None, true)
    }
}

} // verus!
