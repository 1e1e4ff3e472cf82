//! Per-line change annotations attached to a buffer: a sparse mapping from
//! 0-indexed line numbers to the kind of change recorded for that line,
//! and the parser that fills it from the hunk headers of a line-difference
//! listing.

use vstd::prelude::*;
use vstd::string::StrSliceExecFns;
use vstd::utf8::{decode_utf8, valid_utf8};
use crate::text::{is_space, spec_trim, spec_parse_usize};

verus! {

/// Kind of recorded change for one line.
#[derive(Clone, Copy, PartialEq, Eq, Debug)]
pub enum GitChange {
    Added,
    Modified,
    Deleted,
}

/// The mapping denoted by a key/value list, later entries inserted last.
pub open spec fn map_of(s: Seq<(usize, GitChange)>) -> Map<int, GitChange>
    decreases s.len(),
{
    if s.len() == 0 {
        Map::empty()
    } else {
        map_of(s.drop_last()).insert(s.last().0 as int, s.last().1)
    }
}

/// Sparse mapping from line numbers to change kinds, keyed uniquely.
pub struct ChangeMap {
    entries: Vec<(usize, GitChange)>,
}

impl View for ChangeMap {
    type V = Map<int, GitChange>;

    closed spec fn view(&self) -> Map<int, GitChange> {
        map_of(self.entries@)
    }
}

/// A key is in `map_of(s)` exactly when some entry holds it, and then the
/// value of the last such entry is the mapping's.
pub proof fn lemma_map_of_contains(s: Seq<(usize, GitChange)>, k: int)
    ensures
        map_of(s).contains_key(k) <==> exists|i: int| 0 <= i < s.len() && #[trigger] s[i].0 == k,
    decreases s.len(),
{
    if s.len() > 0 {
        lemma_map_of_contains(s.drop_last(), k);
        if s.last().0 == k {
            assert(s[s.len() - 1].0 == k);
        } else if map_of(s).contains_key(k) {
            let i = choose|i: int| 0 <= i < s.drop_last().len() && #[trigger] s.drop_last()[i].0 == k;
            assert(s[i].0 == k);
        } else {
            assert forall|i: int| 0 <= i < s.len() implies #[trigger] s[i].0 != k by {
                if i < s.len() - 1 {
                    assert(s.drop_last()[i].0 != k);
                }
            }
        }
    }
}

/// When keys are unique, the mapping's value at an entry's key is that
/// entry's value.
pub proof fn lemma_map_of_unique(s: Seq<(usize, GitChange)>, i: int)
    requires
        forall|a: int, b: int| 0 <= a < b < s.len() ==> (#[trigger] s[a]).0 != (#[trigger] s[b]).0,
        0 <= i < s.len(),
    ensures
        map_of(s).contains_key(s[i].0 as int),
        map_of(s)[s[i].0 as int] == s[i].1,
    decreases s.len(),
{
    lemma_map_of_contains(s, s[i].0 as int);
    if i < s.len() - 1 {
        assert(s.drop_last()[i] == s[i]);
        lemma_map_of_unique(s.drop_last(), i);
        assert(s.last().0 != s[i].0);
    }
}

impl ChangeMap {
    /// Keys are pairwise distinct.
    pub closed spec fn wf(&self) -> bool {
        forall|a: int, b: int|
            0 <= a < b < self.entries@.len() ==> (#[trigger] self.entries@[a]).0
                != (#[trigger] self.entries@[b]).0
    }

    /// An empty mapping.
    pub fn new() -> (r: ChangeMap)
        ensures
            r.wf(),
            r@ == Map::<int, GitChange>::empty(),
    {
        ChangeMap { entries: Vec::new() }
    }

    /// The change recorded for `line`, if any.
    pub fn get(&self, line: usize) -> (r: Option<GitChange>)
        requires
            self.wf(),
        ensures
            r == if self@.contains_key(line as int) {
                Some(self@[line as int])
            } else {
                Option::<GitChange>::None
            },
    {
        let n = self.entries.len();
        let mut i: usize = 0;
        while i < n
            invariant
                self.wf(),
                n == self.entries@.len(),
                i <= n,
                forall|k: int| 0 <= k < i ==> (#[trigger] self.entries@[k]).0 != line,
            decreases n - i,
        {
            if self.entries[i].0 == line {
                proof {
                    lemma_map_of_unique(self.entries@, i as int);
                }
                return Some(self.entries[i].1);
            }
            i = i + 1;
        }
        proof {
            lemma_map_of_contains(self.entries@, line as int);
        }
        None
    }

    /// Records `ch` for `line` unless the line already has a recorded
    /// change; the first record for a line wins.
    pub fn insert_if_absent(&mut self, line: usize, ch: GitChange)
        requires
            old(self).wf(),
        ensures
            final(self).wf(),
            final(self)@ == if old(self)@.contains_key(line as int) {
                old(self)@
            } else {
                old(self)@.insert(line as int, ch)
            },
    {
        let n = self.entries.len();
        let mut i: usize = 0;
        while i < n
            invariant
                self.wf(),
                n == self.entries@.len(),
                i <= n,
                forall|k: int| 0 <= k < i ==> (#[trigger] self.entries@[k]).0 != line,
            decreases n - i,
        {
            if self.entries[i].0 == line {
                proof {
                    lemma_map_of_contains(self.entries@, line as int);
                }
                return ;
            }
            i = i + 1;
        }
        proof {
            lemma_map_of_contains(self.entries@, line as int);
        }
        self.entries.push((line, ch));
        proof {
            assert(self.entries@.drop_last() =~= old(self).entries@);
        }
    }

    /// Number of recorded lines.
    pub fn len(&self) -> (r: usize)
        requires
            self.wf(),
        ensures
            self@.dom().finite() && r == self@.dom().len(),
    {
        proof {
            lemma_map_of_finite(self.entries@);
            lemma_map_of_len(self.entries@);
        }
        self.entries.len()
    }
}

/// With unique keys, the mapping has exactly one key per entry.
pub proof fn lemma_map_of_len(s: Seq<(usize, GitChange)>)
    requires
        forall|a: int, b: int| 0 <= a < b < s.len() ==> (#[trigger] s[a]).0 != (#[trigger] s[b]).0,
    ensures
        map_of(s).dom().finite(),
        map_of(s).dom().len() == s.len(),
    decreases s.len(),
{
    if s.len() > 0 {
        let prefix = s.drop_last();
        assert(forall|a: int, b: int|
            0 <= a < b < prefix.len() ==> (#[trigger] prefix[a]).0 != (#[trigger] prefix[b]).0);
        lemma_map_of_len(prefix);
        lemma_map_of_contains(prefix, s.last().0 as int);
        assert(!map_of(prefix).contains_key(s.last().0 as int)) by {
            if map_of(prefix).contains_key(s.last().0 as int) {
                let i = choose|i: int|
                    0 <= i < prefix.len() && #[trigger] prefix[i].0 == s.last().0;
                assert(s[i].0 == s[s.len() - 1].0);
            }
        }
        vstd::set::axiom_set_insert_len(map_of(prefix).dom(), s.last().0 as int);
        assert(map_of(s).dom() =~= map_of(prefix).dom().insert(s.last().0 as int));
    }
}

/// The domain of a key/value list's mapping is finite.
pub proof fn lemma_map_of_finite(s: Seq<(usize, GitChange)>)
    ensures
        map_of(s).dom().finite(),
    decreases s.len(),
{
    if s.len() > 0 {
        lemma_map_of_finite(s.drop_last());
    }
}


/// Index of the first newline in `s`, or -1 when there is none.
pub open spec fn first_nl(s: Seq<char>) -> int
    decreases s.len(),
{
    if s.len() == 0 {
        -1
    } else if s[0] == '\n' {
        0
    } else {
        let r = first_nl(s.drop_first());
        if r < 0 {
            -1
        } else {
            r + 1
        }
    }
}

/// One trailing carriage return removed.
pub open spec fn strip_cr(l: Seq<char>) -> Seq<char> {
    if l.len() > 0 && l.last() == '\r' {
        l.drop_last()
    } else {
        l
    }
}

/// The text split at newlines, each line without its line ending; a
/// trailing newline yields no extra empty line.
pub open spec fn split_lines(s: Seq<char>) -> Seq<Seq<char>>
    decreases s.len(),
{
    if s.len() == 0 {
        Seq::empty()
    } else {
        let i = first_nl(s);
        if i < 0 || i >= s.len() {
            seq![strip_cr(s)]
        } else {
            seq![strip_cr(s.subrange(0, i))] + split_lines(s.subrange(i + 1, s.len() as int))
        }
    }
}

/// Index of the first `@@` in `s`, or its length when there is none.
pub open spec fn find_atat(s: Seq<char>) -> int
    decreases s.len(),
{
    if s.len() < 2 {
        s.len() as int
    } else if s[0] == '@' && s[1] == '@' {
        0
    } else {
        1 + find_atat(s.drop_first())
    }
}

/// Length of the leading run of non-whitespace characters.
pub open spec fn word_end(s: Seq<char>) -> int
    decreases s.len(),
{
    if s.len() == 0 {
        0
    } else if is_space(s[0]) {
        0
    } else {
        1 + word_end(s.drop_first())
    }
}

/// The whitespace-separated words of `s`, in order.
pub open spec fn split_ws(s: Seq<char>) -> Seq<Seq<char>>
    decreases s.len(),
{
    if s.len() == 0 {
        Seq::empty()
    } else if is_space(s[0]) {
        split_ws(s.drop_first())
    } else {
        let e = word_end(s);
        if 1 <= e <= s.len() {
            seq![s.subrange(0, e)] + split_ws(s.subrange(e, s.len() as int))
        } else {
            seq![s]
        }
    }
}

/// The first word that starts with `c`, if any.
pub open spec fn find_starting(parts: Seq<Seq<char>>, c: char) -> Option<Seq<char>>
    decreases parts.len(),
{
    if parts.len() == 0 {
        None
    } else if parts[0].len() > 0 && parts[0][0] == c {
        Some(parts[0])
    } else {
        find_starting(parts.drop_first(), c)
    }
}

/// Index of the first comma, or -1 when there is none.
pub open spec fn first_comma(s: Seq<char>) -> int
    decreases s.len(),
{
    if s.len() == 0 {
        -1
    } else if s[0] == ',' {
        0
    } else {
        let r = first_comma(s.drop_first());
        if r < 0 {
            -1
        } else {
            r + 1
        }
    }
}

/// A parse that fails falls back to 1.
pub open spec fn or_one(o: Option<int>) -> int {
    match o {
        Some(v) => v,
        None => 1,
    }
}

/// What a hunk range reads as: `start,count`, or `start` with count 1,
/// each number falling back to 1 when it does not parse.
pub open spec fn spec_parse_range(s: Seq<char>) -> (int, int) {
    let ci = first_comma(s);
    if ci < 0 {
        (or_one(spec_parse_usize(s)), 1)
    } else {
        (
            or_one(spec_parse_usize(s.subrange(0, ci))),
            or_one(spec_parse_usize(s.subrange(ci + 1, s.len() as int))),
        )
    }
}

/// Records `tag` for the 0-indexed lines of the 1-indexed range
/// `start .. start + count`, first record winning, skipping the 0 line
/// number and stopping at the machine word.
pub open spec fn insert_range(
    m: Map<int, GitChange>,
    start: int,
    count: int,
    tag: GitChange,
) -> Map<int, GitChange>
    decreases count,
{
    if count <= 0 {
        m
    } else {
        let m2 = if start > 0 {
            if m.contains_key(start - 1) {
                m
            } else {
                m.insert(start - 1, tag)
            }
        } else {
            m
        };
        if start >= usize::MAX {
            m2
        } else {
            insert_range(m2, start + 1, count - 1, tag)
        }
    }
}

/// The effect of one listing line on the mapping: only hunk-header lines
/// change it, recording a deletion marker or the added/modified range
/// their `+` range names.
pub open spec fn apply_hunk_line(m: Map<int, GitChange>, line: Seq<char>) -> Map<int, GitChange> {
    if !(line.len() >= 2 && line[0] == '@' && line[1] == '@') {
        m
    } else {
        let rest = line.subrange(2, line.len() as int);
        let e = find_atat(rest);
        let hunk = spec_trim(rest.subrange(0, e));
        let parts = split_ws(hunk);
        if parts.len() < 2 {
            m
        } else {
            match find_starting(parts, '+') {
                None => m,
                Some(p) => {
                    let pr = spec_parse_range(p.drop_first());
                    if pr.1 == 0 {
                        if pr.0 > 0 {
                            if m.contains_key(pr.0 - 1) {
                                m
                            } else {
                                m.insert(pr.0 - 1, GitChange::Deleted)
                            }
                        } else {
                            m
                        }
                    } else {
                        let old_count = match find_starting(parts, '-') {
                            Some(po) => spec_parse_range(po.drop_first()).1,
                            None => 0,
                        };
                        let tag = if old_count == 0 {
                            GitChange::Added
                        } else {
                            GitChange::Modified
                        };
                        insert_range(m, pr.0, pr.1, tag)
                    }
                },
            }
        }
    }
}

/// The mapping after every listing line, in order.
pub open spec fn apply_lines(m: Map<int, GitChange>, lines: Seq<Seq<char>>) -> Map<int, GitChange>
    decreases lines.len(),
{
    if lines.len() == 0 {
        m
    } else {
        apply_lines(apply_hunk_line(m, lines[0]), lines.drop_first())
    }
}

/// What parsing a whole listing yields: the hunk-header lines folded over
/// an empty mapping; bytes that are not valid text yield an empty
/// mapping.
pub open spec fn spec_git_changes(bytes: Seq<u8>) -> Map<int, GitChange> {
    if valid_utf8(bytes) {
        apply_lines(Map::empty(), split_lines(decode_utf8(bytes)))
    } else {
        Map::empty()
    }
}


/// `word_end` is the length of the leading non-whitespace run.
proof fn lemma_word_end(t: Seq<char>, k: int)
    requires
        0 <= k <= t.len(),
        forall|j: int| 0 <= j < k ==> !is_space(#[trigger] t[j]),
        k < t.len() ==> is_space(t[k]),
    ensures
        word_end(t) == k,
    decreases k,
{
    if k > 0 {
        assert(!is_space(t[0]));
        let t2 = t.drop_first();
        assert(forall|j: int| 0 <= j < k - 1 ==> !is_space(#[trigger] t2[j]));
        if k - 1 < t2.len() {
            assert(t2[k - 1] == t[k]);
        }
        lemma_word_end(t2, k - 1);
    }
}

/// `first_nl` finds the first newline, or nothing past the end.
proof fn lemma_first_nl(t: Seq<char>, k: int)
    requires
        0 <= k <= t.len(),
        forall|j: int| 0 <= j < k ==> (#[trigger] t[j]) != '\n',
        k < t.len() ==> t[k] == '\n',
    ensures
        k < t.len() ==> first_nl(t) == k,
        k == t.len() ==> first_nl(t) < 0,
    decreases k,
{
    if k > 0 {
        assert(t[0] != '\n');
        let t2 = t.drop_first();
        assert(forall|j: int| 0 <= j < k - 1 ==> (#[trigger] t2[j]) != '\n');
        if k - 1 < t2.len() {
            assert(t2[k - 1] == t[k]);
        }
        lemma_first_nl(t2, k - 1);
    }
}

/// Index of the first `@@` of `s`, or its length when there is none.
fn find_atat_at(s: &str) -> (r: usize)
    ensures
        r as int == find_atat(s@),
        r <= s@.len(),
{
    let n = s.unicode_len();
    let mut i: usize = 0;
    proof {
        assert(s@.subrange(0, n as int) =~= s@);
    }
    while n - i > 1
        invariant
            n == s@.len(),
            i <= n,
            find_atat(s@) == i + find_atat(s@.subrange(i as int, n as int)),
        decreases n - i,
    {
        let hit = s.get_char(i) == '@' && s.get_char(i + 1) == '@';
        proof {
            let suf = s@.subrange(i as int, n as int);
            assert(suf[0] == s@[i as int] && suf[1] == s@[i + 1]);
            if !hit {
                assert(suf.drop_first() =~= s@.subrange(i + 1, n as int));
            }
        }
        if hit {
            return i;
        }
        i = i + 1;
    }
    proof {
        let suf = s@.subrange(i as int, n as int);
        assert(suf.len() < 2);
    }
    n
}

/// Index of the first comma, when there is one.
fn find_comma_at(s: &str) -> (r: Option<usize>)
    ensures
        match r {
            Some(i) => first_comma(s@) == i as int && i < s@.len(),
            None => first_comma(s@) < 0,
        },
{
    let n = s.unicode_len();
    let mut i: usize = 0;
    proof {
        assert(s@.subrange(0, n as int) =~= s@);
    }
    while i < n
        invariant
            n == s@.len(),
            i <= n,
            first_comma(s@.subrange(i as int, n as int)) < 0 ==> first_comma(s@) < 0,
            first_comma(s@.subrange(i as int, n as int)) >= 0 ==> first_comma(s@) == i
                + first_comma(s@.subrange(i as int, n as int)),
        decreases n - i,
    {
        let hit = s.get_char(i) == ',';
        proof {
            let suf = s@.subrange(i as int, n as int);
            assert(suf[0] == s@[i as int]);
            if !hit {
                assert(suf.drop_first() =~= s@.subrange(i + 1, n as int));
            }
        }
        if hit {
            return Some(i);
        }
        i = i + 1;
    }
    None
}

/// Parses one number, falling back to 1.
fn parse_or_one(t: &str) -> (r: usize)
    ensures
        r as int == or_one(spec_parse_usize(t@)),
{
    match crate::text::parse_usize(t) {
        Some(v) => v,
        None => 1,
    }
}

/// Reads a hunk range, exactly as `spec_parse_range` says.
pub fn parse_range(s: &str) -> (r: (usize, usize))
    ensures
        (r.0 as int, r.1 as int) == spec_parse_range(s@),
{
    let n = s.unicode_len();
    match find_comma_at(s) {
        Some(i) => {
            let a = parse_or_one(s.substring_char(0, i));
            let b = parse_or_one(s.substring_char(i + 1, n));
            (a, b)
        },
        None => {
            let a = parse_or_one(s);
            (a, 1)
        },
    }
}

/// The whitespace-separated words, exactly as `split_ws` says.
fn split_words(s: &str) -> (r: Vec<String>)
    ensures
        r@.map_values(|w: String| w@) == split_ws(s@),
{
    let n = s.unicode_len();
    let mut out: Vec<String> = Vec::new();
    let mut pos: usize = 0;
    proof {
        assert(s@.subrange(0, n as int) =~= s@);
        assert(out@.map_values(|w: String| w@) =~= Seq::<Seq<char>>::empty());
        assert(split_ws(s@) =~= out@.map_values(|w: String| w@) + split_ws(
            s@.subrange(0, n as int),
        ));
    }
    while pos < n
        invariant
            n == s@.len(),
            pos <= n,
            split_ws(s@) =~= out@.map_values(|w: String| w@) + split_ws(
                s@.subrange(pos as int, n as int),
            ),
        decreases n - pos,
    {
        let c = s.get_char(pos);
        if crate::text::is_space_char(c) {
            proof {
                let suf = s@.subrange(pos as int, n as int);
                assert(suf[0] == s@[pos as int]);
                assert(suf.drop_first() =~= s@.subrange(pos + 1, n as int));
            }
            pos = pos + 1;
        } else {
            let start = pos;
            let mut e = pos;
            while e < n && !crate::text::is_space_char(s.get_char(e))
                invariant
                    n == s@.len(),
                    start <= e <= n,
                    forall|k: int| start <= k < e ==> !is_space(#[trigger] s@[k]),
                decreases n - e,
            {
                e = e + 1;
            }
            let mut w = String::new();
            let mut j = start;
            proof {
                assert(w@ =~= s@.subrange(start as int, start as int));
            }
            while j < e
                invariant
                    start <= j <= e <= s@.len(),
                    w@ =~= s@.subrange(start as int, j as int),
                decreases e - j,
            {
                crate::text::string_push(&mut w, s.get_char(j));
                proof {
                    assert(w@ =~= s@.subrange(start as int, j + 1));
                }
                j = j + 1;
            }
            let ghost prev_out = out@;
            out.push(w);
            proof {
                let suf = s@.subrange(start as int, n as int);
                assert(suf[0] == s@[start as int] && !is_space(suf[0]));
                assert(forall|k: int| 0 <= k < e - start ==> !is_space(#[trigger] suf[k]));
                if e < n {
                    assert(suf[e - start] == s@[e as int]);
                }
                lemma_word_end(suf, e - start);
                assert(suf.subrange(0, e - start) =~= s@.subrange(start as int, e as int));
                assert(suf.subrange(e - start, suf.len() as int) =~= s@.subrange(
                    e as int,
                    n as int,
                ));
                assert(split_ws(suf) =~= seq![s@.subrange(start as int, e as int)] + split_ws(
                    s@.subrange(e as int, n as int),
                ));
                prev_out.lemma_push_map_commute(|ww: String| ww@, out@.last());
                assert(out@.map_values(|ww: String| ww@) =~= prev_out.map_values(
                    |ww: String| ww@,
                ).push(s@.subrange(start as int, e as int)));
                assert(split_ws(s@) =~= out@.map_values(|ww: String| ww@) + split_ws(
                    s@.subrange(e as int, n as int),
                ));
            }
            pos = e;
        }
    }
    proof {
        assert(split_ws(s@.subrange(n as int, n as int)) =~= Seq::<Seq<char>>::empty());
        assert(split_ws(s@) =~= out@.map_values(|w: String| w@));
    }
    out
}

/// The first word starting with `c`, copied out.
fn find_part_starting(parts: &Vec<String>, c: char) -> (r: Option<String>)
    ensures
        match r {
            Some(p) => find_starting(parts@.map_values(|w: String| w@), c) == Some(p@)
                && p@.len() > 0 && p@[0] == c,
            None => find_starting(parts@.map_values(|w: String| w@), c) is None,
        },
{
    let ghost views = parts@.map_values(|w: String| w@);
    let n = parts.len();
    let mut i: usize = 0;
    proof {
        assert(views.subrange(0, n as int) =~= views);
    }
    while i < n
        invariant
            n == parts@.len(),
            n == views.len(),
            i <= n,
            views == parts@.map_values(|w: String| w@),
            find_starting(views, c) == find_starting(views.subrange(i as int, n as int), c),
        decreases n - i,
    {
        let part = &parts[i];
        let hit = part.as_str().unicode_len() > 0 && part.as_str().get_char(0) == c;
        proof {
            let suf = views.subrange(i as int, n as int);
            assert(suf[0] == views[i as int] && views[i as int] == parts@[i as int]@);
            if !hit {
                assert(suf.drop_first() =~= views.subrange(i + 1, n as int));
            }
        }
        if hit {
            return Some(crate::config::clone_string(part));
        }
        i = i + 1;
    }
    None
}

/// Reads the range after a word's leading sign character.
fn parse_range_after_sign(p: &String) -> (r: (usize, usize))
    requires
        p@.len() >= 1,
    ensures
        (r.0 as int, r.1 as int) == spec_parse_range(p@.drop_first()),
{
    let n = p.as_str().unicode_len();
    let t = p.as_str().substring_char(1, n);
    proof {
        assert(t@ =~= p@.drop_first());
    }
    parse_range(t)
}

/// Folds one listing line into the mapping, exactly as `apply_hunk_line`
/// says.
fn process_line(m: &mut ChangeMap, line: &str)
    requires
        old(m).wf(),
    ensures
        final(m).wf(),
        final(m)@ == apply_hunk_line(old(m)@, line@),
{
    let n = line.unicode_len();
    if n < 2 || line.get_char(0) != '@' || line.get_char(1) != '@' {
        return ;
    }
    let rest = line.substring_char(2, n);
    proof {
        assert(rest@ =~= line@.subrange(2, n as int));
    }
    let e = find_atat_at(rest);
    let head = rest.substring_char(0, e);
    proof {
        assert(head@ =~= rest@.subrange(0, e as int));
    }
    let hunk = crate::text::trim_spaces(head);
    let parts = split_words(hunk.as_str());
    if parts.len() < 2 {
        return ;
    }
    let plus = match find_part_starting(&parts, '+') {
        Some(p) => p,
        None => {
            return ;
        },
    };
    let (start, count) = parse_range_after_sign(&plus);
    if count == 0 {
        if start > 0 {
            m.insert_if_absent(start - 1, GitChange::Deleted);
        }
        return ;
    }
    let old_count = match find_part_starting(&parts, '-') {
        Some(po) => {
            let pr = parse_range_after_sign(&po);
            pr.1
        },
        None => 0,
    };
    let tag = if old_count == 0 {
        GitChange::Added
    } else {
        GitChange::Modified
    };
    let ghost target = insert_range(m@, start as int, count as int, tag);
    let mut idx = start;
    let mut rem = count;
    while rem > 0
        invariant
            m.wf(),
            insert_range(m@, idx as int, rem as int, tag) == target,
        decreases rem,
    {
        if idx > 0 {
            m.insert_if_absent(idx - 1, tag);
        }
        if idx == usize::MAX {
            rem = 0;
        } else {
            idx = idx + 1;
            rem = rem - 1;
        }
    }
}

/// Reads a line-difference listing and records every change its hunk
/// headers name, exactly as `spec_git_changes` says.
pub fn parse_git_changes(stdout: &[u8]) -> (r: ChangeMap)
    ensures
        r.wf(),
        r@ == spec_git_changes(stdout@),
{
    let text = match crate::text::bytes_to_string(stdout) {
        Some(t) => t,
        None => {
            return ChangeMap::new();
        },
    };
    let s = text.as_str();
    let n = s.unicode_len();
    let mut m = ChangeMap::new();
    let mut pos: usize = 0;
    proof {
        assert(s@.subrange(0, n as int) =~= s@);
    }
    while pos < n
        invariant
            n == s@.len(),
            pos <= n,
            m.wf(),
            apply_lines(m@, split_lines(s@.subrange(pos as int, n as int))) == apply_lines(
                Map::empty(),
                split_lines(s@),
            ),
        decreases n - pos,
    {
        let mut e = pos;
        while e < n && s.get_char(e) != '\n'
            invariant
                n == s@.len(),
                pos <= e <= n,
                forall|k: int| pos <= k < e ==> (#[trigger] s@[k]) != '\n',
            decreases n - e,
        {
            e = e + 1;
        }
        let le = if e > pos && s.get_char(e - 1) == '\r' {
            e - 1
        } else {
            e
        };
        let mut line = String::new();
        let mut j = pos;
        proof {
            assert(line@ =~= s@.subrange(pos as int, pos as int));
        }
        while j < le
            invariant
                pos <= j <= le <= s@.len(),
                line@ =~= s@.subrange(pos as int, j as int),
            decreases le - j,
        {
            crate::text::string_push(&mut line, s.get_char(j));
            proof {
                assert(line@ =~= s@.subrange(pos as int, j + 1));
            }
            j = j + 1;
        }
        proof {
            let suf = s@.subrange(pos as int, n as int);
            assert(forall|k: int| 0 <= k < e - pos ==> (#[trigger] suf[k]) != '\n');
            if e < n {
                assert(suf[e - pos] == s@[e as int]);
            }
            lemma_first_nl(suf, e - pos);
            let raw = suf.subrange(0, e - pos);
            assert(raw =~= s@.subrange(pos as int, e as int));
            if e > pos && s@[e - 1] == '\r' {
                assert(raw.len() > 0 && raw.last() == '\r');
                assert(strip_cr(raw) =~= s@.subrange(pos as int, le as int));
            } else {
                assert(strip_cr(raw) =~= s@.subrange(pos as int, le as int));
            }
            assert(line@ =~= strip_cr(raw));
            if e < n {
                assert(split_lines(suf) =~= seq![strip_cr(raw)] + split_lines(
                    suf.subrange(e - pos + 1, suf.len() as int),
                ));
                assert(suf.subrange(e - pos + 1, suf.len() as int) =~= s@.subrange(
                    e + 1,
                    n as int,
                ));
            } else {
                assert(strip_cr(suf) =~= strip_cr(raw));
                assert(split_lines(suf) =~= seq![strip_cr(raw)]);
            }
        }
        process_line(&mut m, line.as_str());
        proof {
            let suf = s@.subrange(pos as int, n as int);
            let lines = split_lines(suf);
            assert(lines.len() >= 1 && lines[0] == line@);
            assert(lines.drop_first() =~= if e < n {
                split_lines(s@.subrange(e + 1, n as int))
            } else {
                Seq::<Seq<char>>::empty()
            });
            assert(apply_lines(m@, lines.drop_first()) == apply_lines(
                Map::empty(),
                split_lines(s@),
            ));
            if e >= n {
                assert(split_lines(s@.subrange(n as int, n as int)) =~= Seq::<Seq<char>>::empty());
            }
        }
        pos = if e < n {
            e + 1
        } else {
            n
        };
    }
    proof {
        assert(split_lines(s@.subrange(n as int, n as int)) =~= Seq::<Seq<char>>::empty());
    }
    m
}

} // verus!
