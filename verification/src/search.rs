//! Search over a buffer: a committed match set, a transient preview match
//! set, and a cursor that walks the committed set.

use vstd::prelude::*;
use vstd::string::StrSliceExecFns;
use crate::buffer::{Buffer, spec_get_line};
use crate::lines::line_starts;
use crate::pattern::{
    Pattern, compile_pattern, find_matches, is_uppercase_char, regex_compiles, regex_matches,
    char_is_upper,
};

verus! {

/// One match: a line number and the byte range of the match in that line.
#[derive(Clone, Copy, PartialEq, Eq, Structural, Debug)]
pub struct LineMatch {
    pub line: usize,
    pub start: usize,
    pub end: usize,
}

/// Matches as mathematical triples (line, start, end).
pub open spec fn match_views(v: Seq<LineMatch>) -> Seq<(int, int, int)> {
    v.map_values(|m: LineMatch| (m.line as int, m.start as int, m.end as int))
}

/// The matches one line contributes: the pattern's matches over the line's
/// text, tagged with the line number; nothing for a line that is absent.
pub open spec fn line_matches_at(q: Seq<char>, ci: bool, data: Seq<u8>, l: int) -> Seq<
    (int, int, int),
> {
    match spec_get_line(data, l) {
        Some(text) => regex_matches(q, ci, text).map_values(|p: (int, int)| (l, p.0, p.1)),
        None => Seq::empty(),
    }
}

/// All matches over lines `from .. to` of the content, in line order.
pub open spec fn scan_matches(q: Seq<char>, ci: bool, data: Seq<u8>, from: int, to: int) -> Seq<
    (int, int, int),
>
    decreases to - from,
{
    if to <= from {
        Seq::empty()
    } else {
        scan_matches(q, ci, data, from, to - 1) + line_matches_at(q, ci, data, to - 1)
    }
}

/// The matches one snapshot line contributes.
pub open spec fn snapshot_line_matches(q: Seq<char>, ci: bool, lines: Seq<Seq<char>>, l: int) -> Seq<
    (int, int, int),
> {
    regex_matches(q, ci, lines[l]).map_values(|p: (int, int)| (l, p.0, p.1))
}

/// All matches over snapshot lines `from .. to`, in line order.
pub open spec fn scan_snapshot_matches(
    q: Seq<char>,
    ci: bool,
    lines: Seq<Seq<char>>,
    from: int,
    to: int,
) -> Seq<(int, int, int)>
    decreases to - from,
{
    if to <= from {
        Seq::empty()
    } else {
        scan_snapshot_matches(q, ci, lines, from, to - 1) + snapshot_line_matches(
            q,
            ci,
            lines,
            to - 1,
        )
    }
}

/// Whether any character of the query is uppercase.
pub open spec fn has_upper(q: Seq<char>) -> bool {
    exists|i: int| 0 <= i < q.len() && char_is_upper(q[i])
}

/// The effective case flag under the smart-case rule: insensitive unless
/// the query holds an uppercase character.
pub open spec fn effective_ci(smart_case: bool, q: Seq<char>) -> bool {
    smart_case && !has_upper(q)
}

/// Appends the pattern's matches over one line of text, tagged with `line`.
fn append_line_matches(out: &mut Vec<LineMatch>, p: &Pattern, line: usize, text: &str)
    ensures
        match_views(final(out)@) == match_views(old(out)@) + regex_matches(
            p.spec_query(),
            p.ci(),
            text@,
        ).map_values(|pr: (int, int)| (line as int, pr.0, pr.1)),
{
    let found = find_matches(p, text);
    let ghost target = regex_matches(p.spec_query(), p.ci(), text@).map_values(
        |pr: (int, int)| (line as int, pr.0, pr.1),
    );
    let n = found.len();
    let mut j: usize = 0;
    proof {
        assert(target.len() == n);
        assert(match_views(out@) =~= match_views(old(out)@) + target.subrange(0, 0));
    }
    while j < n
        invariant
            n == found@.len(),
            n == target.len(),
            j <= n,
            target == regex_matches(p.spec_query(), p.ci(), text@).map_values(
                |pr: (int, int)| (line as int, pr.0, pr.1),
            ),
            forall|k: int|
                0 <= k < n ==> target[k] == ((line as int, (#[trigger] found@[k]).0 as int,
                found@[k].1 as int)),
            match_views(out@) =~= match_views(old(out)@) + target.subrange(0, j as int),
        decreases n - j,
    {
        let (s, e) = found[j];
        let ghost prev = out@;
        out.push(LineMatch { line, start: s, end: e });
        proof {
            prev.lemma_push_map_commute(
                |m: LineMatch| (m.line as int, m.start as int, m.end as int),
                out@.last(),
            );
            assert(match_views(out@) =~= match_views(old(out)@) + target.subrange(0, j + 1));
        }
        j = j + 1;
    }
    proof {
        assert(target.subrange(0, n as int) =~= target);
    }
}

/// Scans lines `from .. to` of the buffer, collecting every match in line
/// order.
pub fn scan_buffer_range(p: &Pattern, buf: &Buffer, from: usize, to: usize) -> (r: Vec<LineMatch>)
    requires
        buf.wf(),
        from <= to,
        to <= line_starts(buf.content@).len(),
    ensures
        match_views(r@) == scan_matches(p.spec_query(), p.ci(), buf.content@, from as int, to as int),
{
    let mut out: Vec<LineMatch> = Vec::new();
    let mut l = from;
    proof {
        assert(match_views(out@) =~= scan_matches(
            p.spec_query(),
            p.ci(),
            buf.content@,
            from as int,
            from as int,
        ));
    }
    while l < to
        invariant
            buf.wf(),
            from <= l <= to,
            to <= line_starts(buf.content@).len(),
            match_views(out@) =~= scan_matches(
                p.spec_query(),
                p.ci(),
                buf.content@,
                from as int,
                l as int,
            ),
        decreases to - l,
    {
        match buf.get_line(l) {
            Some(text) => {
                append_line_matches(&mut out, p, l, text.as_str());
            },
            None => {
            },
        }
        proof {
            assert(match_views(out@) =~= scan_matches(
                p.spec_query(),
                p.ci(),
                buf.content@,
                from as int,
                l + 1,
            ));
        }
        l = l + 1;
    }
    out
}

/// Scans snapshot lines `from .. to`, collecting every match in line
/// order.  This is what a background search runs, batch by batch, over an
/// immutable snapshot.
pub fn search_snapshot(p: &Pattern, lines: &Vec<String>, from: usize, to: usize) -> (r: Vec<
    LineMatch,
>)
    requires
        from <= to,
        to <= lines@.len(),
    ensures
        match_views(r@) == scan_snapshot_matches(
            p.spec_query(),
            p.ci(),
            lines@.map_values(|s: String| s@),
            from as int,
            to as int,
        ),
{
    let ghost lviews = lines@.map_values(|s: String| s@);
    let mut out: Vec<LineMatch> = Vec::new();
    let mut l = from;
    proof {
        assert(match_views(out@) =~= scan_snapshot_matches(
            p.spec_query(),
            p.ci(),
            lviews,
            from as int,
            from as int,
        ));
    }
    while l < to
        invariant
            from <= l <= to,
            to <= lines@.len(),
            lviews == lines@.map_values(|s: String| s@),
            match_views(out@) =~= scan_snapshot_matches(
                p.spec_query(),
                p.ci(),
                lviews,
                from as int,
                l as int,
            ),
        decreases to - l,
    {
        append_line_matches(&mut out, p, l, lines[l].as_str());
        proof {
            assert(lviews[l as int] == lines@[l as int]@);
            assert(match_views(out@) =~= scan_snapshot_matches(
                p.spec_query(),
                p.ci(),
                lviews,
                from as int,
                l + 1,
            ));
        }
        l = l + 1;
    }
    out
}

/// Batch of matches reported by a background search.
pub enum SearchBatch {
    Progress { matches: Vec<LineMatch>, lines_scanned: usize },
    Done { matches: Vec<LineMatch> },
}

/// Search state: pattern, committed match set, preview match set, and the
/// match cursor.
pub struct SearchState {
    /// The compiled pattern, when one is set.
    pub pattern: Option<Pattern>,
    /// The last query text handed to `set_pattern`.
    pub query_string: String,
    /// The committed match set, ascending by (line, start).
    pub matches: Vec<LineMatch>,
    /// Cursor into the committed match set.
    pub current: usize,
    /// True for forward search, false for backward.
    pub forward: bool,
    /// Transient matches shown while a query is being typed.
    pub preview_matches: Vec<LineMatch>,
    /// True while a background search is outstanding.
    pub is_searching: bool,
}

impl SearchState {
    /// Fresh state: no pattern, no matches, cursor at 0, forward.
    pub fn new() -> (r: SearchState)
        ensures
            r.pattern is None,
            r.query_string@ == Seq::<char>::empty(),
            r.matches@ == Seq::<LineMatch>::empty(),
            r.current == 0,
            r.forward == true,
            r.preview_matches@ == Seq::<LineMatch>::empty(),
            r.is_searching == false,
    {
        SearchState {
            pattern: None,
            query_string: String::new(),
            matches: Vec::new(),
            current: 0,
            forward: true,
            preview_matches: Vec::new(),
            is_searching: false,
        }
    }

    /// Compiles a pattern under the smart-case rule.  An empty query
    /// clears the pattern and both match sets; a malformed query reports
    /// the compile error and leaves the previous pattern in place.  The
    /// query text is recorded either way.
    pub fn set_pattern(&mut self, query: &str, smart_case: bool) -> (r: Result<(), String>)
        ensures
            final(self).query_string@ == query@,
            final(self).current == old(self).current,
            final(self).forward == old(self).forward,
            final(self).is_searching == old(self).is_searching,
            query@.len() == 0 ==> {
                &&& r is Ok
                &&& final(self).pattern is None
                &&& final(self).matches@ == Seq::<LineMatch>::empty()
                &&& final(self).preview_matches@ == Seq::<LineMatch>::empty()
            },
            query@.len() > 0 && regex_compiles(query@, effective_ci(smart_case, query@)) ==> {
                &&& r is Ok
                &&& (final(self).pattern matches Some(p) && p.spec_query() == query@ && p.ci()
                    == effective_ci(smart_case, query@))
                &&& final(self).matches == old(self).matches
                &&& final(self).preview_matches == old(self).preview_matches
            },
            query@.len() > 0 && !regex_compiles(query@, effective_ci(smart_case, query@)) ==> {
                &&& r is Err
                &&& final(self).pattern == old(self).pattern
                &&& final(self).matches == old(self).matches
                &&& final(self).preview_matches == old(self).preview_matches
            },
    {
        self.query_string = query.to_owned();
        if query.unicode_len() == 0 {
            self.pattern = None;
            self.matches = Vec::new();
            self.preview_matches = Vec::new();
            return Ok(());
        }
        let case_insensitive = smart_case && !has_uppercase(query);
        match compile_pattern(query, case_insensitive) {
            Ok(p) => {
                self.pattern = Some(p);
                Ok(())
            },
            Err(e) => Err(e),
        }
    }

    /// Scans every line of the buffer, replacing the committed match set
    /// and resetting the cursor.  Without a pattern, clears the set.
    pub fn search_buffer(&mut self, buf: &Buffer)
        requires
            buf.wf(),
        ensures
            final(self).current == 0,
            final(self).pattern == old(self).pattern,
            final(self).query_string == old(self).query_string,
            final(self).forward == old(self).forward,
            final(self).preview_matches == old(self).preview_matches,
            final(self).is_searching == old(self).is_searching,
            match old(self).pattern {
                Some(p) => match_views(final(self).matches@) == scan_matches(
                    p.spec_query(),
                    p.ci(),
                    buf.content@,
                    0,
                    line_starts(buf.content@).len() as int,
                ),
                None => final(self).matches@ == Seq::<LineMatch>::empty(),
            },
    {
        self.current = 0;
        match &self.pattern {
            Some(p) => {
                let count = buf.line_count();
                self.matches = scan_buffer_range(p, buf, 0, count);
            },
            None => {
                self.matches = Vec::new();
            },
        }
    }

    /// Scans only lines `start .. end` (clamped to the line count),
    /// replacing the preview match set.  Without a pattern, clears it.
    pub fn search_visible_lines(&mut self, buf: &Buffer, start: usize, end: usize)
        requires
            buf.wf(),
        ensures
            final(self).pattern == old(self).pattern,
            final(self).query_string == old(self).query_string,
            final(self).matches == old(self).matches,
            final(self).current == old(self).current,
            final(self).forward == old(self).forward,
            final(self).is_searching == old(self).is_searching,
            match old(self).pattern {
                Some(p) => {
                    let to = if end as int <= line_starts(buf.content@).len() {
                        end as int
                    } else {
                        line_starts(buf.content@).len() as int
                    };
                    match_views(final(self).preview_matches@) == if (start as int) <= to {
                        scan_matches(p.spec_query(), p.ci(), buf.content@, start as int, to)
                    } else {
                        Seq::<(int, int, int)>::empty()
                    }
                },
                None => final(self).preview_matches@ == Seq::<LineMatch>::empty(),
            },
    {
        match &self.pattern {
            Some(p) => {
                let count = buf.line_count();
                let to = if end <= count {
                    end
                } else {
                    count
                };
                if start <= to {
                    self.preview_matches = scan_buffer_range(p, buf, start, to);
                } else {
                    self.preview_matches = Vec::new();
                }
            },
            None => {
                self.preview_matches = Vec::new();
            },
        }
    }

    /// Advances the cursor circularly over the committed set; no-op when
    /// the set is empty.
    pub fn next_match(&mut self)
        ensures
            *final(self) == (SearchState { current: final(self).current, ..*old(self) }),
            old(self).matches@.len() == 0 ==> final(self).current == old(self).current,
            old(self).matches@.len() > 0 ==> final(self).current as int == if old(self).current
                >= old(self).matches@.len() - 1 {
                0int
            } else {
                old(self).current + 1
            },
    {
        let len = self.matches.len();
        if len > 0 {
            self.current = if self.current >= len - 1 {
                0
            } else {
                self.current + 1
            };
        }
    }

    /// Retreats the cursor circularly over the committed set; no-op when
    /// the set is empty.
    pub fn prev_match(&mut self)
        ensures
            *final(self) == (SearchState { current: final(self).current, ..*old(self) }),
            old(self).matches@.len() == 0 ==> final(self).current == old(self).current,
            old(self).matches@.len() > 0 ==> final(self).current as int == if old(self).current
                == 0 {
                old(self).matches@.len() - 1
            } else {
                old(self).current - 1
            },
    {
        let len = self.matches.len();
        if len > 0 {
            self.current = if self.current == 0 {
                len - 1
            } else {
                self.current - 1
            };
        }
    }

    /// Moves the cursor to the first match at or after `line`; the cursor
    /// is unchanged when no such match exists.
    pub fn jump_to_line(&mut self, line: usize)
        ensures
            *final(self) == (SearchState { current: final(self).current, ..*old(self) }),
            (exists|i: int|
                0 <= i < old(self).matches@.len() && (#[trigger] old(self).matches@[i]).line
                    >= line) ==> {
                &&& final(self).current < old(self).matches@.len()
                &&& old(self).matches@[final(self).current as int].line >= line
                &&& forall|j: int|
                    0 <= j < final(self).current ==> (#[trigger] old(self).matches@[j]).line < line
            },
            !(exists|i: int|
                0 <= i < old(self).matches@.len() && (#[trigger] old(self).matches@[i]).line
                    >= line) ==> final(self).current == old(self).current,
    {
        let n = self.matches.len();
        let mut i: usize = 0;
        while i < n
            invariant
                n == self.matches@.len(),
                i <= n,
                *self == *old(self),
                forall|j: int| 0 <= j < i ==> (#[trigger] self.matches@[j]).line < line,
            decreases n - i,
        {
            if self.matches[i].line >= line {
                self.current = i;
                return ;
            }
            i = i + 1;
        }
    }

    /// The line of the match under the cursor, absent when the cursor is
    /// past the set.
    pub fn current_match_line(&self) -> (r: Option<usize>)
        ensures
            r == if (self.current as int) < self.matches@.len() {
                Some(self.matches@[self.current as int].line)
            } else {
                Option::<usize>::None
            },
    {
        if self.current < self.matches.len() {
            Some(self.matches[self.current].line)
        } else {
            None
        }
    }

    /// The byte ranges of committed matches on one line, in column order.
    pub fn matches_on_line(&self, line: usize) -> (r: Vec<(usize, usize)>)
        ensures
            r@.map_values(|p: (usize, usize)| (p.0 as int, p.1 as int)) == match_views(
                self.matches@,
            ).filter(|t: (int, int, int)| t.0 == line as int).map_values(
                |t: (int, int, int)| (t.1, t.2),
            ),
    {
        ranges_on_line(&self.matches, line)
    }

    /// The byte ranges of preview matches on one line, in column order.
    pub fn preview_matches_on_line(&self, line: usize) -> (r: Vec<(usize, usize)>)
        ensures
            r@.map_values(|p: (usize, usize)| (p.0 as int, p.1 as int)) == match_views(
                self.preview_matches@,
            ).filter(|t: (int, int, int)| t.0 == line as int).map_values(
                |t: (int, int, int)| (t.1, t.2),
            ),
    {
        ranges_on_line(&self.preview_matches, line)
    }

    /// Size of the committed match set.
    pub fn match_count(&self) -> (r: usize)
        ensures
            r == self.matches@.len(),
    {
        self.matches.len()
    }

    /// Whether a pattern is set.
    pub fn has_pattern(&self) -> (r: bool)
        ensures
            r == (self.pattern is Some),
    {
        self.pattern.is_some()
    }

    /// Appends one background batch to the committed match set.
    pub fn extend_matches(&mut self, batch: Vec<LineMatch>)
        ensures
            *final(self) == (SearchState { matches: final(self).matches, ..*old(self) }),
            final(self).matches@ == old(self).matches@ + batch@,
    {
        let mut b = batch;
        self.matches.append(&mut b);
    }
}

/// Whether any character of the query text is uppercase.
pub fn has_uppercase(q: &str) -> (r: bool)
    ensures
        r == has_upper(q@),
{
    let n = q.unicode_len();
    let mut i: usize = 0;
    while i < n
        invariant
            n == q@.len(),
            i <= n,
            forall|k: int| 0 <= k < i ==> !char_is_upper(q@[k]),
        decreases n - i,
    {
        if is_uppercase_char(q.get_char(i)) {
            return true;
        }
        i = i + 1;
    }
    false
}

/// The byte ranges of matches on one line, in stored order.
fn ranges_on_line(v: &Vec<LineMatch>, line: usize) -> (r: Vec<(usize, usize)>)
    ensures
        r@.map_values(|p: (usize, usize)| (p.0 as int, p.1 as int)) == match_views(v@).filter(
            |t: (int, int, int)| t.0 == line as int,
        ).map_values(|t: (int, int, int)| (t.1, t.2)),
{
    let ghost pred = |t: (int, int, int)| t.0 == line as int;
    let ghost proj = |t: (int, int, int)| (t.1, t.2);
    let ghost pview = |p: (usize, usize)| (p.0 as int, p.1 as int);
    let n = v.len();
    let mut out: Vec<(usize, usize)> = Vec::new();
    let mut i: usize = 0;
    proof {
        assert(match_views(v@.subrange(0, 0)) =~= Seq::<(int, int, int)>::empty());
        assert(out@.map_values(pview) =~= match_views(v@.subrange(0, 0)).filter(pred).map_values(
            proj,
        ));
    }
    while i < n
        invariant
            n == v@.len(),
            i <= n,
            pred == (|t: (int, int, int)| t.0 == line as int),
            proj == (|t: (int, int, int)| (t.1, t.2)),
            pview == (|p: (usize, usize)| (p.0 as int, p.1 as int)),
            out@.map_values(pview) =~= match_views(v@.subrange(0, i as int)).filter(
                pred,
            ).map_values(proj),
        decreases n - i,
    {
        let m = v[i];
        let ghost pre = v@.subrange(0, i as int);
        let ghost cur = v@.subrange(0, i + 1);
        proof {
            assert(cur.drop_last() =~= pre);
            assert(cur.last() == v@[i as int]);
            pre.lemma_push_map_commute(
                |mm: LineMatch| (mm.line as int, mm.start as int, mm.end as int),
                v@[i as int],
            );
            assert(cur =~= pre.push(v@[i as int]));
            assert(match_views(cur) =~= match_views(pre).push(
                (m.line as int, m.start as int, m.end as int),
            ));
        }
        let ghost t = (m.line as int, m.start as int, m.end as int);
        proof {
            reveal(Seq::filter);
            let mp = match_views(pre);
            let mc = match_views(cur);
            assert(mc.drop_last() =~= mp);
            assert(mc.last() == t);
            assert(mc.filter(pred) == if pred(t) {
                mp.filter(pred).push(t)
            } else {
                mp.filter(pred)
            });
        }
        if m.line == line {
            let ghost prev_out = out@;
            out.push((m.start, m.end));
            proof {
                prev_out.lemma_push_map_commute(pview, (m.start, m.end));
                match_views(pre).filter(pred).lemma_push_map_commute(proj, t);
                assert(out@.map_values(pview) =~= match_views(cur).filter(pred).map_values(proj));
            }
        } else {
            proof {
                assert(out@.map_values(pview) =~= match_views(cur).filter(pred).map_values(proj));
            }
        }
        i = i + 1;
    }
    proof {
        assert(v@.subrange(0, n as int) =~= v@);
    }
    out
}


/// Advancing the cursor and then retreating it returns it to its original
/// value, over any non-empty match set with the cursor inside it, by the
/// cursor arithmetic that `next_match` and `prev_match` promise.
pub proof fn lemma_next_prev_roundtrip(pre: SearchState, mid: SearchState, post: SearchState)
    requires
        pre.matches@.len() > 0,
        (pre.current as int) < pre.matches@.len(),
        mid == (SearchState { current: mid.current, ..pre }),
        mid.current as int == if pre.current as int >= pre.matches@.len() - 1 {
            0int
        } else {
            pre.current + 1
        },
        post == (SearchState { current: post.current, ..mid }),
        post.current as int == if mid.current == 0 {
            mid.matches@.len() - 1
        } else {
            mid.current - 1
        },
    ensures
        post == pre,
{
    assert(post.current == pre.current);
}


/// Every match a scan collects lies in the scanned line range.
pub proof fn lemma_scan_line_bounds(q: Seq<char>, ci: bool, data: Seq<u8>, from: int, to: int)
    requires
        from <= to,
    ensures
        forall|k: int|
            0 <= k < scan_matches(q, ci, data, from, to).len() ==> from <= (
            #[trigger] scan_matches(q, ci, data, from, to)[k]).0 < to,
    decreases to - from,
{
    if to > from {
        lemma_scan_line_bounds(q, ci, data, from, to - 1);
        let prev = scan_matches(q, ci, data, from, to - 1);
        let cur = scan_matches(q, ci, data, from, to);
        let tail = line_matches_at(q, ci, data, to - 1);
        assert forall|k: int| 0 <= k < cur.len() implies from <= (#[trigger] cur[k]).0 < to by {
            if k < prev.len() {
                assert(cur[k] == prev[k]);
            } else {
                assert(cur[k] == tail[k - prev.len()]);
                match spec_get_line(data, to - 1) {
                    Some(text) => {
                        assert(tail[k - prev.len()].0 == to - 1);
                    },
                    None => {
                    },
                }
            }
        }
    }
}

/// A scanned match set is ordered by line: later matches never name an
/// earlier line.
pub proof fn lemma_scan_matches_line_sorted(q: Seq<char>, ci: bool, data: Seq<u8>, from: int, to: int)
    requires
        from <= to,
    ensures
        forall|i: int, j: int|
            0 <= i <= j < scan_matches(q, ci, data, from, to).len() ==> (
            #[trigger] scan_matches(q, ci, data, from, to)[i]).0 <= (#[trigger] scan_matches(
                q,
                ci,
                data,
                from,
                to,
            )[j]).0,
    decreases to - from,
{
    if to > from {
        lemma_scan_matches_line_sorted(q, ci, data, from, to - 1);
        lemma_scan_line_bounds(q, ci, data, from, to - 1);
        let prev = scan_matches(q, ci, data, from, to - 1);
        let cur = scan_matches(q, ci, data, from, to);
        let tail = line_matches_at(q, ci, data, to - 1);
        assert forall|i: int, j: int| 0 <= i <= j < cur.len() implies (#[trigger] cur[i]).0 <= (
        #[trigger] cur[j]).0 by {
            if j < prev.len() {
                assert(cur[i] == prev[i] && cur[j] == prev[j]);
            } else {
                assert(cur[j] == tail[j - prev.len()]);
                match spec_get_line(data, to - 1) {
                    Some(text) => {
                        assert(cur[j].0 == to - 1);
                        if i < prev.len() {
                            assert(cur[i] == prev[i]);
                        } else {
                            assert(cur[i] == tail[i - prev.len()]);
                        }
                    },
                    None => {
                    },
                }
            }
        }
    }
}

} // verus!
