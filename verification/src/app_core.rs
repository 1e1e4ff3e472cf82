//! Central application state: the buffer collection, the interaction mode,
//! the viewport, marks, the filter, and search plumbing.

use vstd::prelude::*;
use vstd::string::StrSliceExecFns;
use crate::buffer::{Buffer, spec_is_binary, spec_hex_rows};
use crate::lines::line_starts;
use crate::search::SearchState;
use crate::marks::MarkTable;
use crate::config::Config;
use crate::keymap::KeyMap;

verus! {

/// The current interaction mode, one tagged variant with its payload.
#[derive(Debug, Clone, PartialEq)]
pub enum Mode {
    /// Normal viewing.
    Normal,
    /// A search query is being typed.
    SearchInput { input: String, forward: bool },
    /// A command is being typed.
    CommandInput { input: String },
    /// Follow the end of the file as it grows.
    Follow,
    /// A filter pattern is being typed.
    FilterInput { input: String },
    /// Line-wise visual selection.
    Visual { anchor: usize, cursor: usize },
}

/// Central application state.
pub struct App {
    /// All loaded buffers, append-only, navigated by rotation.
    pub buffers: Vec<Buffer>,
    /// Index of the active buffer.
    pub active_buffer: usize,
    /// Current interaction mode.
    pub mode: Mode,
    /// First visible line (0-indexed).
    pub top_line: usize,
    /// Horizontal scroll offset in columns.
    pub left_col: usize,
    /// Rows available for content.
    pub content_height: usize,
    /// Columns available for content.
    pub content_width: usize,
    /// Search state.
    pub search: SearchState,
    /// Resolved configuration.
    pub config: Config,
    /// Whether the line-number gutter is shown.
    pub show_line_numbers: bool,
    /// Whether long lines wrap.
    pub wrap_lines: bool,
    /// Transient status message.
    pub status_message: Option<String>,
    /// Set when the viewer should exit.
    pub quit: bool,
    /// Named marks.
    pub marks: MarkTable,
    /// Armed first key of a two-key sequence.
    pub pending_key: Option<char>,
    /// Active filter: the query and the matching absolute line indices.
    pub filter: Option<(String, Vec<usize>)>,
    /// Scroll position within the filtered sequence.
    pub top_filter_idx: usize,
    /// Key dispatch table.
    pub key_map: KeyMap,
}

/// Display line count of the active buffer: hex rows for binary content,
/// text lines otherwise.
pub open spec fn spec_total_lines(s: &App) -> int {
    let data = s.buffers@[s.active_buffer as int].content@;
    if spec_is_binary(data) {
        spec_hex_rows(data.len() as int)
    } else {
        line_starts(data).len() as int
    }
}

/// Greatest allowed top position for `total` lines in a viewport of
/// `height` rows.
pub open spec fn spec_max_top(total: int, height: int) -> int {
    if total >= height {
        total - height
    } else {
        0
    }
}

/// The line indices `from .. to`, in order.
pub open spec fn int_range(from: int, to: int) -> Seq<int> {
    Seq::new(if to >= from { (to - from) as nat } else { 0nat }, |i: int| from + i)
}

impl App {
    /// At least one buffer, every buffer well formed, the active index in
    /// range, and the marks well keyed.
    pub open spec fn wf(&self) -> bool {
        &&& self.buffers@.len() > 0
        &&& (self.active_buffer as int) < self.buffers@.len()
        &&& forall|i: int| 0 <= i < self.buffers@.len() ==> (#[trigger] self.buffers@[i]).wf()
        &&& self.marks.wf()
    }

    /// Builds the application state over freshly loaded buffers.
    pub fn new(buffers: Vec<Buffer>, config: Config) -> (r: App)
        requires
            buffers@.len() > 0,
            forall|i: int| 0 <= i < buffers@.len() ==> (#[trigger] buffers@[i]).wf(),
        ensures
            r.wf(),
            r.buffers == buffers,
            r.active_buffer == 0,
            r.mode == Mode::Normal,
            r.top_line == 0,
            r.left_col == 0,
            r.content_height == 24,
            r.content_width == 80,
            r.show_line_numbers == config.general.line_numbers,
            r.wrap_lines == config.general.wrap,
            r.status_message is None,
            !r.quit,
            r.marks@ == Map::<char, usize>::empty(),
            r.pending_key is None,
            r.filter is None,
            r.top_filter_idx == 0,
            r.key_map.spec_primary() == crate::keymap::apply_overrides_spec(
                crate::keymap::default_bindings(),
                config.keys,
            ),
            r.key_map.spec_secondary() == crate::keymap::secondary_bindings(),
            r.search.pattern is None,
            r.config == config,
    {
        let key_map = KeyMap::build(&config.keys);
        let show_line_numbers = config.general.line_numbers;
        let wrap_lines = config.general.wrap;
        App {
            buffers,
            active_buffer: 0,
            mode: Mode::Normal,
            top_line: 0,
            left_col: 0,
            content_height: 24,
            content_width: 80,
            search: SearchState::new(),
            config,
            show_line_numbers,
            wrap_lines,
            status_message: None,
            quit: false,
            marks: MarkTable::new(),
            pending_key: None,
            filter: None,
            top_filter_idx: 0,
            key_map,
        }
    }

    /// The active buffer.
    pub fn buffer(&self) -> (r: &Buffer)
        requires
            self.wf(),
        ensures
            *r == self.buffers@[self.active_buffer as int],
    {
        &self.buffers[self.active_buffer]
    }

    /// Display line count of the active buffer.
    pub fn total_lines(&self) -> (r: usize)
        requires
            self.wf(),
        ensures
            r as int == spec_total_lines(self),
    {
        self.buffer().display_line_count()
    }

    /// The greatest allowed top line, so the last line stays visible.
    pub fn max_top_line(&self) -> (r: usize)
        requires
            self.wf(),
        ensures
            r as int == spec_max_top(spec_total_lines(self), self.content_height as int),
    {
        let total = self.total_lines();
        if total >= self.content_height {
            total - self.content_height
        } else {
            0
        }
    }

    /// Whether a tab bar is shown: only with more than one buffer.
    pub fn has_tab_bar(&self) -> (r: bool)
        ensures
            r == (self.buffers@.len() > 1),
    {
        self.buffers.len() > 1
    }

    /// The ordered line indices the viewport shows: a window of the
    /// filtered sequence while a filter is active, else a window of all
    /// lines.
    pub fn active_lines(&self) -> (r: Vec<usize>)
        requires
            self.wf(),
        ensures
            r@.map_values(|x: usize| x as int) == match self.filter {
                Some((q, idx)) => {
                    let len = idx@.len() as int;
                    let start = self.top_filter_idx as int;
                    let end = if start + self.content_height <= len {
                        start + self.content_height
                    } else {
                        len
                    };
                    if start >= len {
                        Seq::<int>::empty()
                    } else {
                        idx@.subrange(start, end).map_values(|x: usize| x as int)
                    }
                },
                None => {
                    let total = spec_total_lines(self);
                    let start = self.top_line as int;
                    let end = if start + self.content_height <= total {
                        start + self.content_height
                    } else {
                        total
                    };
                    int_range(start, end)
                },
            },
    {
        let mut out: Vec<usize> = Vec::new();
        match &self.filter {
            Some((_, idx)) => {
                let len = idx.len();
                let start = self.top_filter_idx;
                if start >= len {
                    proof {
                        assert(out@.map_values(|x: usize| x as int) =~= Seq::<int>::empty());
                    }
                    return out;
                }
                let end = if len - start > self.content_height {
                    start + self.content_height
                } else {
                    len
                };
                let mut i = start;
                proof {
                    assert(out@.map_values(|x: usize| x as int) =~= idx@.subrange(
                        start as int,
                        start as int,
                    ).map_values(|x: usize| x as int));
                }
                while i < end
                    invariant
                        start <= i <= end,
                        end <= idx@.len(),
                        out@.map_values(|x: usize| x as int) =~= idx@.subrange(
                            start as int,
                            i as int,
                        ).map_values(|x: usize| x as int),
                    decreases end - i,
                {
                    let ghost prev = out@;
                    out.push(idx[i]);
                    proof {
                        let pre = idx@.subrange(start as int, i as int);
                        let cur = idx@.subrange(start as int, i + 1);
                        assert(cur.drop_last() =~= pre);
                        pre.lemma_push_map_commute(|x: usize| x as int, idx@[i as int]);
                        assert(cur =~= pre.push(idx@[i as int]));
                        prev.lemma_push_map_commute(|x: usize| x as int, idx@[i as int]);
                        assert(out@.map_values(|x: usize| x as int) =~= cur.map_values(
                            |x: usize| x as int,
                        ));
                    }
                    i = i + 1;
                }
            },
            None => {
                let total = self.total_lines();
                let start = self.top_line;
                if start >= total {
                    proof {
                        assert(out@.map_values(|x: usize| x as int) =~= int_range(
                            start as int,
                            total as int,
                        ));
                    }
                    return out;
                }
                let end = if total - start > self.content_height {
                    start + self.content_height
                } else {
                    total
                };
                let mut i = start;
                proof {
                    assert(out@.map_values(|x: usize| x as int) =~= int_range(
                        start as int,
                        start as int,
                    ));
                }
                while i < end
                    invariant
                        start <= i <= end,
                        out@.map_values(|x: usize| x as int) =~= int_range(start as int, i as int),
                    decreases end - i,
                {
                    let ghost prev = out@;
                    out.push(i);
                    proof {
                        prev.lemma_push_map_commute(|x: usize| x as int, i);
                        assert(out@.map_values(|x: usize| x as int) =~= int_range(
                            start as int,
                            i + 1,
                        ));
                    }
                    i = i + 1;
                }
            },
        }
        out
    }

    /// Scrolls down `n` lines, clamped; moves the filtered position while
    /// a filter is active.
    pub fn scroll_down(&mut self, n: usize)
        requires
            old(self).wf(),
        ensures
            final(self).wf(),
            *final(self) == (App {
                top_line: final(self).top_line,
                top_filter_idx: final(self).top_filter_idx,
                ..*old(self)
            }),
            match old(self).filter {
                Some((q, idx)) => {
                    let max = spec_max_top(idx@.len() as int, old(self).content_height as int);
                    &&& final(self).top_line == old(self).top_line
                    &&& final(self).top_filter_idx as int == if old(self).top_filter_idx + n
                        <= max {
                        old(self).top_filter_idx + n
                    } else {
                        max
                    }
                },
                None => {
                    let max = spec_max_top(
                        spec_total_lines(old(self)),
                        old(self).content_height as int,
                    );
                    &&& final(self).top_filter_idx == old(self).top_filter_idx
                    &&& final(self).top_line as int == if old(self).top_line + n <= max {
                        old(self).top_line + n
                    } else {
                        max
                    }
                },
            },
    {
        match &self.filter {
            Some((_, idx)) => {
                let len = idx.len();
                let max = if len >= self.content_height {
                    len - self.content_height
                } else {
                    0
                };
                self.top_filter_idx = if self.top_filter_idx >= max {
                    max
                } else if n >= max - self.top_filter_idx {
                    max
                } else {
                    self.top_filter_idx + n
                };
            },
            None => {
                let max = self.max_top_line();
                self.top_line = if self.top_line >= max {
                    max
                } else if n >= max - self.top_line {
                    max
                } else {
                    self.top_line + n
                };
            },
        }
    }

    /// Scrolls up `n` lines, clamped at the top; moves the filtered
    /// position while a filter is active.
    pub fn scroll_up(&mut self, n: usize)
        requires
            old(self).wf(),
        ensures
            final(self).wf(),
            *final(self) == (App {
                top_line: final(self).top_line,
                top_filter_idx: final(self).top_filter_idx,
                ..*old(self)
            }),
            match old(self).filter {
                Some((q, idx)) => {
                    &&& final(self).top_line == old(self).top_line
                    &&& final(self).top_filter_idx as int == if old(self).top_filter_idx >= n {
                        old(self).top_filter_idx - n
                    } else {
                        0int
                    }
                },
                None => {
                    &&& final(self).top_filter_idx == old(self).top_filter_idx
                    &&& final(self).top_line as int == if old(self).top_line >= n {
                        old(self).top_line - n
                    } else {
                        0int
                    }
                },
            },
    {
        if self.filter.is_some() {
            self.top_filter_idx = if self.top_filter_idx >= n {
                self.top_filter_idx - n
            } else {
                0
            };
        } else {
            self.top_line = if self.top_line >= n {
                self.top_line - n
            } else {
                0
            };
        }
    }

    /// Jumps to `line`, centering it: the top becomes the line minus half
    /// the content height, clamped.
    pub fn goto_line(&mut self, line: usize)
        requires
            old(self).wf(),
        ensures
            final(self).wf(),
            *final(self) == (App { top_line: final(self).top_line, ..*old(self) }),
            final(self).top_line as int == {
                let target = if line >= old(self).content_height / 2 {
                    line - old(self).content_height / 2
                } else {
                    0int
                };
                let max = spec_max_top(
                    spec_total_lines(old(self)),
                    old(self).content_height as int,
                );
                if target <= max {
                    target
                } else {
                    max
                }
            },
    {
        let half = self.content_height / 2;
        let target = if line >= half {
            line - half
        } else {
            0
        };
        let max = self.max_top_line();
        self.top_line = if target <= max {
            target
        } else {
            max
        };
    }

    /// Jumps to the top of the content, in both plain and filtered views.
    pub fn goto_top(&mut self)
        requires
            old(self).wf(),
        ensures
            final(self).wf(),
            *final(self) == (App { top_line: 0, top_filter_idx: 0, ..*old(self) }),
    {
        self.top_line = 0;
        self.top_filter_idx = 0;
    }

    /// Jumps to the bottom of the content, in both plain and filtered
    /// views.
    pub fn goto_bottom(&mut self)
        requires
            old(self).wf(),
        ensures
            final(self).wf(),
            *final(self) == (App {
                top_line: final(self).top_line,
                top_filter_idx: final(self).top_filter_idx,
                ..*old(self)
            }),
            final(self).top_line as int == spec_max_top(
                spec_total_lines(old(self)),
                old(self).content_height as int,
            ),
            final(self).top_filter_idx as int == match old(self).filter {
                Some((q, idx)) => spec_max_top(
                    idx@.len() as int,
                    old(self).content_height as int,
                ),
                None => old(self).top_filter_idx as int,
            },
    {
        self.top_line = self.max_top_line();
        match &self.filter {
            Some((_, idx)) => {
                let len = idx.len();
                self.top_filter_idx = if len >= self.content_height {
                    len - self.content_height
                } else {
                    0
                };
            },
            None => {
            },
        }
    }

    /// Width of the line-number gutter: the digits of the largest line
    /// count plus fixed padding, or 0 with line numbers off.
    pub fn gutter_width(&self) -> (r: usize)
        requires
            self.wf(),
        ensures
            r as int == if self.show_line_numbers {
                crate::text::digit_count(spec_total_lines(self) as nat) + 2int
            } else {
                0int
            },
    {
        if !self.show_line_numbers {
            return 0;
        }
        let total = self.total_lines();
        let digits = crate::text::count_digits(total);
        proof {
            crate::text::lemma_digit_count_max(total as nat);
        }
        digits + 2
    }

    /// Percentage of the content that is at or above the bottom of the
    /// viewport; 100 for empty content.
    pub fn scroll_percentage(&self) -> (r: u16)
        requires
            self.wf(),
        ensures
            r as int == match self.filter {
                Some((q, idx)) => {
                    let len = idx@.len() as int;
                    if len == 0 {
                        100int
                    } else {
                        let bottom = self.top_filter_idx + self.content_height;
                        let effective = if bottom <= len {
                            bottom as int
                        } else {
                            len
                        };
                        effective * 100 / len
                    }
                },
                None => {
                    let total = spec_total_lines(self);
                    if total == 0 {
                        100int
                    } else {
                        let bottom = self.top_line + self.content_height;
                        let effective = if bottom <= total {
                            bottom as int
                        } else {
                            total
                        };
                        effective * 100 / total
                    }
                },
            },
    {
        match &self.filter {
            Some((_, idx)) => {
                let len = idx.len();
                if len == 0 {
                    return 100;
                }
                let effective = if self.content_height < len && self.top_filter_idx < len
                    - self.content_height {
                    self.top_filter_idx + self.content_height
                } else {
                    len
                };
                percentage_of(effective, len)
            },
            None => {
                let total = self.total_lines();
                if total == 0 {
                    return 100;
                }
                let effective = if self.content_height < total && self.top_line < total
                    - self.content_height {
                    self.top_line + self.content_height
                } else {
                    total
                };
                percentage_of(effective, total)
            },
        }
    }
}

/// Whether line `l` of the content satisfies the (case-insensitive)
/// filter pattern: the line is present and the pattern matches it.
pub open spec fn line_filter_hit(q: Seq<char>, data: Seq<u8>, l: int) -> bool {
    match crate::buffer::spec_get_line(data, l) {
        Some(text) => crate::pattern::regex_matches(q, true, text).len() > 0,
        None => false,
    }
}

/// The strictly increasing indices of lines below `n` that satisfy the
/// filter pattern.
pub open spec fn spec_filter_indices(q: Seq<char>, data: Seq<u8>, n: int) -> Seq<int>
    decreases n,
{
    if n <= 0 {
        Seq::empty()
    } else {
        let rest = spec_filter_indices(q, data, n - 1);
        if line_filter_hit(q, data, n - 1) {
            rest.push(n - 1)
        } else {
            rest
        }
    }
}

/// The lines `from ..= to` that are present, in order.
pub open spec fn present_lines(data: Seq<u8>, from: int, to: int) -> Seq<Seq<char>>
    decreases to - from + 1,
{
    if to < from {
        Seq::empty()
    } else {
        let rest = present_lines(data, from, to - 1);
        match crate::buffer::spec_get_line(data, to) {
            Some(t) => rest.push(t),
            None => rest,
        }
    }
}

/// The texts joined by `sep`.
pub open spec fn join_with(texts: Seq<Seq<char>>, sep: char) -> Seq<char>
    decreases texts.len(),
{
    if texts.len() == 0 {
        Seq::empty()
    } else if texts.len() == 1 {
        texts[0]
    } else {
        join_with(texts.drop_last(), sep) + seq![sep] + texts.last()
    }
}

/// The rotation status line: `Buffer pos/n: name`.
pub open spec fn spec_buffer_status(pos: nat, n: nat, name: Seq<char>) -> Seq<char> {
    "Buffer "@ + crate::text::spec_decimal(pos) + "/"@ + crate::text::spec_decimal(n) + ": "@
        + name
}

/// The filter status line: `Filter: q (n lines)`.
pub open spec fn spec_filter_status(q: Seq<char>, n: nat) -> Seq<char> {
    "Filter: "@ + q + " ("@ + crate::text::spec_decimal(n) + " lines)"@
}

impl App {
    /// Switches to the next buffer, wrapping around; resets the top line,
    /// the left column, and the filter, and reports the switch.  With a
    /// single buffer nothing changes.
    pub fn next_buffer(&mut self)
        requires
            old(self).wf(),
        ensures
            final(self).wf(),
            old(self).buffers@.len() <= 1 ==> *final(self) == *old(self),
            old(self).buffers@.len() > 1 ==> {
                &&& *final(self) == (App {
                    active_buffer: final(self).active_buffer,
                    top_line: 0,
                    left_col: 0,
                    filter: None,
                    top_filter_idx: 0,
                    status_message: final(self).status_message,
                    ..*old(self)
                })
                &&& final(self).active_buffer as int == if old(self).active_buffer + 1 < old(self).buffers@.len() {
                    old(self).active_buffer + 1
                } else {
                    0int
                }
                &&& (final(self).status_message matches Some(m) && m@ == spec_buffer_status(
                    final(self).active_buffer as nat + 1,
                    old(self).buffers@.len() as nat,
                    old(self).buffers@[final(self).active_buffer as int].name@,
                ))
            },
    {
        let n = self.buffers.len();
        if n > 1 {
            self.active_buffer = if self.active_buffer + 1 < n {
                self.active_buffer + 1
            } else {
                0
            };
            self.top_line = 0;
            self.left_col = 0;
            self.filter = None;
            self.top_filter_idx = 0;
            let msg = buffer_status(self.active_buffer, n, &self.buffers[self.active_buffer].name);
            self.status_message = Some(msg);
        }
    }

    /// Switches to the previous buffer, wrapping around; resets the top
    /// line, the left column, and the filter, and reports the switch.
    /// With a single buffer nothing changes.
    pub fn prev_buffer(&mut self)
        requires
            old(self).wf(),
        ensures
            final(self).wf(),
            old(self).buffers@.len() <= 1 ==> *final(self) == *old(self),
            old(self).buffers@.len() > 1 ==> {
                &&& *final(self) == (App {
                    active_buffer: final(self).active_buffer,
                    top_line: 0,
                    left_col: 0,
                    filter: None,
                    top_filter_idx: 0,
                    status_message: final(self).status_message,
                    ..*old(self)
                })
                &&& final(self).active_buffer as int == if old(self).active_buffer == 0 {
                    old(self).buffers@.len() - 1
                } else {
                    old(self).active_buffer - 1
                }
                &&& (final(self).status_message matches Some(m) && m@ == spec_buffer_status(
                    final(self).active_buffer as nat + 1,
                    old(self).buffers@.len() as nat,
                    old(self).buffers@[final(self).active_buffer as int].name@,
                ))
            },
    {
        let n = self.buffers.len();
        if n > 1 {
            self.active_buffer = if self.active_buffer == 0 {
                n - 1
            } else {
                self.active_buffer - 1
            };
            self.top_line = 0;
            self.left_col = 0;
            self.filter = None;
            self.top_filter_idx = 0;
            let msg = buffer_status(self.active_buffer, n, &self.buffers[self.active_buffer].name);
            self.status_message = Some(msg);
        }
    }

    /// Clears the filter and resets the filtered scroll position.
    pub fn clear_filter(&mut self)
        requires
            old(self).wf(),
        ensures
            final(self).wf(),
            *final(self) == (App { filter: None, top_filter_idx: 0, ..*old(self) }),
    {
        self.filter = None;
        self.top_filter_idx = 0;
    }

    /// Applies a line filter.  An empty query clears the filter; a
    /// well-formed query stores the matching line indices and resets the
    /// filtered position; a malformed query only reports the error,
    /// leaving the previous filter untouched.
    pub fn apply_filter(&mut self, query: &str)
        requires
            old(self).wf(),
        ensures
            final(self).wf(),
            apply_filter_post(*old(self), *final(self), query@),
    {
        if query.unicode_len() == 0 {
            self.clear_filter();
            return ;
        }
        match crate::pattern::compile_pattern(query, true) {
            Ok(p) => {
                let count = self.buffer().line_count();
                let ghost data = self.buffers@[self.active_buffer as int].content@;
                let mut indices: Vec<usize> = Vec::new();
                let mut i: usize = 0;
                proof {
                    assert(indices@.map_values(|x: usize| x as int) =~= spec_filter_indices(
                        query@,
                        data,
                        0,
                    ));
                }
                while i < count
                    invariant
                        self.wf(),
                        *self == *old(self),
                        p.spec_query() == query@,
                        p.ci() == true,
                        data == self.buffers@[self.active_buffer as int].content@,
                        count == line_starts(data).len(),
                        i <= count,
                        indices@.map_values(|x: usize| x as int) =~= spec_filter_indices(
                            query@,
                            data,
                            i as int,
                        ),
                    decreases count - i,
                {
                    let hit = match self.buffers[self.active_buffer].get_line(i) {
                        Some(text) => {
                            let found = crate::pattern::find_matches(&p, text.as_str());
                            found.len() > 0
                        },
                        None => false,
                    };
                    let ghost prev = indices@;
                    if hit {
                        indices.push(i);
                        proof {
                            prev.lemma_push_map_commute(|x: usize| x as int, i);
                        }
                    }
                    proof {
                        assert(indices@.map_values(|x: usize| x as int) =~= spec_filter_indices(
                            query@,
                            data,
                            i + 1,
                        ));
                    }
                    i = i + 1;
                }
                let count_hits = indices.len();
                let msg = filter_status(query, count_hits);
                self.filter = Some((query.to_owned(), indices));
                self.top_filter_idx = 0;
                self.status_message = Some(msg);
            },
            Err(e) => {
                let mut msg = "Invalid filter regex: ".to_owned();
                msg.append(e.as_str());
                self.status_message = Some(msg);
            },
        }
    }

    /// The text of the inclusive line range `start ..= end`: every present
    /// line, joined by newlines.
    pub fn selection_text(&self, start: usize, end: usize) -> (r: String)
        requires
            self.wf(),
            start <= end,
            end < usize::MAX,
        ensures
            r@ == join_with(
                present_lines(
                    self.buffers@[self.active_buffer as int].content@,
                    start as int,
                    end as int,
                ),
                '\n',
            ),
    {
        let ghost data = self.buffers@[self.active_buffer as int].content@;
        let mut s = String::new();
        let mut any = false;
        let mut i = start;
        proof {
            assert(present_lines(data, start as int, start as int - 1) =~= Seq::<Seq<char>>::empty());
        }
        while i <= end
            invariant
                self.wf(),
                start <= i <= end + 1,
                end < usize::MAX,
                data == self.buffers@[self.active_buffer as int].content@,
                any <==> present_lines(data, start as int, i - 1).len() > 0,
                s@ == join_with(present_lines(data, start as int, i - 1), '\n'),
            decreases end + 1 - i,
        {
            match self.buffers[self.active_buffer].get_line(i) {
                Some(text) => {
                    if any {
                        crate::text::string_push(&mut s, '\n');
                    }
                    s.append(text.as_str());
                    any = true;
                    proof {
                        let pre = present_lines(data, start as int, i - 1);
                        let cur = present_lines(data, start as int, i as int);
                        assert(cur == pre.push(text@));
                        assert(cur.drop_last() =~= pre);
                        if pre.len() > 0 {
                            assert(s@ == join_with(pre, '\n') + seq!['\n'] + text@);
                        } else {
                            assert(s@ =~= text@);
                        }
                    }
                },
                None => {
                    proof {
                        assert(present_lines(data, start as int, i as int) == present_lines(
                            data,
                            start as int,
                            i - 1,
                        ));
                    }
                },
            }
            i = i + 1;
        }
        s
    }
}

/// What committing the current query leaves behind: a compiled pattern
/// and a line snapshot exactly when the query is non-empty and well
/// formed, with both match sets cleared and the search flagged as
/// outstanding.  Otherwise only the recorded query and a reported status
/// change: an empty query clears the pattern and both match sets, a
/// malformed one leaves the rest of the search state untouched.
pub open spec fn begin_search_post(
    pre: App,
    post: App,
    r: Option<(crate::pattern::Pattern, Vec<String>)>,
) -> bool {
    let q = pre.search.query_string@;
    let sc = pre.config.general.smart_case;
    let data = pre.buffers@[pre.active_buffer as int].content@;
    &&& (r is Some <==> (q.len() > 0 && crate::pattern::regex_compiles(
        q,
        crate::search::effective_ci(sc, q),
    )))
    &&& (r matches Some(pair) ==> {
        &&& pair.0.spec_query() == q
        &&& pair.0.ci() == crate::search::effective_ci(sc, q)
        &&& pair.1@.map_values(|s: String| s@) == crate::buffer::spec_snapshot(
            data,
            line_starts(data).len() as int,
        )
        &&& post.search.is_searching
        &&& post.search.matches@ == Seq::<crate::search::LineMatch>::empty()
        &&& post.search.preview_matches@ == Seq::<crate::search::LineMatch>::empty()
        &&& (post.search.pattern matches Some(pp) && pp.spec_query() == q && pp.ci()
            == crate::search::effective_ci(sc, q))
        &&& post.search.query_string@ == q
        &&& post.status_message is Some
        &&& post == (App { search: post.search, status_message: post.status_message, ..pre })
    })
    &&& (r is None ==> {
        &&& post == (App { search: post.search, status_message: post.status_message, ..pre })
        &&& post.search.query_string@ == q
        &&& post.status_message is Some
        &&& post.search.current == pre.search.current
        &&& post.search.forward == pre.search.forward
        &&& post.search.is_searching == pre.search.is_searching
        &&& (q.len() == 0 ==> {
            &&& post.search.pattern is None
            &&& post.search.matches@ == Seq::<crate::search::LineMatch>::empty()
            &&& post.search.preview_matches@ == Seq::<crate::search::LineMatch>::empty()
        })
        &&& (q.len() > 0 ==> post.search == (crate::search::SearchState {
            query_string: post.search.query_string,
            ..pre.search
        }))
    })
}

impl App {
    /// Commits the current query: compiles it under the smart-case rule
    /// and, when a scan is due, clears both match sets, flags the search
    /// as outstanding, and hands back the compiled pattern with a line
    /// snapshot for a background scan.  An empty or malformed query only
    /// reports its status.
    pub fn begin_search(&mut self) -> (r: Option<(crate::pattern::Pattern, Vec<String>)>)
        requires
            old(self).wf(),
        ensures
            final(self).wf(),
            begin_search_post(*old(self), *final(self), r),
    {
        let q = crate::config::clone_string(&self.search.query_string);
        let smart = self.config.general.smart_case;
        match self.search.set_pattern(q.as_str(), smart) {
            Err(_) => {
                let mut msg = "Invalid regex: ".to_owned();
                msg.append(q.as_str());
                self.status_message = Some(msg);
                None
            },
            Ok(()) => {
                let have_pattern = self.search.has_pattern();
                if !have_pattern {
                    self.status_message = Some("Empty pattern".to_owned());
                    return None;
                }
                let pc = match &self.search.pattern {
                    Some(p) => p.duplicate(),
                    None => {
                        return None;
                    },
                };
                self.search.matches = Vec::new();
                self.search.preview_matches = Vec::new();
                self.search.is_searching = true;
                let snap = self.buffers[self.active_buffer].text_snapshot();
                let mut msg = "Searching /".to_owned();
                msg.append(q.as_str());
                msg.append(" ...");
                self.status_message = Some(msg);
                Some((pc, snap))
            },
        }
    }

    /// Folds one background batch into the committed match set.  A
    /// progress batch only appends and reports; the final batch appends,
    /// clears the outstanding flag, moves the cursor to the first match at
    /// or after the top line, centers the viewport on the cursor's match
    /// when there is one, and reports the result.  Says whether the batch
    /// was final.
    pub fn absorb_search_batch(&mut self, batch: crate::search::SearchBatch) -> (done: bool)
        requires
            old(self).wf(),
        ensures
            final(self).wf(),
            match batch {
                crate::search::SearchBatch::Progress { matches: b, lines_scanned } => {
                    &&& !done
                    &&& *final(self) == (App {
                        search: final(self).search,
                        status_message: final(self).status_message,
                        ..*old(self)
                    })
                    &&& final(self).search == (crate::search::SearchState {
                        matches: final(self).search.matches,
                        ..old(self).search
                    })
                    &&& final(self).search.matches@ == old(self).search.matches@ + b@
                    &&& final(self).status_message is Some
                },
                crate::search::SearchBatch::Done { matches: b } => {
                    let ms = old(self).search.matches@ + b@;
                    &&& done
                    &&& *final(self) == (App {
                        search: final(self).search,
                        status_message: final(self).status_message,
                        top_line: final(self).top_line,
                        ..*old(self)
                    })
                    &&& final(self).search == (crate::search::SearchState {
                        matches: final(self).search.matches,
                        current: final(self).search.current,
                        is_searching: false,
                        ..old(self).search
                    })
                    &&& final(self).search.matches@ == ms
                    &&& final(self).status_message is Some
                    &&& ((exists|i: int|
                        0 <= i < ms.len() && (#[trigger] ms[i]).line >= old(self).top_line) ==> {
                        &&& (final(self).search.current as int) < ms.len()
                        &&& ms[final(self).search.current as int].line >= old(self).top_line
                        &&& (forall|j: int|
                            0 <= j < final(self).search.current ==> (#[trigger] ms[j]).line < old(self).top_line)
                    })
                    &&& (!(exists|i: int|
                        0 <= i < ms.len() && (#[trigger] ms[i]).line >= old(self).top_line)
                        ==> final(self).search.current == old(self).search.current)
                    &&& ((final(self).search.current as int) < ms.len() ==> final(self).top_line as int == {
                        let line = ms[final(self).search.current as int].line as int;
                        let target = if line >= old(self).content_height / 2 {
                            line - old(self).content_height / 2
                        } else {
                            0int
                        };
                        let max = spec_max_top(
                            spec_total_lines(old(self)),
                            old(self).content_height as int,
                        );
                        if target <= max {
                            target
                        } else {
                            max
                        }
                    })
                    &&& ((final(self).search.current as int) >= ms.len() ==> final(self).top_line
                        == old(self).top_line)
                },
            },
    {
        match batch {
            crate::search::SearchBatch::Progress { matches, lines_scanned } => {
                let n_new = {
                    self.search.extend_matches(matches);
                    self.search.match_count()
                };
                let mut msg = "Searching... (".to_owned();
                crate::text::push_decimal(&mut msg, n_new);
                msg.append(" matches, ");
                crate::text::push_decimal(&mut msg, lines_scanned / 1000);
                msg.append("k lines)");
                self.status_message = Some(msg);
                false
            },
            crate::search::SearchBatch::Done { matches } => {
                self.search.extend_matches(matches);
                self.search.is_searching = false;
                let top = self.top_line;
                self.search.jump_to_line(top);
                match self.search.current_match_line() {
                    Some(line) => {
                        self.goto_line(line);
                    },
                    None => {
                    },
                }
                let found = self.search.match_count();
                if found > 0 {
                    let mut msg = if self.search.forward {
                        "/".to_owned()
                    } else {
                        "?".to_owned()
                    };
                    msg.append(self.search.query_string.as_str());
                    msg.append(" (");
                    crate::text::push_decimal(&mut msg, found);
                    msg.append(" matches)");
                    self.status_message = Some(msg);
                } else {
                    let mut msg = "Pattern not found: ".to_owned();
                    msg.append(self.search.query_string.as_str());
                    self.status_message = Some(msg);
                }
                true
            },
        }
    }

    /// Finishes a reload of the active buffer from freshly read raw
    /// bytes: the content is replaced (re-inflated when the name declares
    /// compression), a committed search is re-run when a pattern is set,
    /// and follow mode jumps back to the bottom.  A read or inflation
    /// failure only reports its status.
    pub fn finish_reload(&mut self, read: Result<Vec<u8>, String>)
        requires
            old(self).wf(),
        ensures
            final(self).wf(),
            read is Err ==> {
                &&& *final(self) == (App {
                    status_message: final(self).status_message,
                    ..*old(self)
                })
                &&& final(self).status_message is Some
            },
            read matches Ok(raw) ==> {
                let a = old(self).active_buffer as int;
                let name = old(self).buffers@[a].name@;
                match crate::compress::spec_decompressed(name, raw@) {
                    Some(None) => {
                        &&& *final(self) == (App {
                            buffers: final(self).buffers,
                            status_message: final(self).status_message,
                            ..*old(self)
                        })
                        &&& final(self).buffers@ == old(self).buffers@
                        &&& final(self).status_message is Some
                    },
                    other => {
                        let newdata = match other {
                            None => raw@,
                            Some(inner) => inner->Some_0,
                        };
                        &&& final(self).buffers@.len() == old(self).buffers@.len()
                        &&& final(self).buffers@[a].content@ == newdata
                        &&& final(self).buffers@[a].name == old(self).buffers@[a].name
                        &&& final(self).buffers@[a].path == old(self).buffers@[a].path
                        &&& final(self).buffers@[a].is_diff == old(self).buffers@[a].is_diff
                        &&& (forall|j: int|
                            0 <= j < old(self).buffers@.len() && j != a
                                ==> final(self).buffers@[j] == old(self).buffers@[j])
                        &&& match old(self).search.pattern {
                            Some(p) => crate::search::match_views(final(self).search.matches@)
                                == crate::search::scan_matches(
                                p.spec_query(),
                                p.ci(),
                                newdata,
                                0,
                                line_starts(newdata).len() as int,
                            ) && final(self).search.current == 0,
                            None => final(self).search == old(self).search,
                        }
                        &&& ((old(self).mode matches Mode::Follow) ==> final(self).top_line as int
                            == spec_max_top(
                            spec_total_lines(final(self)),
                            old(self).content_height as int,
                        ))
                        &&& (!(old(self).mode matches Mode::Follow) ==> final(self).top_line as int == {
                            let max = spec_max_top(
                                spec_total_lines(final(self)),
                                old(self).content_height as int,
                            );
                            if old(self).top_line <= max {
                                old(self).top_line as int
                            } else {
                                max
                            }
                        })
                    },
                }
            },
    {
        let raw = match read {
            Ok(r) => r,
            Err(e) => {
                let mut msg = "Reload failed: ".to_owned();
                msg.append(e.as_str());
                self.status_message = Some(msg);
                return ;
            },
        };
        let idx = self.active_buffer;
        let mut b = self.buffers.remove(idx);
        let res = b.apply_reload(raw);
        self.buffers.insert(idx, b);
        proof {
            assert(self.buffers@ =~= old(self).buffers@.update(
                idx as int,
                self.buffers@[idx as int],
            ));
        }
        match res {
            Err(_) => {
                proof {
                    assert(self.buffers@ =~= old(self).buffers@);
                }
                self.status_message = Some("Reload failed: cannot inflate content".to_owned());
            },
            Ok(()) => {
                if self.search.has_pattern() {
                    let scan = match &self.search.pattern {
                        Some(p) => crate::search::scan_buffer_range(
                            p,
                            &self.buffers[idx],
                            0,
                            self.buffers[idx].line_count(),
                        ),
                        None => Vec::new(),
                    };
                    self.search.matches = scan;
                    self.search.current = 0;
                }
                let follow = match &self.mode {
                    Mode::Follow => true,
                    _ => false,
                };
                if follow {
                    self.goto_bottom();
                } else {
                    let max = self.max_top_line();
                    if self.top_line > max {
                        self.top_line = max;
                    }
                }
            },
        }
    }
}

/// What applying a line filter with query text `q` leaves behind: an
/// empty query clears the filter, a well-formed one stores the matching
/// line indices and resets the filtered position, a malformed one only
/// reports the error.
pub open spec fn apply_filter_post(pre: App, post: App, q: Seq<char>) -> bool {
    &&& (q.len() == 0 ==> post == (App { filter: None, top_filter_idx: 0, ..pre }))
    &&& (q.len() > 0 && crate::pattern::regex_compiles(q, true) ==> {
        &&& post == (App {
            filter: post.filter,
            top_filter_idx: 0,
            status_message: post.status_message,
            ..pre
        })
        &&& (post.filter matches Some((fq, idx)) && fq@ == q && idx@.map_values(
            |x: usize| x as int,
        ) == spec_filter_indices(
            q,
            pre.buffers@[pre.active_buffer as int].content@,
            line_starts(pre.buffers@[pre.active_buffer as int].content@).len() as int,
        ))
        &&& (post.status_message matches Some(m) && m@ == spec_filter_status(
            q,
            post.filter->Some_0.1@.len() as nat,
        ))
    })
    &&& (q.len() > 0 && !crate::pattern::regex_compiles(q, true) ==> {
        &&& post == (App { status_message: post.status_message, ..pre })
        &&& post.status_message is Some
    })
}

impl App {
    /// Reports the outcome of handing a yanked selection to the
    /// clipboard: the line count on success, the failure otherwise.
    pub fn note_clipboard_result(&mut self, lines: usize, error: Option<String>)
        requires
            old(self).wf(),
        ensures
            final(self).wf(),
            *final(self) == (App { status_message: final(self).status_message, ..*old(self) }),
            error is None ==> (final(self).status_message matches Some(m) && m@ == "Yanked "@
                + crate::text::spec_decimal(lines as nat) + " lines"@),
            error is Some ==> final(self).status_message is Some,
    {
        match error {
            None => {
                let mut msg = "Yanked ".to_owned();
                crate::text::push_decimal(&mut msg, lines);
                msg.append(" lines");
                proof {
                    assert(msg@ =~= "Yanked "@ + crate::text::spec_decimal(lines as nat)
                        + " lines"@);
                }
                self.status_message = Some(msg);
            },
            Some(e) => {
                let mut msg = "Clipboard error: ".to_owned();
                msg.append(e.as_str());
                self.status_message = Some(msg);
            },
        }
    }
}

/// Builds the rotation status line.
fn buffer_status(idx: usize, n: usize, name: &String) -> (r: String)
    requires
        idx < n,
    ensures
        r@ == spec_buffer_status(idx as nat + 1, n as nat, name@),
{
    let mut s = "Buffer ".to_owned();
    crate::text::push_decimal(&mut s, idx + 1);
    s.append("/");
    crate::text::push_decimal(&mut s, n);
    s.append(": ");
    s.append(name.as_str());
    proof {
        assert(s@ =~= spec_buffer_status(idx as nat + 1, n as nat, name@));
    }
    s
}

/// Builds the filter status line.
fn filter_status(query: &str, n: usize) -> (r: String)
    ensures
        r@ == spec_filter_status(query@, n as nat),
{
    let mut s = "Filter: ".to_owned();
    s.append(query);
    s.append(" (");
    crate::text::push_decimal(&mut s, n);
    s.append(" lines)");
    proof {
        assert(s@ =~= spec_filter_status(query@, n as nat));
    }
    s
}

/// `part * 100 / whole` for `part <= whole`, which always fits a `u16`.
fn percentage_of(part: usize, whole: usize) -> (r: u16)
    requires
        0 < whole,
        part <= whole,
    ensures
        r as int == part as int * 100 / whole as int,
{
    proof {
        assert(part as int * 100 / whole as int <= 100 && part as int * 100 >= 0)
            by (nonlinear_arith)
            requires
                0 < whole,
                part <= whole,
        ;
    }
    let wide: u128 = (part as u128) * 100;
    let r = (wide / (whole as u128)) as u16;
    proof {
        assert(r as int == part as int * 100 / whole as int);
    }
    r
}


/// Every filtered index lies below the scanned line count.
pub proof fn lemma_filter_indices_bounds(q: Seq<char>, data: Seq<u8>, n: int)
    ensures
        forall|k: int|
            0 <= k < spec_filter_indices(q, data, n).len() ==> 0 <= #[trigger] spec_filter_indices(
                q,
                data,
                n,
            )[k] < n,
    decreases n,
{
    if n > 0 {
        lemma_filter_indices_bounds(q, data, n - 1);
        let prev = spec_filter_indices(q, data, n - 1);
        let cur = spec_filter_indices(q, data, n);
        assert forall|k: int| 0 <= k < cur.len() implies 0 <= #[trigger] cur[k] < n by {
            if k < prev.len() {
                assert(cur[k] == prev[k]);
            } else {
                assert(line_filter_hit(q, data, n - 1));
                assert(cur[k] == n - 1);
            }
        }
    }
}

/// The filtered line sequence is strictly increasing.
pub proof fn lemma_filter_indices_increasing(q: Seq<char>, data: Seq<u8>, n: int)
    ensures
        forall|i: int, j: int|
            0 <= i < j < spec_filter_indices(q, data, n).len() ==> #[trigger] spec_filter_indices(
                q,
                data,
                n,
            )[i] < #[trigger] spec_filter_indices(q, data, n)[j],
    decreases n,
{
    if n > 0 {
        lemma_filter_indices_increasing(q, data, n - 1);
        lemma_filter_indices_bounds(q, data, n - 1);
        let prev = spec_filter_indices(q, data, n - 1);
        let cur = spec_filter_indices(q, data, n);
        assert forall|i: int, j: int| 0 <= i < j < cur.len() implies #[trigger] cur[i]
            < #[trigger] cur[j] by {
            if j < prev.len() {
                assert(cur[i] == prev[i] && cur[j] == prev[j]);
            } else if j == prev.len() && cur.len() > prev.len() {
                assert(line_filter_hit(q, data, n - 1));
                assert(cur[j] == n - 1);
                assert(cur[i] == prev[i]);
            }
        }
    }
}

} // verus!
