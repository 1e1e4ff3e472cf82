//! Input handling: one event at a time is resolved against the current
//! mode and mutates the application state.  Work the library cannot do
//! itself (spawning a background scan, writing the clipboard) is handed
//! back as an effect.

use vstd::prelude::*;
use vstd::string::StrSliceExecFns;
use crate::app_core::{App, Mode, spec_total_lines, spec_max_top, begin_search_post};
use crate::keymap::{Action, Key, KeyPress, assoc};
use crate::search::SearchState;
use crate::pattern::Pattern;
use crate::config::clone_string;
use crate::text::{spec_trim, spec_parse_usize};

verus! {

/// One event from the terminal, as plain values.
pub enum InputEvent {
    Key(KeyPress),
    MouseScrollDown,
    MouseScrollUp,
    Resize { width: u16, height: u16 },
}

/// Work handed back to the caller: what the library decides but cannot
/// perform itself.
pub enum Effect {
    /// Run a background scan of the snapshot with the compiled pattern
    /// and feed the batches back.
    StartSearch { pattern: Pattern, snapshot: Vec<String> },
    /// Put the text on the clipboard and report the outcome back.
    Copy { text: String, lines: usize },
}

/// The action a key press resolves to under the dispatch table.
pub open spec fn spec_resolve(a: &App, k: KeyPress) -> Option<Action> {
    match assoc(a.key_map.spec_primary(), k) {
        Some(act) => Some(act),
        None => assoc(a.key_map.spec_secondary(), k),
    }
}

/// A search effect's payload, when the effect starts a search.
pub open spec fn as_search_fx(fx: Option<Effect>) -> Option<(Pattern, Vec<String>)> {
    match fx {
        Some(Effect::StartSearch { pattern, snapshot }) => Some((pattern, snapshot)),
        _ => None,
    }
}

/// Scrolling down `n`, clamped: what it leaves of the viewport.
pub open spec fn scroll_down_post(pre: App, post: App, n: int) -> bool {
    &&& post == (App { top_line: post.top_line, top_filter_idx: post.top_filter_idx, ..pre })
    &&& match pre.filter {
        Some((q, idx)) => {
            let max = spec_max_top(idx@.len() as int, pre.content_height as int);
            &&& post.top_line == pre.top_line
            &&& post.top_filter_idx as int == if pre.top_filter_idx + n <= max {
                pre.top_filter_idx + n
            } else {
                max
            }
        },
        None => {
            let max = spec_max_top(spec_total_lines(&pre), pre.content_height as int);
            &&& post.top_filter_idx == pre.top_filter_idx
            &&& post.top_line as int == if pre.top_line + n <= max {
                pre.top_line + n
            } else {
                max
            }
        },
    }
}

/// Scrolling up `n`, clamped at the top: what it leaves of the viewport.
pub open spec fn scroll_up_post(pre: App, post: App, n: int) -> bool {
    &&& post == (App { top_line: post.top_line, top_filter_idx: post.top_filter_idx, ..pre })
    &&& match pre.filter {
        Some((q, idx)) => {
            &&& post.top_line == pre.top_line
            &&& post.top_filter_idx as int == if pre.top_filter_idx >= n {
                pre.top_filter_idx - n
            } else {
                0int
            }
        },
        None => {
            &&& post.top_filter_idx == pre.top_filter_idx
            &&& post.top_line as int == if pre.top_line >= n {
                pre.top_line - n
            } else {
                0int
            }
        },
    }
}

/// Centering `line`: the top the jump leaves behind.
pub open spec fn centered_top(pre: App, line: int) -> int {
    let target = if line >= pre.content_height / 2 {
        line - pre.content_height / 2
    } else {
        0int
    };
    let max = spec_max_top(spec_total_lines(&pre), pre.content_height as int);
    if target <= max {
        target
    } else {
        max
    }
}

/// Jumping to the bottom: what it leaves of the viewport.
pub open spec fn goto_bottom_post(pre: App, post: App) -> bool {
    &&& post == (App { top_line: post.top_line, top_filter_idx: post.top_filter_idx, ..pre })
    &&& post.top_line as int == spec_max_top(spec_total_lines(&pre), pre.content_height as int)
    &&& post.top_filter_idx as int == match pre.filter {
        Some((q, idx)) => spec_max_top(idx@.len() as int, pre.content_height as int),
        None => pre.top_filter_idx as int,
    }
}

/// Rotating to the next buffer: what it leaves behind.
pub open spec fn next_buffer_post(pre: App, post: App) -> bool {
    if pre.buffers@.len() <= 1 {
        post == pre
    } else {
        &&& post == (App {
            active_buffer: post.active_buffer,
            top_line: 0,
            left_col: 0,
            filter: None,
            top_filter_idx: 0,
            status_message: post.status_message,
            ..pre
        })
        &&& post.active_buffer as int == if pre.active_buffer + 1 < pre.buffers@.len() {
            pre.active_buffer + 1
        } else {
            0int
        }
        &&& post.status_message is Some
    }
}

/// Rotating to the previous buffer: what it leaves behind.
pub open spec fn prev_buffer_post(pre: App, post: App) -> bool {
    if pre.buffers@.len() <= 1 {
        post == pre
    } else {
        &&& post == (App {
            active_buffer: post.active_buffer,
            top_line: 0,
            left_col: 0,
            filter: None,
            top_filter_idx: 0,
            status_message: post.status_message,
            ..pre
        })
        &&& post.active_buffer as int == if pre.active_buffer == 0 {
            pre.buffers@.len() - 1
        } else {
            pre.active_buffer - 1
        }
        &&& post.status_message is Some
    }
}

/// Stepping the match cursor and centering the viewport on the match
/// under it, as the next-match and previous-match actions do.
pub open spec fn match_step_post(pre: App, post: App, advance: bool) -> bool {
    let len = pre.search.matches@.len() as int;
    &&& post == (App {
        search: post.search,
        top_line: post.top_line,
        status_message: post.status_message,
        ..pre
    })
    &&& post.search == (SearchState { current: post.search.current, ..pre.search })
    &&& (len == 0 ==> post.search.current == pre.search.current)
    &&& (len > 0 ==> post.search.current as int == if advance {
        if pre.search.current >= len - 1 {
            0int
        } else {
            pre.search.current + 1
        }
    } else {
        if pre.search.current == 0 {
            len - 1
        } else {
            pre.search.current - 1
        }
    })
    &&& ((post.search.current as int) < len ==> post.top_line as int == centered_top(
        pre,
        pre.search.matches@[post.search.current as int].line as int,
    ) && post.status_message is Some)
    &&& ((post.search.current as int) >= len ==> post.top_line == pre.top_line
        && post.status_message == pre.status_message)
}

/// What one key press in normal mode leaves behind.
pub open spec fn normal_key_post(pre: App, post: App, key: KeyPress) -> bool {
    match pre.pending_key {
        Some(pk) => match key.key {
            Key::Char(c) => {
                if pk == 'm' {
                    &&& post == (App {
                        pending_key: None,
                        marks: post.marks,
                        status_message: post.status_message,
                        ..pre
                    })
                    &&& post.marks@ == pre.marks@.insert(c, pre.top_line)
                    &&& post.status_message is Some
                } else if pk == '\'' {
                    if pre.marks@.contains_key(c) {
                        &&& post == (App {
                            pending_key: None,
                            top_line: post.top_line,
                            status_message: post.status_message,
                            ..pre
                        })
                        &&& post.top_line as int == {
                            let max = spec_max_top(
                                spec_total_lines(&pre),
                                pre.content_height as int,
                            );
                            if pre.marks@[c] <= max {
                                pre.marks@[c] as int
                            } else {
                                max
                            }
                        }
                        &&& post.status_message is Some
                    } else {
                        &&& post == (App {
                            pending_key: None,
                            status_message: post.status_message,
                            ..pre
                        })
                        &&& post.status_message is Some
                    }
                } else {
                    post == (App { pending_key: None, ..pre })
                }
            },
            _ => post == (App { pending_key: None, ..pre }),
        },
        None => match spec_resolve(&pre, key) {
            None => post == pre,
            Some(act) => match act {
                Action::Quit => post == (App { quit: true, ..pre }),
                Action::ScrollDown => scroll_down_post(pre, post, 1),
                Action::ScrollUp => scroll_up_post(pre, post, 1),
                Action::HalfPageDown => scroll_down_post(pre, post, pre.content_height as int / 2),
                Action::HalfPageUp => scroll_up_post(pre, post, pre.content_height as int / 2),
                Action::FullPageDown => scroll_down_post(pre, post, pre.content_height as int),
                Action::FullPageUp => scroll_up_post(pre, post, pre.content_height as int),
                Action::GotoTop => post == (App { top_line: 0, top_filter_idx: 0, ..pre }),
                Action::GotoBottom => goto_bottom_post(pre, post),
                Action::PrevBuffer => prev_buffer_post(pre, post),
                Action::NextBuffer => next_buffer_post(pre, post),
                Action::SearchForward => post == (App { mode: post.mode, ..pre })
                    && (post.mode matches Mode::SearchInput { input, forward } && input@
                    == Seq::<char>::empty() && forward),
                Action::SearchBackward => post == (App { mode: post.mode, ..pre })
                    && (post.mode matches Mode::SearchInput { input, forward } && input@
                    == Seq::<char>::empty() && !forward),
                Action::NextMatch => if pre.search.pattern is Some {
                    match_step_post(pre, post, pre.search.forward)
                } else {
                    post == pre
                },
                Action::PrevMatch => if pre.search.pattern is Some {
                    match_step_post(pre, post, !pre.search.forward)
                } else {
                    post == pre
                },
                Action::ToggleNumbers => post == (App {
                    show_line_numbers: !pre.show_line_numbers,
                    ..pre
                }),
                Action::ToggleWrap => post == (App { wrap_lines: !pre.wrap_lines, ..pre }),
                Action::FollowMode => {
                    &&& post == (App {
                        mode: Mode::Follow,
                        top_line: post.top_line,
                        top_filter_idx: post.top_filter_idx,
                        status_message: post.status_message,
                        ..pre
                    })
                    &&& goto_bottom_post(
                        (App { mode: Mode::Follow, status_message: post.status_message, ..pre }),
                        post,
                    )
                    &&& post.status_message is Some
                },
                Action::EnterCommand => post == (App { mode: post.mode, ..pre }) && (
                post.mode matches Mode::CommandInput { input } && input@ == Seq::<char>::empty()),
                Action::Filter => post == (App { mode: post.mode, ..pre }) && (
                post.mode matches Mode::FilterInput { input } && input@ == Seq::<char>::empty()),
                Action::Visual => post == (App {
                    mode: Mode::Visual { anchor: pre.top_line, cursor: pre.top_line },
                    ..pre
                }),
                Action::SetMark => post == (App {
                    pending_key: Some('m'),
                    status_message: post.status_message,
                    ..pre
                }) && post.status_message is Some,
                Action::JumpMark => post == (App {
                    pending_key: Some('\''),
                    status_message: post.status_message,
                    ..pre
                }) && post.status_message is Some,
                Action::ScrollRight => post == (App { left_col: post.left_col, ..pre })
                    && post.left_col as int == if pre.left_col + 4 <= usize::MAX {
                    pre.left_col + 4
                } else {
                    usize::MAX as int
                },
                Action::ScrollLeft => post == (App { left_col: post.left_col, ..pre })
                    && post.left_col as int == if pre.left_col >= 4 {
                    pre.left_col - 4
                } else {
                    0int
                },
            },
        },
    }
}

/// Handles one key press in normal mode.
pub fn handle_normal_key(app: &mut App, key: KeyPress)
    requires
        old(app).wf(),
    ensures
        final(app).wf(),
        normal_key_post(*old(app), *final(app), key),
{
    let pending = app.pending_key;
    match pending {
        Some(pk) => {
            app.pending_key = None;
            if let Key::Char(c) = key.key {
                if pk == 'm' {
                    let top = app.top_line;
                    app.marks.set(c, top);
                    let mut msg = "Mark '".to_owned();
                    crate::text::string_push(&mut msg, c);
                    msg.append("' set");
                    app.status_message = Some(msg);
                } else if pk == '\'' {
                    match app.marks.get(c) {
                        Some(line) => {
                            let max = app.max_top_line();
                            app.top_line = if line <= max {
                                line
                            } else {
                                max
                            };
                            let mut msg = "Jumped to mark '".to_owned();
                            crate::text::string_push(&mut msg, c);
                            msg.append("'");
                            app.status_message = Some(msg);
                        },
                        None => {
                            let mut msg = "No mark '".to_owned();
                            crate::text::string_push(&mut msg, c);
                            msg.append("'");
                            app.status_message = Some(msg);
                        },
                    }
                }
            }
            return ;
        },
        None => {
        },
    }
    let act = app.key_map.get(key);
    match act {
        None => {
        },
        Some(Action::Quit) => {
            app.quit = true;
        },
        Some(Action::ScrollDown) => {
            app.scroll_down(1);
        },
        Some(Action::ScrollUp) => {
            app.scroll_up(1);
        },
        Some(Action::HalfPageDown) => {
            let half = app.content_height / 2;
            app.scroll_down(half);
        },
        Some(Action::HalfPageUp) => {
            let half = app.content_height / 2;
            app.scroll_up(half);
        },
        Some(Action::FullPageDown) => {
            let h = app.content_height;
            app.scroll_down(h);
        },
        Some(Action::FullPageUp) => {
            let h = app.content_height;
            app.scroll_up(h);
        },
        Some(Action::GotoTop) => {
            app.goto_top();
        },
        Some(Action::GotoBottom) => {
            app.goto_bottom();
        },
        Some(Action::PrevBuffer) => {
            app.prev_buffer();
        },
        Some(Action::NextBuffer) => {
            app.next_buffer();
        },
        Some(Action::SearchForward) => {
            app.mode = Mode::SearchInput { input: String::new(), forward: true };
        },
        Some(Action::SearchBackward) => {
            app.mode = Mode::SearchInput { input: String::new(), forward: false };
        },
        Some(Action::NextMatch) => {
            if app.search.has_pattern() {
                if app.search.forward {
                    app.search.next_match();
                } else {
                    app.search.prev_match();
                }
                step_to_current_match(app);
            }
        },
        Some(Action::PrevMatch) => {
            if app.search.has_pattern() {
                if app.search.forward {
                    app.search.prev_match();
                } else {
                    app.search.next_match();
                }
                step_to_current_match(app);
            }
        },
        Some(Action::ToggleNumbers) => {
            app.show_line_numbers = !app.show_line_numbers;
        },
        Some(Action::ToggleWrap) => {
            app.wrap_lines = !app.wrap_lines;
        },
        Some(Action::FollowMode) => {
            app.mode = Mode::Follow;
            app.goto_bottom();
            app.status_message = Some("Follow mode - press q or Esc to exit".to_owned());
        },
        Some(Action::EnterCommand) => {
            app.mode = Mode::CommandInput { input: String::new() };
        },
        Some(Action::Filter) => {
            app.mode = Mode::FilterInput { input: String::new() };
        },
        Some(Action::Visual) => {
            let top = app.top_line;
            app.mode = Mode::Visual { anchor: top, cursor: top };
        },
        Some(Action::SetMark) => {
            app.pending_key = Some('m');
            app.status_message = Some("m - press a letter to set mark".to_owned());
        },
        Some(Action::JumpMark) => {
            app.pending_key = Some('\'');
            app.status_message = Some("' - press a letter to jump to mark".to_owned());
        },
        Some(Action::ScrollRight) => {
            app.left_col = if app.left_col <= usize::MAX - 4 {
                app.left_col + 4
            } else {
                usize::MAX
            };
        },
        Some(Action::ScrollLeft) => {
            app.left_col = if app.left_col >= 4 {
                app.left_col - 4
            } else {
                0
            };
        },
    }
}

/// What a keystroke while typing a search query leaves behind: the query
/// text recorded, the pattern recompiled, and the preview match set
/// replaced by a scan of the visible lines (or cleared when the query is
/// empty or malformed).
pub open spec fn preview_post(pre: App, post: App, q: Seq<char>, fwd: bool) -> bool {
    &&& post == (App {
        mode: post.mode,
        search: post.search,
        status_message: post.status_message,
        ..pre
    })
    &&& (post.mode matches Mode::SearchInput { input, forward } && input@ == q && forward == fwd)
    &&& post.search.query_string@ == q
    &&& post.status_message is Some
    &&& post.search.current == pre.search.current
    &&& post.search.forward == pre.search.forward
    &&& post.search.is_searching == pre.search.is_searching
    &&& (q.len() == 0 ==> post.search.pattern is None && post.search.matches@ == Seq::<
        crate::search::LineMatch,
    >::empty() && post.search.preview_matches@ == Seq::<crate::search::LineMatch>::empty())
    &&& (q.len() > 0 && crate::pattern::regex_compiles(
        q,
        crate::search::effective_ci(pre.config.general.smart_case, q),
    ) ==> {
        let data = pre.buffers@[pre.active_buffer as int].content@;
        let count = crate::lines::line_starts(data).len() as int;
        let from = pre.top_line as int;
        let to0 = pre.top_line + pre.content_height;
        let to = if to0 <= count {
            to0
        } else {
            count
        };
        &&& (post.search.pattern matches Some(p) && p.spec_query() == q && p.ci()
            == crate::search::effective_ci(pre.config.general.smart_case, q))
        &&& post.search.matches == pre.search.matches
        &&& crate::search::match_views(post.search.preview_matches@) == if from <= to {
            crate::search::scan_matches(
                q,
                crate::search::effective_ci(pre.config.general.smart_case, q),
                data,
                from,
                to,
            )
        } else {
            Seq::<(int, int, int)>::empty()
        }
    })
    &&& (q.len() > 0 && !crate::pattern::regex_compiles(
        q,
        crate::search::effective_ci(pre.config.general.smart_case, q),
    ) ==> post.search.pattern
        == pre.search.pattern && post.search.matches == pre.search.matches
        && post.search.preview_matches@ == Seq::<crate::search::LineMatch>::empty())
}

/// What one key press while typing a search query leaves behind.
pub open spec fn search_key_post(pre: App, post: App, fx: Option<Effect>, key: KeyPress) -> bool {
    match pre.mode {
        Mode::SearchInput { input, forward } => match key.key {
            Key::Enter => {
                &&& post.mode is Normal
                &&& (fx matches Some(e) ==> e is StartSearch)
                &&& begin_search_post(
                    (App {
                        mode: Mode::Normal,
                        search: (SearchState {
                            forward,
                            query_string: input,
                            ..pre.search
                        }),
                        ..pre
                    }),
                    post,
                    as_search_fx(fx),
                )
            },
            Key::Esc => {
                &&& fx is None
                &&& post == (App {
                    mode: Mode::Normal,
                    search: post.search,
                    status_message: None,
                    ..pre
                })
                &&& post.search == (SearchState {
                    preview_matches: post.search.preview_matches,
                    ..pre.search
                })
                &&& post.search.preview_matches@ == Seq::<crate::search::LineMatch>::empty()
            },
            Key::Backspace => fx is None && preview_post(
                pre,
                post,
                if input@.len() > 0 {
                    input@.drop_last()
                } else {
                    input@
                },
                forward,
            ),
            Key::Char(c) => fx is None && preview_post(pre, post, input@.push(c), forward),
            _ => fx is None && post == pre,
        },
        _ => fx is None && post == pre,
    }
}

/// Handles one key press while a search query is being typed.
pub fn handle_search_key(app: &mut App, key: KeyPress) -> (fx: Option<Effect>)
    requires
        old(app).wf(),
    ensures
        final(app).wf(),
        search_key_post(*old(app), *final(app), fx, key),
{
    let (input, forward) = match &app.mode {
        Mode::SearchInput { input, forward } => (clone_string(input), *forward),
        _ => {
            return None;
        },
    };
    match key.key {
        Key::Enter => {
            app.search.forward = forward;
            app.search.query_string = input;
            app.mode = Mode::Normal;
            match app.begin_search() {
                Some((pattern, snapshot)) => Some(Effect::StartSearch { pattern, snapshot }),
                None => None,
            }
        },
        Key::Esc => {
            app.search.preview_matches = Vec::new();
            app.mode = Mode::Normal;
            app.status_message = None;
            None
        },
        Key::Backspace => {
            let mut new_input = input;
            crate::text::string_pop(&mut new_input);
            refresh_preview(app, new_input, forward);
            None
        },
        Key::Char(c) => {
            let mut new_input = input;
            crate::text::string_push(&mut new_input, c);
            refresh_preview(app, new_input, forward);
            None
        },
        _ => None,
    }
}

/// Records the edited query, recompiles it, and refreshes the preview
/// match set over the visible lines.
fn refresh_preview(app: &mut App, new_input: String, forward: bool)
    requires
        old(app).wf(),
    ensures
        final(app).wf(),
        preview_post(*old(app), *final(app), new_input@, forward),
{
    let mut msg = if forward {
        "/".to_owned()
    } else {
        "?".to_owned()
    };
    msg.append(new_input.as_str());
    app.status_message = Some(msg);
    let smart = app.config.general.smart_case;
    let compiled = app.search.set_pattern(new_input.as_str(), smart);
    app.mode = Mode::SearchInput { input: new_input, forward };
    match compiled {
        Ok(()) => {
            let start = app.top_line;
            let end = if app.content_height <= usize::MAX - app.top_line {
                app.top_line + app.content_height
            } else {
                usize::MAX
            };
            let idx = app.active_buffer;
            let count = app.buffers[idx].line_count();
            proof {
                if start as int + app.content_height as int > usize::MAX as int {
                    assert(count <= usize::MAX);
                }
            }
            let b = &app.buffers[idx];
            app.search.search_visible_lines(b, start, end);
        },
        Err(_) => {
            app.search.preview_matches = Vec::new();
        },
    }
}

/// What one key press while typing a command leaves behind.
pub open spec fn command_key_post(pre: App, post: App, key: KeyPress) -> bool {
    match pre.mode {
        Mode::CommandInput { input } => match key.key {
            Key::Enter => {
                let cmd = spec_trim(input@);
                let mid = (App { mode: Mode::Normal, ..pre });
                if cmd == "q"@ || cmd == "quit"@ {
                    post == (App { mode: Mode::Normal, quit: true, ..pre })
                } else if cmd == "n"@ || cmd == "next"@ {
                    next_buffer_post(mid, post)
                } else if cmd == "p"@ || cmd == "prev"@ {
                    prev_buffer_post(mid, post)
                } else if spec_parse_usize(cmd) is Some {
                    let v = spec_parse_usize(cmd)->Some_0;
                    &&& post == (App { mode: Mode::Normal, top_line: post.top_line, ..pre })
                    &&& post.top_line as int == centered_top(
                        pre,
                        if v >= 1 {
                            v - 1
                        } else {
                            0int
                        },
                    )
                } else {
                    &&& post == (App {
                        mode: Mode::Normal,
                        status_message: post.status_message,
                        ..pre
                    })
                    &&& post.status_message is Some
                }
            },
            Key::Esc => post == (App { mode: Mode::Normal, status_message: None, ..pre }),
            Key::Backspace => {
                &&& post == (App {
                    mode: post.mode,
                    status_message: post.status_message,
                    ..pre
                })
                &&& (post.mode matches Mode::CommandInput { input: i2 } && i2@ == if input@.len()
                    > 0 {
                    input@.drop_last()
                } else {
                    input@
                })
                &&& post.status_message is Some
            },
            Key::Char(c) => {
                &&& post == (App {
                    mode: post.mode,
                    status_message: post.status_message,
                    ..pre
                })
                &&& (post.mode matches Mode::CommandInput { input: i2 } && i2@ == input@.push(c))
                &&& post.status_message is Some
            },
            _ => post == pre,
        },
        _ => post == pre,
    }
}

/// Handles one key press while a command is being typed.
pub fn handle_command_key(app: &mut App, key: KeyPress)
    requires
        old(app).wf(),
    ensures
        final(app).wf(),
        command_key_post(*old(app), *final(app), key),
{
    let input = match &app.mode {
        Mode::CommandInput { input } => clone_string(input),
        _ => {
            return ;
        },
    };
    match key.key {
        Key::Enter => {
            app.mode = Mode::Normal;
            execute_command(app, input.as_str());
        },
        Key::Esc => {
            app.mode = Mode::Normal;
            app.status_message = None;
        },
        Key::Backspace => {
            let mut new_input = input;
            crate::text::string_pop(&mut new_input);
            let mut msg = ":".to_owned();
            msg.append(new_input.as_str());
            app.status_message = Some(msg);
            app.mode = Mode::CommandInput { input: new_input };
        },
        Key::Char(c) => {
            let mut new_input = input;
            crate::text::string_push(&mut new_input, c);
            let mut msg = ":".to_owned();
            msg.append(new_input.as_str());
            app.status_message = Some(msg);
            app.mode = Mode::CommandInput { input: new_input };
        },
        _ => {
        },
    }
}

/// Runs one committed command: quit, buffer rotation, or a jump to an
/// absolute line number; anything else reports an unknown command.
fn execute_command(app: &mut App, cmd: &str)
    requires
        old(app).wf(),
    ensures
        final(app).wf(),
        ({
            let c = spec_trim(cmd@);
            if c == "q"@ || c == "quit"@ {
                *final(app) == (App { quit: true, ..*old(app) })
            } else if c == "n"@ || c == "next"@ {
                next_buffer_post(*old(app), *final(app))
            } else if c == "p"@ || c == "prev"@ {
                prev_buffer_post(*old(app), *final(app))
            } else if spec_parse_usize(c) is Some {
                let v = spec_parse_usize(c)->Some_0;
                &&& *final(app) == (App { top_line: final(app).top_line, ..*old(app) })
                &&& final(app).top_line as int == centered_top(
                    *old(app),
                    if v >= 1 {
                        v - 1
                    } else {
                        0int
                    },
                )
            } else {
                &&& *final(app) == (App {
                    status_message: final(app).status_message,
                    ..*old(app)
                })
                &&& final(app).status_message is Some
            }
        }),
{
    let trimmed = crate::text::trim_spaces(cmd);
    let t = trimmed.as_str();
    if crate::text::str_eq(t, "q") || crate::text::str_eq(t, "quit") {
        app.quit = true;
    } else if crate::text::str_eq(t, "n") || crate::text::str_eq(t, "next") {
        app.next_buffer();
    } else if crate::text::str_eq(t, "p") || crate::text::str_eq(t, "prev") {
        app.prev_buffer();
    } else {
        match crate::text::parse_usize(t) {
            Some(v) => {
                app.goto_line(if v > 0 {
                    v - 1
                } else {
                    0
                });
            },
            None => {
                let mut msg = "Unknown command: ".to_owned();
                msg.append(t);
                app.status_message = Some(msg);
            },
        }
    }
}

/// What one key press in follow mode leaves behind.
pub open spec fn follow_key_post(pre: App, post: App, key: KeyPress) -> bool {
    match key.key {
        Key::Char(c) => if c == 'q' {
            post == (App { mode: Mode::Normal, status_message: None, ..pre })
        } else if c == 'c' && key.ctrl {
            post == (App { quit: true, ..pre })
        } else {
            post == pre
        },
        Key::Esc => post == (App { mode: Mode::Normal, status_message: None, ..pre }),
        _ => post == pre,
    }
}

/// Handles one key press in follow mode.
pub fn handle_follow_key(app: &mut App, key: KeyPress)
    requires
        old(app).wf(),
    ensures
        final(app).wf(),
        follow_key_post(*old(app), *final(app), key),
{
    match key.key {
        Key::Char(c) => {
            if c == 'q' {
                app.mode = Mode::Normal;
                app.status_message = None;
            } else if c == 'c' && key.ctrl {
                app.quit = true;
            }
        },
        Key::Esc => {
            app.mode = Mode::Normal;
            app.status_message = None;
        },
        _ => {
        },
    }
}

/// What one key press while typing a filter query leaves behind.
pub open spec fn filter_key_post(pre: App, post: App, key: KeyPress) -> bool {
    match pre.mode {
        Mode::FilterInput { input } => match key.key {
            Key::Enter => crate::app_core::apply_filter_post(
                (App { mode: Mode::Normal, ..pre }),
                post,
                input@,
            ) && post.mode is Normal,
            Key::Esc => post == (App {
                mode: Mode::Normal,
                filter: None,
                top_filter_idx: 0,
                status_message: None,
                ..pre
            }),
            Key::Backspace => {
                &&& post == (App {
                    mode: post.mode,
                    status_message: post.status_message,
                    ..pre
                })
                &&& (post.mode matches Mode::FilterInput { input: i2 } && i2@ == if input@.len()
                    > 0 {
                    input@.drop_last()
                } else {
                    input@
                })
                &&& post.status_message is Some
            },
            Key::Char(c) => {
                &&& post == (App {
                    mode: post.mode,
                    status_message: post.status_message,
                    ..pre
                })
                &&& (post.mode matches Mode::FilterInput { input: i2 } && i2@ == input@.push(c))
                &&& post.status_message is Some
            },
            _ => post == pre,
        },
        _ => post == pre,
    }
}

/// Handles one key press while a filter query is being typed.
pub fn handle_filter_key(app: &mut App, key: KeyPress)
    requires
        old(app).wf(),
    ensures
        final(app).wf(),
        filter_key_post(*old(app), *final(app), key),
{
    let input = match &app.mode {
        Mode::FilterInput { input } => clone_string(input),
        _ => {
            return ;
        },
    };
    match key.key {
        Key::Enter => {
            app.mode = Mode::Normal;
            app.apply_filter(input.as_str());
        },
        Key::Esc => {
            app.mode = Mode::Normal;
            app.clear_filter();
            app.status_message = None;
        },
        Key::Backspace => {
            let mut new_input = input;
            crate::text::string_pop(&mut new_input);
            let mut msg = "&".to_owned();
            msg.append(new_input.as_str());
            app.status_message = Some(msg);
            app.mode = Mode::FilterInput { input: new_input };
        },
        Key::Char(c) => {
            let mut new_input = input;
            crate::text::string_push(&mut new_input, c);
            let mut msg = "&".to_owned();
            msg.append(new_input.as_str());
            app.status_message = Some(msg);
            app.mode = Mode::FilterInput { input: new_input };
        },
        _ => {
        },
    }
}

/// What one key press in visual selection mode leaves behind.
pub open spec fn visual_key_post(pre: App, post: App, fx: Option<Effect>, key: KeyPress) -> bool {
    match pre.mode {
        Mode::Visual { anchor, cursor } => {
            match key.key {
                Key::Char(c) => if c == 'j' {
                    fx is None && visual_move_post(pre, post, anchor, cursor, true)
                } else if c == 'k' {
                    fx is None && visual_move_post(pre, post, anchor, cursor, false)
                } else if c == 'y' {
                    let lo = if anchor <= cursor {
                        anchor
                    } else {
                        cursor
                    };
                    let hi0 = if anchor <= cursor {
                        cursor
                    } else {
                        anchor
                    };
                    let hi = if hi0 < usize::MAX {
                        hi0
                    } else {
                        (usize::MAX - 1) as usize
                    };
                    let lo2 = if lo <= hi {
                        lo as int
                    } else {
                        hi as int
                    };
                    &&& post == (App { mode: Mode::Normal, ..pre })
                    &&& (fx matches Some(Effect::Copy { text, lines }) && text@
                        == crate::app_core::join_with(
                        crate::app_core::present_lines(
                            pre.buffers@[pre.active_buffer as int].content@,
                            lo2,
                            hi as int,
                        ),
                        '\n',
                    ) && lines as int == hi - lo2 + 1)
                } else if c == 'q' {
                    fx is None && post == (App { mode: Mode::Normal, ..pre })
                } else {
                    fx is None && post == pre
                },
                Key::Down => fx is None && visual_move_post(pre, post, anchor, cursor, true),
                Key::Up => fx is None && visual_move_post(pre, post, anchor, cursor, false),
                Key::Esc => fx is None && post == (App { mode: Mode::Normal, ..pre }),
                _ => fx is None && post == pre,
            }
        },
        _ => fx is None && post == pre,
    }
}

/// Moving the visual cursor one line: the cursor is clamped to the
/// content and the viewport scrolls to keep it visible.
pub open spec fn visual_move_post(pre: App, post: App, anchor: usize, cursor: usize, down: bool) -> bool {
    let total = spec_total_lines(&pre);
    let last = if total >= 1 {
        total - 1
    } else {
        0int
    };
    let nc = if down {
        if cursor as int + 1 <= last {
            cursor as int + 1
        } else {
            last
        }
    } else {
        if cursor >= 1 {
            cursor as int - 1
        } else {
            0int
        }
    };
    let nc2 = if down && (cursor as int) > last {
        cursor as int
    } else {
        nc
    };
    &&& (post.mode matches Mode::Visual { anchor: a2, cursor: c2 } && a2 == anchor && c2 as int
        == nc2)
    &&& if down && nc2 >= pre.top_line + pre.content_height {
        scroll_down_post((App { mode: post.mode, ..pre }), post, 1)
    } else if !down && nc2 < pre.top_line as int {
        scroll_up_post((App { mode: post.mode, ..pre }), post, 1)
    } else {
        post == (App { mode: post.mode, ..pre })
    }
}

/// Handles one key press in visual selection mode; a yank hands the
/// selected text back as an effect.
pub fn handle_visual_key(app: &mut App, key: KeyPress) -> (fx: Option<Effect>)
    requires
        old(app).wf(),
    ensures
        final(app).wf(),
        visual_key_post(*old(app), *final(app), fx, key),
{
    let (anchor, cursor) = match &app.mode {
        Mode::Visual { anchor, cursor } => (*anchor, *cursor),
        _ => {
            return None;
        },
    };
    let total = app.total_lines();
    let last = if total >= 1 {
        total - 1
    } else {
        0
    };
    let down = match key.key {
        Key::Char(c) => c == 'j',
        Key::Down => true,
        _ => false,
    };
    let up = match key.key {
        Key::Char(c) => c == 'k',
        Key::Up => true,
        _ => false,
    };
    if down {
        let nc = if cursor < last {
            cursor + 1
        } else if cursor > last {
            cursor
        } else {
            last
        };
        app.mode = Mode::Visual { anchor, cursor: nc };
        let over = app.content_height <= usize::MAX - app.top_line && nc >= app.top_line
            + app.content_height;
        if over {
            app.scroll_down(1);
        }
        proof {
            if !(nc as int >= old(app).top_line as int + old(app).content_height as int) {
                assert(*app == (App { mode: app.mode, ..*old(app) }));
            }
        }
        return None;
    }
    if up {
        let nc = if cursor >= 1 {
            cursor - 1
        } else {
            0
        };
        app.mode = Mode::Visual { anchor, cursor: nc };
        if nc < app.top_line {
            app.scroll_up(1);
        }
        return None;
    }
    match key.key {
        Key::Char(c) => {
            if c == 'y' {
                let lo = if anchor <= cursor {
                    anchor
                } else {
                    cursor
                };
                let hi0 = if anchor <= cursor {
                    cursor
                } else {
                    anchor
                };
                let hi = if hi0 < usize::MAX {
                    hi0
                } else {
                    usize::MAX - 1
                };
                let lo2 = if lo <= hi {
                    lo
                } else {
                    hi
                };
                let text = app.selection_text(lo2, hi);
                let lines = hi - lo2 + 1;
                app.mode = Mode::Normal;
                Some(Effect::Copy { text, lines })
            } else if c == 'q' {
                app.mode = Mode::Normal;
                None
            } else {
                None
            }
        },
        Key::Esc => {
            app.mode = Mode::Normal;
            None
        },
        _ => None,
    }
}

/// What handling one event leaves behind, by the mode it arrived in.
pub open spec fn handle_event_post(pre: App, post: App, fx: Option<Effect>, ev: InputEvent) -> bool {
    match ev {
        InputEvent::Key(key) => match pre.mode {
            Mode::Normal => fx is None && normal_key_post(pre, post, key),
            Mode::SearchInput { .. } => search_key_post(pre, post, fx, key),
            Mode::CommandInput { .. } => fx is None && command_key_post(pre, post, key),
            Mode::Follow => fx is None && follow_key_post(pre, post, key),
            Mode::FilterInput { .. } => fx is None && filter_key_post(pre, post, key),
            Mode::Visual { .. } => visual_key_post(pre, post, fx, key),
        },
        InputEvent::MouseScrollDown => fx is None && scroll_down_post(pre, post, 3),
        InputEvent::MouseScrollUp => fx is None && scroll_up_post(pre, post, 3),
        InputEvent::Resize { width, height } => {
            let tab = if pre.buffers@.len() > 1 {
                1int
            } else {
                0int
            };
            &&& fx is None
            &&& post == (App {
                content_width: post.content_width,
                content_height: post.content_height,
                ..pre
            })
            &&& post.content_width == width as usize
            &&& post.content_height as int == if height as int >= 2 + tab {
                height as int - 2 - tab
            } else {
                0int
            }
        },
    }
}

/// Processes one terminal event against the current mode.
pub fn handle_event(app: &mut App, ev: InputEvent) -> (fx: Option<Effect>)
    requires
        old(app).wf(),
    ensures
        final(app).wf(),
        handle_event_post(*old(app), *final(app), fx, ev),
{
    match ev {
        InputEvent::Key(key) => {
            let is_normal = match &app.mode {
                Mode::Normal => true,
                _ => false,
            };
            if is_normal {
                handle_normal_key(app, key);
                return None;
            }
            match &app.mode {
                Mode::SearchInput { .. } => handle_search_key(app, key),
                Mode::CommandInput { .. } => {
                    handle_command_key(app, key);
                    None
                },
                Mode::Follow => {
                    handle_follow_key(app, key);
                    None
                },
                Mode::FilterInput { .. } => {
                    handle_filter_key(app, key);
                    None
                },
                Mode::Visual { .. } => handle_visual_key(app, key),
                Mode::Normal => None,
            }
        },
        InputEvent::MouseScrollDown => {
            app.scroll_down(3);
            None
        },
        InputEvent::MouseScrollUp => {
            app.scroll_up(3);
            None
        },
        InputEvent::Resize { width, height } => {
            let tab: usize = if app.has_tab_bar() {
                1
            } else {
                0
            };
            app.content_width = width as usize;
            let h = height as usize;
            app.content_height = if h >= 2 + tab {
                h - 2 - tab
            } else {
                0
            };
            None
        },
    }
}

/// Centers the viewport on the match under the cursor and reports the
/// cursor's position; out of range, nothing moves.
fn step_to_current_match(app: &mut App)
    requires
        old(app).wf(),
    ensures
        final(app).wf(),
        *final(app) == (App {
            top_line: final(app).top_line,
            status_message: final(app).status_message,
            ..*old(app)
        }),
        (old(app).search.current as int) < old(app).search.matches@.len() ==> final(app).top_line as int == centered_top(
            *old(app),
            old(app).search.matches@[old(app).search.current as int].line as int,
        ) && final(app).status_message is Some,
        (old(app).search.current as int) >= old(app).search.matches@.len() ==> *final(app) == *old(app),
{
    match app.search.current_match_line() {
        Some(line) => {
            app.goto_line(line);
            let mut msg = "Match ".to_owned();
            let cur = app.search.current;
            crate::text::push_decimal(&mut msg, if cur < usize::MAX {
                cur + 1
            } else {
                cur
            });
            msg.append("/");
            let count = app.search.match_count();
            crate::text::push_decimal(&mut msg, count);
            app.status_message = Some(msg);
        },
        None => {
        },
    }
}


/// A jump to a recorded mark restores the top line that was saved when
/// the mark was set, as long as that value is within the clamped range.
pub proof fn lemma_mark_jump_restores(pre: App, post: App, c: char, t: usize)
    requires
        pre.marks@.contains_key(c),
        pre.marks@[c] == t,
        pre.pending_key == Some('\''),
        normal_key_post(pre, post, KeyPress { key: Key::Char(c), ctrl: false, shift: false }),
        t as int <= spec_max_top(spec_total_lines(&pre), pre.content_height as int),
    ensures
        post.top_line == t,
{
}

/// With a filter whose sequence fits inside the viewport, scrolling down
/// never moves the filtered top position past 0.
pub proof fn lemma_filtered_scroll_clamped(pre: App, post: App, n: int, q: String, idx: Vec<usize>)
    requires
        pre.filter == Some((q, idx)),
        idx@.len() <= pre.content_height,
        pre.top_filter_idx == 0,
        n >= 0,
        scroll_down_post(pre, post, n),
    ensures
        post.top_filter_idx == 0,
{
}

} // verus!
