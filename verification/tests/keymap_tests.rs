use pager::config::{Cli, Config, KeysConfig};
use pager::keymap::{parse_key_spec, Action, Key, KeyMap, KeyPress};

fn plain(k: Key) -> KeyPress {
    KeyPress { key: k, ctrl: false, shift: false }
}

fn ch(c: char) -> KeyPress {
    KeyPress { key: Key::Char(c), ctrl: false, shift: false }
}

#[test]
fn default_bindings_resolve() {
    let km = KeyMap::build(&KeysConfig::default());
    assert_eq!(km.get(ch('q')), Some(Action::Quit));
    assert_eq!(km.get(ch('j')), Some(Action::ScrollDown));
    assert_eq!(km.get(ch('G')), Some(Action::GotoBottom));
    assert_eq!(
        km.get(KeyPress { key: Key::Char('d'), ctrl: true, shift: false }),
        Some(Action::HalfPageDown)
    );
    assert_eq!(km.get(ch('z')), None);
}

#[test]
fn secondary_bindings_always_work() {
    let km = KeyMap::build(&KeysConfig::default());
    assert_eq!(km.get(plain(Key::Down)), Some(Action::ScrollDown));
    assert_eq!(km.get(plain(Key::PageUp)), Some(Action::FullPageUp));
    assert_eq!(km.get(plain(Key::Home)), Some(Action::GotoTop));
    assert_eq!(
        km.get(KeyPress { key: Key::Char('c'), ctrl: true, shift: false }),
        Some(Action::Quit)
    );
}

#[test]
fn override_rebinds_and_removes_old_binding() {
    let mut keys = KeysConfig::default();
    keys.quit = Some("x".to_string());
    let km = KeyMap::build(&keys);
    assert_eq!(km.get(ch('x')), Some(Action::Quit));
    assert_eq!(km.get(ch('q')), None);
}

#[test]
fn override_steals_a_taken_key() {
    let mut keys = KeysConfig::default();
    // bind quit to `j`, which scroll-down held
    keys.quit = Some("j".to_string());
    let km = KeyMap::build(&keys);
    assert_eq!(km.get(ch('j')), Some(Action::Quit));
    // the secondary arrow binding still scrolls
    assert_eq!(km.get(plain(Key::Down)), Some(Action::ScrollDown));
}

#[test]
fn malformed_override_keeps_the_default() {
    let mut keys = KeysConfig::default();
    keys.quit = Some("".to_string());
    let km = KeyMap::build(&keys);
    assert_eq!(km.get(ch('q')), Some(Action::Quit));
}

#[test]
fn key_spec_grammar() {
    assert_eq!(
        parse_key_spec("ctrl+x"),
        Some(KeyPress { key: Key::Char('x'), ctrl: true, shift: false })
    );
    assert_eq!(
        parse_key_spec("Ctrl+X"),
        Some(KeyPress { key: Key::Char('x'), ctrl: true, shift: false })
    );
    assert_eq!(parse_key_spec("space"), Some(ch(' ')));
    assert_eq!(parse_key_spec("Enter"), Some(plain(Key::Enter)));
    assert_eq!(parse_key_spec("return"), Some(plain(Key::Enter)));
    assert_eq!(parse_key_spec("PGDN"), Some(plain(Key::PageDown)));
    assert_eq!(parse_key_spec("pageup"), Some(plain(Key::PageUp)));
    assert_eq!(parse_key_spec("ESC"), Some(plain(Key::Esc)));
    assert_eq!(parse_key_spec("del"), Some(plain(Key::Delete)));
    // any other single character is literal and case-sensitive
    assert_eq!(parse_key_spec("Q"), Some(ch('Q')));
    assert_eq!(parse_key_spec(""), None);
    assert_eq!(parse_key_spec("ctrl+"), None);
}

#[test]
fn config_defaults() {
    let c = Config::default();
    assert_eq!(c.general.theme, "base16-ocean.dark");
    assert!(!c.general.line_numbers);
    assert!(!c.general.wrap);
    assert_eq!(c.general.tab_width, 4);
    assert!(c.general.mouse);
    assert!(c.general.smart_case);
    assert_eq!(c.general.mmap_threshold, 10 * 1024 * 1024);
    assert_eq!(c.colors.status_bar_fg, "#cdd6f4");
    assert!(c.keys.quit.is_none());
}

fn base_cli() -> Cli {
    Cli {
        files: vec![],
        line_numbers: false,
        follow: false,
        start_line: None,
        pattern: None,
        wrap: false,
        theme: "base16-ocean.dark".to_string(),
        no_syntax: false,
        plain: false,
        tab_width: 4,
        diff: None,
    }
}

#[test]
fn merge_cli_set_flags_win() {
    let mut c = Config::default();
    let mut cli = base_cli();
    cli.line_numbers = true;
    cli.wrap = true;
    cli.tab_width = 8;
    cli.theme = "Nord".to_string();
    c.merge_cli(&cli);
    assert!(c.general.line_numbers);
    assert!(c.general.wrap);
    assert_eq!(c.general.tab_width, 8);
    assert_eq!(c.general.theme, "Nord");
}

#[test]
fn merge_cli_defaults_leave_config() {
    let mut c = Config::default();
    c.general.tab_width = 2;
    c.general.theme = "Dracula".to_string();
    c.general.line_numbers = true;
    let cli = base_cli();
    c.merge_cli(&cli);
    assert_eq!(c.general.tab_width, 2);
    assert_eq!(c.general.theme, "Dracula");
    assert!(c.general.line_numbers);
}

#[test]
fn merge_cli_plain_wins_over_line_numbers() {
    let mut c = Config::default();
    let mut cli = base_cli();
    cli.line_numbers = true;
    cli.plain = true;
    c.merge_cli(&cli);
    assert!(!c.general.line_numbers);
}
