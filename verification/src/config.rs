//! Resolved configuration: plain booleans, sizes, colors, and per-action
//! key-spec overrides.  Reading a configuration file and parsing command
//! line flags happen outside the library; it receives the resolved values.

use vstd::prelude::*;

verus! {

/// General behaviour switches.
pub struct GeneralConfig {
    pub theme: String,
    pub line_numbers: bool,
    pub wrap: bool,
    pub tab_width: u8,
    pub mouse: bool,
    pub smart_case: bool,
    /// Byte threshold at or above which a file is memory-mapped.
    pub mmap_threshold: u64,
    /// Optional custom themes directory.
    pub themes_dir: Option<String>,
}

/// Status bar and highlight colors, as hex strings.
pub struct ColorConfig {
    pub status_bar_fg: String,
    pub status_bar_bg: String,
    pub search_match_fg: String,
    pub search_match_bg: String,
    pub line_number_fg: String,
}

/// Optional key-spec overrides; an unset field keeps the built-in binding.
pub struct KeysConfig {
    pub quit: Option<String>,
    pub scroll_down: Option<String>,
    pub scroll_up: Option<String>,
    pub half_page_down: Option<String>,
    pub half_page_up: Option<String>,
    pub full_page_down: Option<String>,
    pub full_page_up: Option<String>,
    pub goto_top: Option<String>,
    pub goto_bottom: Option<String>,
    pub prev_buffer: Option<String>,
    pub next_buffer: Option<String>,
    pub search_forward: Option<String>,
    pub search_backward: Option<String>,
    pub next_match: Option<String>,
    pub prev_match: Option<String>,
    pub toggle_numbers: Option<String>,
    pub toggle_wrap: Option<String>,
    pub follow_mode: Option<String>,
    pub enter_command: Option<String>,
    pub filter: Option<String>,
    pub visual: Option<String>,
    pub set_mark: Option<String>,
    pub jump_mark: Option<String>,
    pub scroll_right: Option<String>,
    pub scroll_left: Option<String>,
}

/// The whole configuration.
pub struct Config {
    pub general: GeneralConfig,
    pub colors: ColorConfig,
    pub keys: KeysConfig,
}

/// Command line flags, resolved to plain values.
pub struct Cli {
    /// Files to view; content comes from the standard input when empty.
    pub files: Vec<String>,
    pub line_numbers: bool,
    pub follow: bool,
    pub start_line: Option<usize>,
    pub pattern: Option<String>,
    pub wrap: bool,
    pub theme: String,
    pub no_syntax: bool,
    pub plain: bool,
    pub tab_width: u8,
    /// Second file of a two-file comparison.
    pub diff: Option<String>,
}

impl Default for GeneralConfig {
    /// The built-in defaults.
    fn default() -> (r: GeneralConfig)
        ensures
            r.theme@ == "base16-ocean.dark"@,
            !r.line_numbers,
            !r.wrap,
            r.tab_width == 4,
            r.mouse,
            r.smart_case,
            r.mmap_threshold == 10485760,
            r.themes_dir is None,
    {
        GeneralConfig {
            theme: "base16-ocean.dark".to_owned(),
            line_numbers: false,
            wrap: false,
            tab_width: 4,
            mouse: true,
            smart_case: true,
            mmap_threshold: 10485760,
            themes_dir: None,
        }
    }
}

impl Default for ColorConfig {
    /// The built-in defaults.
    fn default() -> (r: ColorConfig)
        ensures
            r.status_bar_fg@ == "#cdd6f4"@,
            r.status_bar_bg@ == "#1e1e2e"@,
            r.search_match_fg@ == "#1e1e2e"@,
            r.search_match_bg@ == "#f9e2af"@,
            r.line_number_fg@ == "#6c7086"@,
    {
        ColorConfig {
            status_bar_fg: "#cdd6f4".to_owned(),
            status_bar_bg: "#1e1e2e".to_owned(),
            search_match_fg: "#1e1e2e".to_owned(),
            search_match_bg: "#f9e2af".to_owned(),
            line_number_fg: "#6c7086".to_owned(),
        }
    }
}

impl Default for KeysConfig {
    /// No overrides.
    fn default() -> (r: KeysConfig)
        ensures
            r.quit is None,
            r.scroll_down is None,
            r.scroll_up is None,
            r.half_page_down is None,
            r.half_page_up is None,
            r.full_page_down is None,
            r.full_page_up is None,
            r.goto_top is None,
            r.goto_bottom is None,
            r.prev_buffer is None,
            r.next_buffer is None,
            r.search_forward is None,
            r.search_backward is None,
            r.next_match is None,
            r.prev_match is None,
            r.toggle_numbers is None,
            r.toggle_wrap is None,
            r.follow_mode is None,
            r.enter_command is None,
            r.filter is None,
            r.visual is None,
            r.set_mark is None,
            r.jump_mark is None,
            r.scroll_right is None,
            r.scroll_left is None,
    {
        KeysConfig {
            quit: None,
            scroll_down: None,
            scroll_up: None,
            half_page_down: None,
            half_page_up: None,
            full_page_down: None,
            full_page_up: None,
            goto_top: None,
            goto_bottom: None,
            prev_buffer: None,
            next_buffer: None,
            search_forward: None,
            search_backward: None,
            next_match: None,
            prev_match: None,
            toggle_numbers: None,
            toggle_wrap: None,
            follow_mode: None,
            enter_command: None,
            filter: None,
            visual: None,
            set_mark: None,
            jump_mark: None,
            scroll_right: None,
            scroll_left: None,
        }
    }
}

impl Default for Config {
    /// Every section at its built-in defaults.
    fn default() -> (r: Config)
        ensures
            r.general.theme@ == "base16-ocean.dark"@,
            !r.general.line_numbers,
            !r.general.wrap,
            r.general.tab_width == 4,
            r.general.mouse,
            r.general.smart_case,
            r.general.mmap_threshold == 10485760,
            r.general.themes_dir is None,
            r.keys.quit is None,
    {
        Config {
            general: GeneralConfig::default(),
            colors: ColorConfig::default(),
            keys: KeysConfig::default(),
        }
    }
}

impl Config {
    /// Folds command line flags over the loaded configuration: set flags
    /// win, values equal to their flag defaults leave the configuration
    /// alone.
    pub fn merge_cli(&mut self, cli: &Cli)
        ensures
            final(self).general.line_numbers == (if cli.plain {
                false
            } else if cli.line_numbers {
                true
            } else {
                old(self).general.line_numbers
            }),
            final(self).general.wrap == (cli.wrap || old(self).general.wrap),
            final(self).general.tab_width == (if cli.tab_width != 4 {
                cli.tab_width
            } else {
                old(self).general.tab_width
            }),
            final(self).general.theme@ == (if cli.theme@ != "base16-ocean.dark"@ {
                cli.theme@
            } else {
                old(self).general.theme@
            }),
            final(self).general.mouse == old(self).general.mouse,
            final(self).general.smart_case == old(self).general.smart_case,
            final(self).general.mmap_threshold == old(self).general.mmap_threshold,
            final(self).general.themes_dir == old(self).general.themes_dir,
            final(self).colors == old(self).colors,
            final(self).keys == old(self).keys,
    {
        if cli.line_numbers {
            self.general.line_numbers = true;
        }
        if cli.wrap {
            self.general.wrap = true;
        }
        if cli.plain {
            self.general.line_numbers = false;
        }
        if cli.tab_width != 4 {
            self.general.tab_width = cli.tab_width;
        }
        if !crate::text::str_eq(cli.theme.as_str(), "base16-ocean.dark") {
            self.general.theme = clone_string(&cli.theme);
        }
    }
}

/// A copy of the string with the same text.
pub fn clone_string(s: &String) -> (r: String)
    ensures
        r@ == s@,
{
    s.clone()
}

} // verus!
