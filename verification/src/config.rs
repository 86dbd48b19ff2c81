//! Configuration: the colour themes, the settings read from the TOML file,
//! and how they combine into the configuration the editor runs with.
use vstd::prelude::*;
use vstd::utf8::encode_utf8;

verus! {

/// A terminal colour: the terminal's own default, or a 24-bit colour.
#[derive(Debug, Clone, Copy, PartialEq, Eq, Structural)]
pub enum Color {
    Reset,
    Rgb(u8, u8, u8),
}

/// Chrome colours that the user can theme independently of the syntax scheme.
#[derive(Debug, Clone, Copy)]
pub struct Theme {
    pub status_bg: Color,
    pub status_fg: Color,
    pub line_num_fg: Color,
    pub line_num_bg: Color,
    pub gutter_bg: Color,
    pub cursor_line_bg: Color,
    pub selection_bg: Color,
    pub command_bg: Color,
    pub command_fg: Color,
    pub modified_fg: Color,
    pub ok_fg: Color,
    pub err_fg: Color,
    pub building_fg: Color,
    pub ghost_fg: Color,
}

pub open spec fn dark_theme() -> Theme {
    Theme {
        status_bg: Color::Rgb(30, 30, 30),
        status_fg: Color::Rgb(200, 200, 200),
        line_num_fg: Color::Rgb(100, 100, 100),
        line_num_bg: Color::Rgb(20, 20, 20),
        gutter_bg: Color::Rgb(20, 20, 20),
        cursor_line_bg: Color::Rgb(30, 30, 40),
        selection_bg: Color::Rgb(50, 60, 100),
        command_bg: Color::Rgb(20, 20, 30),
        command_fg: Color::Rgb(180, 220, 255),
        modified_fg: Color::Rgb(255, 180, 60),
        ok_fg: Color::Rgb(80, 220, 80),
        err_fg: Color::Rgb(255, 120, 80),
        building_fg: Color::Rgb(255, 200, 80),
        ghost_fg: Color::Rgb(80, 80, 100),
    }
}

pub open spec fn light_theme() -> Theme {
    Theme {
        status_bg: Color::Rgb(220, 220, 220),
        status_fg: Color::Rgb(30, 30, 30),
        line_num_fg: Color::Rgb(140, 140, 140),
        line_num_bg: Color::Rgb(240, 240, 240),
        gutter_bg: Color::Rgb(240, 240, 240),
        cursor_line_bg: Color::Rgb(230, 230, 240),
        selection_bg: Color::Rgb(180, 190, 220),
        command_bg: Color::Rgb(240, 240, 250),
        command_fg: Color::Rgb(20, 60, 120),
        modified_fg: Color::Rgb(200, 120, 0),
        ok_fg: Color::Rgb(0, 140, 0),
        err_fg: Color::Rgb(200, 40, 40),
        building_fg: Color::Rgb(180, 120, 0),
        ghost_fg: Color::Rgb(160, 160, 180),
    }
}

impl Theme {
    pub fn dark() -> (t: Self)
        ensures
            t == dark_theme(),
    {
        Theme {
            status_bg: Color::Rgb(30, 30, 30),
            status_fg: Color::Rgb(200, 200, 200),
            line_num_fg: Color::Rgb(100, 100, 100),
            line_num_bg: Color::Rgb(20, 20, 20),
            gutter_bg: Color::Rgb(20, 20, 20),
            cursor_line_bg: Color::Rgb(30, 30, 40),
            selection_bg: Color::Rgb(50, 60, 100),
            command_bg: Color::Rgb(20, 20, 30),
            command_fg: Color::Rgb(180, 220, 255),
            modified_fg: Color::Rgb(255, 180, 60),
            ok_fg: Color::Rgb(80, 220, 80),
            err_fg: Color::Rgb(255, 120, 80),
            building_fg: Color::Rgb(255, 200, 80),
            ghost_fg: Color::Rgb(80, 80, 100),
        }
    }

    pub fn light() -> (t: Self)
        ensures
            t == light_theme(),
    {
        Theme {
            status_bg: Color::Rgb(220, 220, 220),
            status_fg: Color::Rgb(30, 30, 30),
            line_num_fg: Color::Rgb(140, 140, 140),
            line_num_bg: Color::Rgb(240, 240, 240),
            gutter_bg: Color::Rgb(240, 240, 240),
            cursor_line_bg: Color::Rgb(230, 230, 240),
            selection_bg: Color::Rgb(180, 190, 220),
            command_bg: Color::Rgb(240, 240, 250),
            command_fg: Color::Rgb(20, 60, 120),
            modified_fg: Color::Rgb(200, 120, 0),
            ok_fg: Color::Rgb(0, 140, 0),
            err_fg: Color::Rgb(200, 40, 40),
            building_fg: Color::Rgb(180, 120, 0),
            ghost_fg: Color::Rgb(160, 160, 180),
        }
    }
}

/// The configuration file's contents: chrome overrides only (optional).
pub struct ConfigToml {
    pub theme: ThemeToml,
    pub editor: EditorToml,
}

/// The `[theme]` table: the base theme's name, the syntax scheme, and
/// colour overrides as `#rrggbb` texts.
pub struct ThemeToml {
    pub name: String,
    pub syntax: String,
    pub status_bg: Option<String>,
    pub status_fg: Option<String>,
    pub line_num_fg: Option<String>,
    pub line_num_bg: Option<String>,
    pub cursor_line_bg: Option<String>,
    pub selection_bg: Option<String>,
    pub command_bg: Option<String>,
    pub command_fg: Option<String>,
    pub modified_fg: Option<String>,
    pub ok_fg: Option<String>,
    pub err_fg: Option<String>,
    pub building_fg: Option<String>,
    pub ghost_fg: Option<String>,
}

/// The `[editor]` table.
pub struct EditorToml {
    pub tab_width: usize,
    /// Seconds between automatic saves; 0 turns them off.
    pub auto_save_interval: u64,
}

impl Default for ConfigToml {
    fn default() -> (c: Self)
        ensures
            c.theme.name@ == "dark"@,
            c.theme.syntax@ == "base16-ocean.dark"@,
            no_overrides(&c.theme),
            c.editor.tab_width == 4,
            c.editor.auto_save_interval == 10,
    {
        ConfigToml { theme: ThemeToml::default(), editor: EditorToml::default() }
    }
}

/// No colour of the theme is overridden.
pub open spec fn no_overrides(t: &ThemeToml) -> bool {
    &&& t.status_bg is None
    &&& t.status_fg is None
    &&& t.line_num_fg is None
    &&& t.line_num_bg is None
    &&& t.cursor_line_bg is None
    &&& t.selection_bg is None
    &&& t.command_bg is None
    &&& t.command_fg is None
    &&& t.modified_fg is None
    &&& t.ok_fg is None
    &&& t.err_fg is None
    &&& t.building_fg is None
    &&& t.ghost_fg is None
}

impl Default for ThemeToml {
    fn default() -> (t: Self)
        ensures
            t.name@ == "dark"@,
            t.syntax@ == "base16-ocean.dark"@,
            no_overrides(&t),
    {
        ThemeToml {
            name: String::from_str("dark"),
            syntax: String::from_str("base16-ocean.dark"),
            status_bg: None,
            status_fg: None,
            line_num_fg: None,
            line_num_bg: None,
            cursor_line_bg: None,
            selection_bg: None,
            command_bg: None,
            command_fg: None,
            modified_fg: None,
            ok_fg: None,
            err_fg: None,
            building_fg: None,
            ghost_fg: None,
        }
    }
}

impl Default for EditorToml {
    fn default() -> (e: Self)
        ensures
            e.tab_width == 4,
            e.auto_save_interval == 10,
    {
        EditorToml { tab_width: 4, auto_save_interval: 10 }
    }
}

/// The text of the configuration file written when there is none.
pub const DEFAULT_CONFIG: &'static str = "[theme]
name = \"dark\"
syntax = \"base16-ocean.dark\"

[editor]
tab_width = 4
auto_save_interval = 10
";

/// Validated config used by the editor at runtime.
#[derive(Debug, Clone)]
pub struct Config {
    pub theme: Theme,
    pub syntax: String,
    pub tab_width: usize,
    pub auto_save_interval: u64,
}

// ── colour texts ──────────────────────────────────────────────────────

/// `b` without its leading `#` bytes (`str::trim_start_matches('#')`).
pub open spec fn strip_hashes(b: Seq<u8>) -> Seq<u8>
    decreases b.len(),
{
    if b.len() > 0 && b[0] == 35u8 {
        strip_hashes(b.drop_first())
    } else {
        b
    }
}

/// The value of a hexadecimal digit.
pub open spec fn hex_val(c: u8) -> Option<u8> {
    if 48u8 <= c <= 57u8 {
        Some((c - 48) as u8)
    } else if 97u8 <= c <= 102u8 {
        Some((c - 87) as u8)
    } else if 65u8 <= c <= 70u8 {
        Some((c - 55) as u8)
    } else {
        None
    }
}

/// A two-byte hexadecimal number as `u8::from_str_radix(_, 16)` reads it:
/// two digits, or a `+` and one digit.
pub open spec fn hex_pair(c0: u8, c1: u8) -> Option<u8> {
    if c0 == 43u8 {
        hex_val(c1)
    } else {
        match (hex_val(c0), hex_val(c1)) {
            (Some(h), Some(l)) => Some((h * 16 + l) as u8),
            _ => None,
        }
    }
}

/// The colour a `#rrggbb` text names, if it names one: after any leading
/// `#`s, three two-digit hexadecimal numbers.
pub open spec fn spec_parse_color(s: Seq<char>) -> Option<Color> {
    let b = strip_hashes(encode_utf8(s));
    if b.len() == 6 {
        match (hex_pair(b[0], b[1]), hex_pair(b[2], b[3]), hex_pair(b[4], b[5])) {
            (Some(r), Some(g), Some(bl)) => Some(Color::Rgb(r, g, bl)),
            _ => None,
        }
    } else {
        None
    }
}

/// The text can be cut into its three two-byte pieces: each piece of a
/// six-byte text ends on a character boundary.
pub open spec fn color_text_ok(s: Seq<char>) -> bool {
    let b = strip_hashes(encode_utf8(s));
    b.len() == 6 ==> !(128u8 <= b[2] <= 191u8) && !(128u8 <= b[4] <= 191u8)
}

proof fn lemma_strip_hashes(b: Seq<u8>, i: int)
    requires
        0 <= i <= b.len(),
        forall|k: int| 0 <= k < i ==> b[k] == 35u8,
    ensures
        strip_hashes(b) == strip_hashes(b.skip(i)),
    decreases i,
{
    if i > 0 {
        assert(b.drop_first().skip(i - 1) =~= b.skip(i));
        lemma_strip_hashes(b.drop_first(), i - 1);
    } else {
        assert(b.skip(0) =~= b);
    }
}

/// The value of a hexadecimal digit.
fn hex_digit(c: u8) -> (r: Option<u8>)
    ensures
        r == hex_val(c),
{
    if 48u8 <= c && c <= 57u8 {
        Some(c - 48)
    } else if 97u8 <= c && c <= 102u8 {
        Some(c - 87)
    } else if 65u8 <= c && c <= 70u8 {
        Some(c - 55)
    } else {
        None
    }
}

/// Read a two-byte hexadecimal number (see `hex_pair`).
fn hex_byte(c0: u8, c1: u8) -> (r: Option<u8>)
    ensures
        r == hex_pair(c0, c1),
{
    if c0 == 43u8 {
        return hex_digit(c1);
    }
    match (hex_digit(c0), hex_digit(c1)) {
        (Some(h), Some(l)) => Some(h * 16 + l),
        _ => None,
    }
}

/// The bytes of `s` after its leading `#`s: their start.
fn hashes_end(s: &str) -> (i: usize)
    ensures
        i <= encode_utf8(s@).len(),
        strip_hashes(encode_utf8(s@)) == encode_utf8(s@).skip(i as int),
        i < encode_utf8(s@).len() ==> encode_utf8(s@)[i as int] != 35u8,
{
    let bytes = s.as_bytes();
    let ghost b = bytes@;
    let n = bytes.len();
    let mut i: usize = 0;
    while i < n && bytes[i] == 35u8
        invariant
            i <= n == b.len(),
            b == bytes@,
            forall|k: int| 0 <= k < i ==> b[k] == 35u8,
        decreases n - i,
    {
        i += 1;
    }
    proof {
        lemma_strip_hashes(b, i as int);
        if i < n {
            assert(b.skip(i as int)[0] == b[i as int]);
        }
    }
    i
}

/// Whether `s` can be read as a colour text (see `color_text_ok`).
pub fn color_text_valid(s: &str) -> (b: bool)
    ensures
        b == color_text_ok(s@),
{
    let i = hashes_end(s);
    let bytes = s.as_bytes();
    if bytes.len() - i != 6 {
        return true;
    }
    !(128u8 <= bytes[i + 2] && bytes[i + 2] <= 191u8) && !(128u8 <= bytes[i + 4] && bytes[i
        + 4] <= 191u8)
}

/// Read a `#rrggbb` colour.
pub fn parse_color(s: &str) -> (c: Option<Color>)
    requires
        color_text_ok(s@),
    ensures
        c == spec_parse_color(s@),
{
    let i = hashes_end(s);
    let bytes = s.as_bytes();
    let ghost b = strip_hashes(encode_utf8(s@));
    if bytes.len() - i == 6 {
        assert(b[0] == bytes@[i as int] && b[1] == bytes@[i + 1] && b[2] == bytes@[i + 2]);
        assert(b[3] == bytes@[i + 3] && b[4] == bytes@[i + 4] && b[5] == bytes@[i + 5]);
        let r = match hex_byte(bytes[i], bytes[i + 1]) {
            Some(v) => v,
            None => return None,
        };
        let g = match hex_byte(bytes[i + 2], bytes[i + 3]) {
            Some(v) => v,
            None => return None,
        };
        let bl = match hex_byte(bytes[i + 4], bytes[i + 5]) {
            Some(v) => v,
            None => return None,
        };
        Some(Color::Rgb(r, g, bl))
    } else {
        None
    }
}

// ── the configuration ─────────────────────────────────────────────────

/// The theme a `name` selects: the light one by its name, else the dark
/// one.
pub open spec fn base_theme(name: Seq<char>) -> Theme {
    if name == "light"@ {
        light_theme()
    } else {
        dark_theme()
    }
}

/// `c`, unless the override `v` names a colour.
pub open spec fn overridden(c: Color, v: Option<String>) -> Color {
    match v {
        Some(s) => match spec_parse_color(s@) {
            Some(x) => x,
            None => c,
        },
        None => c,
    }
}

/// Every colour override of the theme table can be read.
pub open spec fn overrides_ok(t: &ThemeToml) -> bool {
    let ok = |v: Option<String>|
        match v {
            Some(s) => color_text_ok(s@),
            None => true,
        };
    &&& ok(t.status_bg)
    &&& ok(t.status_fg)
    &&& ok(t.line_num_fg)
    &&& ok(t.line_num_bg)
    &&& ok(t.cursor_line_bg)
    &&& ok(t.selection_bg)
    &&& ok(t.command_bg)
    &&& ok(t.command_fg)
    &&& ok(t.modified_fg)
    &&& ok(t.ok_fg)
    &&& ok(t.err_fg)
    &&& ok(t.building_fg)
    &&& ok(t.ghost_fg)
}

/// The theme that the table `t` describes: its base theme with the colours
/// it overrides.
pub open spec fn theme_from(t: &ThemeToml) -> Theme {
    let b = base_theme(t.name@);
    Theme {
        status_bg: overridden(b.status_bg, t.status_bg),
        status_fg: overridden(b.status_fg, t.status_fg),
        line_num_fg: overridden(b.line_num_fg, t.line_num_fg),
        line_num_bg: overridden(b.line_num_bg, t.line_num_bg),
        gutter_bg: b.gutter_bg,
        cursor_line_bg: overridden(b.cursor_line_bg, t.cursor_line_bg),
        selection_bg: overridden(b.selection_bg, t.selection_bg),
        command_bg: overridden(b.command_bg, t.command_bg),
        command_fg: overridden(b.command_fg, t.command_fg),
        modified_fg: overridden(b.modified_fg, t.modified_fg),
        ok_fg: overridden(b.ok_fg, t.ok_fg),
        err_fg: overridden(b.err_fg, t.err_fg),
        building_fg: overridden(b.building_fg, t.building_fg),
        ghost_fg: overridden(b.ghost_fg, t.ghost_fg),
    }
}

/// `c`, or the colour that the override `v` names.
fn apply_override(c: Color, v: &Option<String>) -> (r: Color)
    requires
        match *v {
            Some(s) => color_text_ok(s@),
            None => true,
        },
    ensures
        r == overridden(c, *v),
{
    match v {
        Some(s) => match parse_color(s.as_str()) {
            Some(x) => x,
            None => c,
        },
        None => c,
    }
}

/// Whether the override `v`, if any, can be read.
fn override_valid(v: &Option<String>) -> (b: bool)
    ensures
        b == match *v {
            Some(s) => color_text_ok(s@),
            None => true,
        },
{
    match v {
        Some(s) => color_text_valid(s.as_str()),
        None => true,
    }
}

impl ThemeToml {
    /// Whether every colour override can be read (see `overrides_ok`).
    pub fn overrides_valid(&self) -> (b: bool)
        ensures
            b == overrides_ok(self),
    {
        override_valid(&self.status_bg) && override_valid(&self.status_fg) && override_valid(
            &self.line_num_fg,
        ) && override_valid(&self.line_num_bg) && override_valid(&self.cursor_line_bg)
            && override_valid(&self.selection_bg) && override_valid(&self.command_bg)
            && override_valid(&self.command_fg) && override_valid(&self.modified_fg)
            && override_valid(&self.ok_fg) && override_valid(&self.err_fg) && override_valid(
            &self.building_fg,
        ) && override_valid(&self.ghost_fg)
    }
}

impl Config {
    /// The configuration that the file's contents describe: the named base
    /// theme with the colour overrides that name a colour applied, and the
    /// editor settings as given.
    pub fn from_toml(raw: ConfigToml) -> (c: Self)
        requires
            overrides_ok(&raw.theme),
        ensures
            c.theme == theme_from(&raw.theme),
            c.syntax@ == raw.theme.syntax@,
            c.tab_width == raw.editor.tab_width,
            c.auto_save_interval == raw.editor.auto_save_interval,
    {
        let light = String::from_str("light");
        let mut theme = if raw.theme.name == light {
            Theme::light()
        } else {
            Theme::dark()
        };
        // Apply optional chrome overrides
        let t = &raw.theme;
        theme.status_bg = apply_override(theme.status_bg, &t.status_bg);
        theme.status_fg = apply_override(theme.status_fg, &t.status_fg);
        theme.line_num_fg = apply_override(theme.line_num_fg, &t.line_num_fg);
        theme.line_num_bg = apply_override(theme.line_num_bg, &t.line_num_bg);
        theme.cursor_line_bg = apply_override(theme.cursor_line_bg, &t.cursor_line_bg);
        theme.selection_bg = apply_override(theme.selection_bg, &t.selection_bg);
        theme.command_bg = apply_override(theme.command_bg, &t.command_bg);
        theme.command_fg = apply_override(theme.command_fg, &t.command_fg);
        theme.modified_fg = apply_override(theme.modified_fg, &t.modified_fg);
        theme.ok_fg = apply_override(theme.ok_fg, &t.ok_fg);
        theme.err_fg = apply_override(theme.err_fg, &t.err_fg);
        theme.building_fg = apply_override(theme.building_fg, &t.building_fg);
        theme.ghost_fg = apply_override(theme.ghost_fg, &t.ghost_fg);
        Config {
            theme,
            syntax: raw.theme.syntax,
            tab_width: raw.editor.tab_width,
            auto_save_interval: raw.editor.auto_save_interval,
        }
    }
}

} // verus!
