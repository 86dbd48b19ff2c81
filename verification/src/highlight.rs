//! Syntax highlighting with `syntect`: the theme the configuration names,
//! and the visible lines handed to the highlighter, whose pieces come back
//! as styled spans.
use vstd::prelude::*;
use crate::syntect_api::{
    bundled_theme, default_syntaxes, has_syntax_for_extension, highlight_pieces, plain_text_syntax,
    syntax_by_extension, syntect_pieces, theme_bytes_parse, theme_from_bytes, Syntax, SyntaxKey,
    Syntaxes, Theme,
};
use crate::buffer::Buffer;
use crate::config::Color;
use crate::app::{path_extension, extension_of};
use crate::spans::SpanStyle;

verus! {

/// Line `i` of the visible lines as the highlighter is fed it: with an LF
/// after it unless it is the last.
pub open spec fn line_with_lf(lines: Seq<Seq<char>>, i: int) -> Seq<char> {
    if i + 1 < lines.len() {
        lines[i] + seq!['\n']
    } else {
        lines[i]
    }
}

/// The style of a highlighted piece: the scheme's foreground, its
/// background unless that is transparent, and its font style.
pub open spec fn piece_style(
    fg: (u8, u8, u8),
    bg: (u8, u8, u8, u8),
    bold: bool,
    italic: bool,
    underline: bool,
) -> SpanStyle {
    SpanStyle {
        fg: Some(Color::Rgb(fg.0, fg.1, fg.2)),
        bg: if bg.3 != 0 {
            Some(Color::Rgb(bg.0, bg.1, bg.2))
        } else {
            None
        },
        bold,
        italic,
        underlined: underline,
    }
}

/// The style of a highlighted piece (see `piece_style`).
pub fn highlight_style(
    fg: (u8, u8, u8),
    bg: (u8, u8, u8, u8),
    bold: bool,
    italic: bool,
    underline: bool,
) -> (s: SpanStyle)
    ensures
        s == piece_style(fg, bg, bold, italic, underline),
{
    SpanStyle {
        fg: Some(Color::Rgb(fg.0, fg.1, fg.2)),
        bg: if bg.3 != 0 {
            Some(Color::Rgb(bg.0, bg.1, bg.2))
        } else {
            None
        },
        bold,
        italic,
        underlined: underline,
    }
}

// ── the highlighter ───────────────────────────────────────────────────

/// A piece of a highlighted line: its colours, its font style (bold 1,
/// underline 2, italic 4) and its text.
pub struct HighlightPiece {
    pub fg: (u8, u8, u8),
    pub bg: (u8, u8, u8, u8),
    pub font: u8,
    pub text: String,
}

/// A highlighted piece as plain values: foreground, background with its
/// alpha, font style bits and text.
pub open spec fn piece_view(p: HighlightPiece) -> ((u8, u8, u8), (u8, u8, u8, u8), u8, Seq<char>) {
    (p.fg, p.bg, p.font, p.text@)
}

/// The pieces of one line as plain values.
pub open spec fn pieces_view(v: Seq<HighlightPiece>) -> Seq<
    ((u8, u8, u8), (u8, u8, u8, u8), u8, Seq<char>),
> {
    Seq::new(v.len(), |j: int| piece_view(v[j]))
}

/// The pieces' texts one after the other.
pub open spec fn pieces_text(v: Seq<((u8, u8, u8), (u8, u8, u8, u8), u8, Seq<char>)>) -> Seq<char>
    decreases v.len(),
{
    if v.len() == 0 {
        Seq::empty()
    } else {
        pieces_text(v.drop_last()) + v.last().3
    }
}

/// The span of a highlighted piece (see `piece_style`), with the font
/// style read from its bits.
pub open spec fn piece_span(p: ((u8, u8, u8), (u8, u8, u8, u8), u8, Seq<char>)) -> (
    SpanStyle,
    Seq<char>,
) {
    (piece_style(p.0, p.1, p.2 % 2 == 1, (p.2 / 4) % 2 == 1, (p.2 / 2) % 2 == 1), p.3)
}

// ── where the colours come from ───────────────────────────────────────

/// The colour theme of a highlighter: one of syntect's bundled themes, by
/// name, or a theme file, by its bytes.
pub enum ThemeOrigin {
    Bundled(String),
    File(Vec<u8>),
}

/// `ThemeOrigin` as plain values.
pub enum ThemeOriginView {
    Bundled(Seq<char>),
    File(Seq<u8>),
}

impl View for ThemeOrigin {
    type V = ThemeOriginView;

    open spec fn view(&self) -> ThemeOriginView {
        match self {
            ThemeOrigin::Bundled(n) => ThemeOriginView::Bundled(n@),
            ThemeOrigin::File(b) => ThemeOriginView::File(b@),
        }
    }
}

/// The names of the themes bundled with syntect.
pub open spec fn is_bundled_theme(name: Seq<char>) -> bool {
    ||| name == "base16-ocean.dark"@
    ||| name == "base16-eighties.dark"@
    ||| name == "base16-mocha.dark"@
    ||| name == "base16-ocean.light"@
    ||| name == "InspiredGitHub"@
    ||| name == "Solarized (dark)"@
    ||| name == "Solarized (light)"@
}

/// The theme used when the configured one cannot be had: the first bundled
/// theme in name order.
pub open spec fn fallback_theme() -> Seq<char> {
    "InspiredGitHub"@
}

/// Where a configured theme name or path points.
pub enum ThemeSource {
    /// One of syntect's bundled themes.
    Bundled(String),
    /// A `.tmTheme` file, read by the caller.
    File(String),
    /// Neither: the fallback theme is used.
    Fallback,
}

/// Whether `name` names a bundled theme.
fn bundled_theme_name(name: &str) -> (b: bool)
    ensures
        b == is_bundled_theme(name@),
{
    let n = String::from_str(name);
    n == String::from_str("base16-ocean.dark") || n == String::from_str("base16-eighties.dark")
        || n == String::from_str("base16-mocha.dark") || n == String::from_str("base16-ocean.light")
        || n == String::from_str("InspiredGitHub") || n == String::from_str("Solarized (dark)")
        || n == String::from_str("Solarized (light)")
}

/// Where the configured theme `name_or_path` points: a bundled theme by
/// that name, else a `.tmTheme` file at that path, else nowhere.
pub fn theme_source(name_or_path: &str) -> (s: ThemeSource)
    ensures
        match s {
            ThemeSource::Bundled(n) => is_bundled_theme(name_or_path@) && n@ == name_or_path@,
            ThemeSource::File(p) => !is_bundled_theme(name_or_path@) && path_extension(
                name_or_path@,
            ) == Some("tmTheme"@) && p@ == name_or_path@,
            ThemeSource::Fallback => !is_bundled_theme(name_or_path@) && path_extension(
                name_or_path@,
            ) != Some("tmTheme"@),
        },
{
    if bundled_theme_name(name_or_path) {
        return ThemeSource::Bundled(String::from_str(name_or_path));
    }
    match extension_of(name_or_path) {
        Some(e) => {
            let tm = String::from_str("tmTheme");
            if e == tm {
                ThemeSource::File(String::from_str(name_or_path))
            } else {
                ThemeSource::Fallback
            }
        },
        None => ThemeSource::Fallback,
    }
}

/// The theme a configured `name` and, for a `.tmTheme` path, the file's
/// bytes (when they could be read) give: the bundled theme by that name,
/// else the file's theme when it parses, else the fallback theme.
pub open spec fn chosen_theme(name: Seq<char>, file: Option<Seq<u8>>) -> ThemeOriginView {
    if is_bundled_theme(name) {
        ThemeOriginView::Bundled(name)
    } else if path_extension(name) == Some("tmTheme"@) && file is Some && theme_bytes_parse(
        file->0,
    ) {
        ThemeOriginView::File(file->0)
    } else {
        ThemeOriginView::Bundled(fallback_theme())
    }
}

/// Holds the bundled syntax definitions, the colour theme and the syntaxes
/// used to highlight.
pub struct Highlighter {
    syntaxes: Syntaxes,
    theme: Theme,
    /// The syntax of LaTeX buffers.
    tex_syntax: Syntax,
    /// The syntax of other buffers.
    plain_syntax: Syntax,
}

/// What decides a highlighter's colours: where its theme came from, and how
/// its LaTeX and plain-text syntaxes were found.
pub struct HighlighterView {
    pub theme: ThemeOriginView,
    pub tex_syntax: SyntaxKey,
    pub plain_syntax: SyntaxKey,
}

impl View for Highlighter {
    type V = HighlighterView;

    closed spec fn view(&self) -> HighlighterView {
        HighlighterView {
            theme: self.theme@,
            tex_syntax: self.tex_syntax@,
            plain_syntax: self.plain_syntax@,
        }
    }
}

/// The syntax LaTeX buffers are highlighted in: the bundled one for the
/// `tex` extension, else the plain-text syntax.
pub open spec fn tex_syntax_key() -> SyntaxKey {
    if has_syntax_for_extension("tex"@) {
        SyntaxKey::Extension("tex"@)
    } else {
        SyntaxKey::PlainText
    }
}

/// The visible lines as the highlighter is fed them (see `line_with_lf`).
pub open spec fn fed_lines(lines: Seq<Seq<char>>) -> Seq<Seq<char>> {
    Seq::new(lines.len(), |i: int| line_with_lf(lines, i))
}

/// The spans `v` are the pieces `p`, each turned into a span by
/// `piece_span`.
pub open spec fn spans_of(v: Seq<(SpanStyle, String)>, p: Seq<((u8, u8, u8), (u8, u8, u8, u8), u8, Seq<char>)>) -> bool {
    &&& v.len() == p.len()
    &&& forall|j: int| 0 <= j < v.len() ==> (#[trigger] v[j].0, v[j].1@) == piece_span(p[j])
}

impl Highlighter {
    /// A highlighter with the default theme, `base16-ocean.dark`.
    pub fn new() -> (h: Self)
        ensures
            h@ == (HighlighterView {
                theme: ThemeOriginView::Bundled("base16-ocean.dark"@),
                tex_syntax: tex_syntax_key(),
                plain_syntax: SyntaxKey::PlainText,
            }),
    {
        Self::with_theme("base16-ocean.dark", None)
    }

    /// A highlighter with the configured theme `name_or_path` (see
    /// `theme_source`); `file` holds the bytes of the `.tmTheme` file it
    /// names, when they could be read (see `chosen_theme`). LaTeX is
    /// highlighted in the bundled `tex` syntax, when there is one.
    pub fn with_theme(name_or_path: &str, file: Option<Vec<u8>>) -> (h: Self)
        ensures
            h@ == (HighlighterView {
                theme: chosen_theme(
                    name_or_path@,
                    match file {
                        Some(b) => Some(b@),
                        None => None,
                    },
                ),
                tex_syntax: tex_syntax_key(),
                plain_syntax: SyntaxKey::PlainText,
            }),
    {
        let syntaxes = default_syntaxes();
        let plain_syntax = plain_text_syntax(&syntaxes);
        let tex_syntax = match syntax_by_extension(&syntaxes, "tex") {
            Some(s) => s,
            None => plain_text_syntax(&syntaxes),
        };
        let theme = match theme_source(name_or_path) {
            ThemeSource::Bundled(n) => bundled_theme(n.as_str()),
            ThemeSource::File(_) => {
                let parsed = match file {
                    Some(bytes) => theme_from_bytes(bytes),
                    None => None,
                };
                match parsed {
                    Some(t) => t,
                    None => bundled_theme("InspiredGitHub"),
                }
            },
            ThemeSource::Fallback => bundled_theme("InspiredGitHub"),
        };
        Highlighter { syntaxes, theme, tex_syntax, plain_syntax }
    }

    /// Highlight the visible lines (without their line breaks): one entry
    /// per line. The lines are fed to the highlighter in turn, each with an
    /// LF unless it is the last (see `fed_lines`), and each entry is the
    /// line's pieces from the highlighter as styled spans (see
    /// `piece_span`); their texts form a prefix of the line with its LF.
    pub fn highlight_lines(&self, lines: &Vec<String>, is_latex: bool) -> (r: Vec<Vec<(SpanStyle, String)>>)
        ensures
            r@.len() == lines@.len(),
            forall|i: int|
                0 <= i < r@.len() ==> spans_of(
                    #[trigger] r@[i]@,
                    syntect_pieces(
                        self@.theme,
                        if is_latex {
                            self@.tex_syntax
                        } else {
                            self@.plain_syntax
                        },
                        fed_lines(lines@.map_values(|l: String| l@)),
                    )[i],
                ),
            forall|i: int|
                0 <= i < r@.len() ==> {
                    let t = spans_chars(#[trigger] r@[i]@);
                    let l = line_with_lf(lines@.map_values(|l: String| l@), i);
                    t.len() <= l.len() && t == l.take(t.len() as int)
                },
    {
        let ghost ls = lines@.map_values(|l: String| l@);
        // Feed each line with its LF so the highlighter sees line ends.
        let mut fed: Vec<String> = Vec::new();
        let n = lines.len();
        let mut i: usize = 0;
        while i < n
            invariant
                i <= n == lines@.len() == ls.len(),
                ls == lines@.map_values(|l: String| l@),
                fed@.len() == i,
                forall|j: int| 0 <= j < i ==> #[trigger] fed@[j]@ == line_with_lf(ls, j),
            decreases n - i,
        {
            let mut line = lines[i].clone();
            proof {
                reveal_strlit("\n");
            }
            assert(line@ == ls[i as int]);
            if i + 1 < n {
                line.append("\n");
            }
            fed.push(line);
            i += 1;
        }
        assert(fed@.map_values(|l: String| l@) =~= fed_lines(ls));
        let syntax = if is_latex {
            &self.tex_syntax
        } else {
            &self.plain_syntax
        };
        let ghost key = if is_latex {
            self@.tex_syntax
        } else {
            self@.plain_syntax
        };
        assert(syntax@ == key);
        let pieces = highlight_pieces(&self.syntaxes, &self.theme, syntax, &fed);
        let mut result: Vec<Vec<(SpanStyle, String)>> = Vec::new();
        let mut k: usize = 0;
        while k < n
            invariant
                k <= n == pieces@.len() == fed@.len() == ls.len(),
                fed@.map_values(|l: String| l@) == fed_lines(ls),
                forall|j: int| 0 <= j < n ==> #[trigger] fed@[j]@ == line_with_lf(ls, j),
                forall|j: int|
                    0 <= j < n ==> pieces_view(#[trigger] pieces@[j]@) == syntect_pieces(
                        self@.theme,
                        key,
                        fed_lines(ls),
                    )[j],
                forall|j: int|
                    0 <= j < n ==> {
                        let t = pieces_text(pieces_view(#[trigger] pieces@[j]@));
                        t.len() <= fed@[j]@.len() && t == fed@[j]@.take(t.len() as int)
                    },
                result@.len() == k,
                forall|j: int|
                    0 <= j < k ==> spans_of(
                        #[trigger] result@[j]@,
                        syntect_pieces(self@.theme, key, fed_lines(ls))[j],
                    ),
                forall|j: int|
                    0 <= j < k ==> {
                        let t = spans_chars(#[trigger] result@[j]@);
                        let l = line_with_lf(ls, j);
                        t.len() <= l.len() && t == l.take(t.len() as int)
                    },
            decreases n - k,
        {
            let spans = spans_of_pieces(&pieces[k]);
            assert(pieces_view(pieces@[k as int]@) == syntect_pieces(self@.theme, key, fed_lines(ls))[k as int]);
            assert(fed@[k as int]@ == line_with_lf(ls, k as int));
            result.push(spans);
            k += 1;
        }
        result
    }
}

/// The texts of spans one after the other.
pub open spec fn spans_chars(v: Seq<(SpanStyle, String)>) -> Seq<char>
    decreases v.len(),
{
    if v.len() == 0 {
        Seq::empty()
    } else {
        spans_chars(v.drop_last()) + v.last().1@
    }
}

/// The styled spans of highlighted pieces (see `piece_span`).
pub fn spans_of_pieces(pieces: &Vec<HighlightPiece>) -> (r: Vec<(SpanStyle, String)>)
    ensures
        spans_of(r@, pieces_view(pieces@)),
        spans_chars(r@) == pieces_text(pieces_view(pieces@)),
{
    let ghost all = pieces_view(pieces@);
    let mut out: Vec<(SpanStyle, String)> = Vec::new();
    let n = pieces.len();
    let mut i: usize = 0;
    while i < n
        invariant
            i <= n == all.len() == pieces@.len(),
            all == pieces_view(pieces@),
            out@.len() == i,
            forall|j: int| 0 <= j < i ==> (#[trigger] out@[j].0, out@[j].1@) == piece_span(all[j]),
            spans_chars(out@) == pieces_text(all.take(i as int)),
        decreases n - i,
    {
        let p = &pieces[i];
        let st = highlight_style(p.fg, p.bg, p.font % 2 == 1, (p.font / 4) % 2 == 1, (p.font / 2) % 2 == 1);
        let text = String::from_str(p.text.as_str());
        proof {
            assert(all.take(i + 1).drop_last() =~= all.take(i as int));
        }
        let ghost before = out@;
        out.push((st, text));
        proof {
            assert(out@.drop_last() =~= before);
        }
        i += 1;
    }
    proof {
        assert(all.take(n as int) =~= all);
    }
    out
}

/// The buffer is highlighted as LaTeX: it has no path, its path has no
/// extension, or the extension is `tex`.
pub open spec fn spec_is_latex(path: Option<Seq<char>>) -> bool {
    match path {
        Some(p) => match path_extension(p) {
            Some(e) => e == "tex"@,
            None => true,
        },
        None => true,
    }
}

/// Whether the buffer is highlighted as LaTeX (see `spec_is_latex`).
pub fn is_latex(buffer: &Buffer) -> (b: bool)
    ensures
        b == spec_is_latex(buffer.spec_path()),
{
    match buffer.path() {
        Some(p) => match extension_of(p.as_str()) {
            Some(e) => {
                let tex = String::from_str("tex");
                e == tex
            },
            None => true,
        },
        None => true,
    }
}

} // verus!
