//! The calls into `syntect` that the highlighter makes. A loaded theme and a
//! found syntax carry how they were had (a bundled theme's name or a theme
//! file's bytes; the extension looked up or the plain-text syntax); only
//! the functions here make them, so what they hold is what they say.
use syntect::easy::HighlightLines;
use syntect::highlighting::Theme as SyntaxTheme;
use syntect::highlighting::ThemeSet;
use syntect::parsing::{SyntaxReference, SyntaxSet};
use vstd::prelude::*;
use crate::highlight::{
    is_bundled_theme, pieces_text, pieces_view, HighlightPiece, ThemeOrigin, ThemeOriginView,
};

verus! {

#[verifier::external_type_specification]
#[verifier::external_body]
pub struct ExSyntaxSet(SyntaxSet);

#[verifier::external_type_specification]
#[verifier::external_body]
pub struct ExSyntaxReference(SyntaxReference);

#[verifier::external_type_specification]
#[verifier::external_body]
pub struct ExSyntaxTheme(SyntaxTheme);

/// A loaded colour theme with where it came from.
pub struct Theme {
    theme: SyntaxTheme,
    origin: ThemeOrigin,
}

impl View for Theme {
    type V = ThemeOriginView;

    closed spec fn view(&self) -> ThemeOriginView {
        self.origin@
    }
}

/// syntect's bundled syntax definitions, for lines that end in a line
/// break.
pub struct Syntaxes {
    set: SyntaxSet,
}

/// How a syntax of the bundled definitions was found: by a file extension,
/// or as the plain-text syntax.
pub enum SyntaxKey {
    Extension(Seq<char>),
    PlainText,
}

/// A syntax of the bundled definitions, with how it was found (`None`: the
/// plain-text syntax).
pub struct Syntax {
    syntax: SyntaxReference,
    extension: Option<String>,
}

impl View for Syntax {
    type V = SyntaxKey;

    closed spec fn view(&self) -> SyntaxKey {
        match self.extension {
            Some(e) => SyntaxKey::Extension(e@),
            None => SyntaxKey::PlainText,
        }
    }
}

/// `ThemeSet::load_defaults` and the bundled theme called `name` in it
/// (syntect bundles the themes that `is_bundled_theme` lists).
#[verifier::external_body]
pub fn bundled_theme(name: &str) -> (t: Theme)
    requires
        is_bundled_theme(name@),
    ensures
        t@ == ThemeOriginView::Bundled(name@),
{
    Theme { theme: ThemeSet::load_defaults().themes[name].clone(), origin: ThemeOrigin::Bundled(name.to_string()) }
}

/// Whether a theme file's bytes parse as a theme, as
/// `ThemeSet::load_from_reader` reads them.
pub uninterp spec fn theme_bytes_parse(bytes: Seq<u8>) -> bool;

/// `ThemeSet::load_from_reader` on the bytes of a theme file: its theme
/// when they parse.
#[verifier::external_body]
pub fn theme_from_bytes(bytes: Vec<u8>) -> (r: Option<Theme>)
    ensures
        r is Some == theme_bytes_parse(bytes@),
        r matches Some(t) ==> t@ == ThemeOriginView::File(bytes@),
{
    match ThemeSet::load_from_reader(&mut std::io::Cursor::new(bytes.as_slice())) {
        Ok(theme) => Some(Theme { theme, origin: ThemeOrigin::File(bytes) }),
        Err(_) => None,
    }
}

/// `SyntaxSet::load_defaults_newlines`.
#[verifier::external_body]
pub fn default_syntaxes() -> Syntaxes {
    Syntaxes { set: SyntaxSet::load_defaults_newlines() }
}

/// Whether syntect's bundled definitions have a syntax for the file
/// extension `ext`.
pub uninterp spec fn has_syntax_for_extension(ext: Seq<char>) -> bool;

/// `SyntaxSet::find_syntax_by_extension` in the bundled definitions.
#[verifier::external_body]
pub fn syntax_by_extension(syntaxes: &Syntaxes, ext: &str) -> (r: Option<Syntax>)
    ensures
        r is Some == has_syntax_for_extension(ext@),
        r matches Some(s) ==> s@ == SyntaxKey::Extension(ext@),
{
    match syntaxes.set.find_syntax_by_extension(ext) {
        Some(syntax) => Some(Syntax { syntax: syntax.clone(), extension: Some(ext.to_string()) }),
        None => None,
    }
}

/// `SyntaxSet::find_syntax_plain_text` in the bundled definitions, which
/// hold one (it panics on a set without one).
#[verifier::external_body]
pub fn plain_text_syntax(syntaxes: &Syntaxes) -> (r: Syntax)
    ensures
        r@ == SyntaxKey::PlainText,
{
    Syntax { syntax: syntaxes.set.find_syntax_plain_text().clone(), extension: None }
}

/// What syntect's highlighter gives for the `lines` (each with its line
/// break) of a text in the bundled syntax `syntax`, coloured by the theme
/// from `theme`: for each line, the pieces of
/// `HighlightLines::highlight_line`, none when it fails on the line.
pub uninterp spec fn syntect_pieces(theme: ThemeOriginView, syntax: SyntaxKey, lines: Seq<Seq<char>>) -> Seq<
    Seq<((u8, u8, u8), (u8, u8, u8, u8), u8, Seq<char>)>,
>;

/// `HighlightLines::new` on `syntax` with `theme`, then
/// `HighlightLines::highlight_line` on each of `lines` in turn, its pieces
/// converted; a line on which it fails gives no pieces. The pieces of a
/// line are consecutive slices of it from its start, so their texts form a
/// prefix of it; the highlighter also stops early, with what it has, when
/// its scope stack breaks.
#[verifier::external_body]
pub fn highlight_pieces(syntaxes: &Syntaxes, theme: &Theme, syntax: &Syntax, lines: &Vec<String>) -> (r: Vec<
    Vec<HighlightPiece>,
>)
    ensures
        r@.len() == lines@.len(),
        forall|i: int|
            0 <= i < r@.len() ==> pieces_view(#[trigger] r@[i]@) == syntect_pieces(
                theme@,
                syntax@,
                lines@.map_values(|l: String| l@),
            )[i],
        forall|i: int|
            0 <= i < r@.len() ==> {
                let t = pieces_text(pieces_view(#[trigger] r@[i]@));
                t.len() <= lines@[i]@.len() && t == lines@[i]@.take(t.len() as int)
            },
{
    let mut hl = HighlightLines::new(&syntax.syntax, &theme.theme);
    lines.iter().map(|line| {
        hl.highlight_line(line, &syntaxes.set).unwrap_or_default().into_iter().map(|(st, text)| HighlightPiece {
            fg: (st.foreground.r, st.foreground.g, st.foreground.b),
            bg: (st.background.r, st.background.g, st.background.b, st.background.a),
            font: st.font_style.bits(),
            text: text.to_string(),
        }).collect()
    }).collect()
}

} // verus!
