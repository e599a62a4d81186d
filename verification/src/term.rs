//! Colours for the terminal: a line of Markdown cut into pieces of one style
//! each, and the pieces written with the escape codes of a terminal.

use crate::utils::{decimal_of_nat, push_decimal};
use vstd::prelude::*;

verus! {

/// A colour: red, green, blue, and how opaque it is.
#[derive(Debug, Clone, Copy, PartialEq, Eq, Structural)]
pub struct Color {
    pub r: u8,
    pub g: u8,
    pub b: u8,
    pub a: u8,
}

/// The colours of a piece of text, and the bits of its font style.
#[derive(Debug, Clone, Copy, PartialEq, Eq, Structural)]
pub struct Style {
    pub foreground: Color,
    pub background: Color,
    pub font_style: u8,
}

/// The pieces, each with its text by its characters.
pub open spec fn pieces_view(pieces: Seq<(Style, &str)>) -> Seq<(Style, Seq<char>)> {
    Seq::new(pieces.len(), |i: int| (pieces[i].0, pieces[i].1@))
}

/// The pieces into which `syntect` cuts a line of Markdown under the theme
/// `base16-mocha.dark`, if it can read the line.
pub uninterp spec fn highlighted(line: Seq<char>) -> Option<Seq<(Style, Seq<char>)>>;

/// A style of the parts that were picked from a `syntect` style.
pub fn style_of_parts(fr: u8, fg: u8, fb: u8, fa: u8, br: u8, bg: u8, bb: u8, ba: u8, bits: u8) -> (style:
    Style)
    ensures
        style == (Style {
            foreground: Color { r: fr, g: fg, b: fb, a: fa },
            background: Color { r: br, g: bg, b: bb, a: ba },
            font_style: bits,
        }),
{
    Style {
        foreground: Color { r: fr, g: fg, b: fb, a: fa },
        background: Color { r: br, g: bg, b: bb, a: ba },
        font_style: bits,
    }
}

/// Cuts a line of Markdown into pieces of one style each.
///
/// Calls `syntect`: `SyntaxSet::load_defaults_newlines` and
/// `find_syntax_by_extension` for the syntax of Markdown,
/// `ThemeSet::load_defaults` for the theme `base16-mocha.dark`, and
/// `HighlightLines::highlight_line` on the line. The contract claims that
/// what comes out depends on the line alone. Nothing is returned where the
/// syntax or the theme is not there, or the line cannot be read.
#[verifier::external_body]
pub fn highlight_line<'a>(text: &'a String) -> (res: Option<Vec<(Style, &'a str)>>)
    ensures
        match res {
            Some(pieces) => highlighted(text@) == Some(pieces_view(pieces@)),
            None => highlighted(text@) is None,
        },
{
    let syntaxes = syntect::parsing::SyntaxSet::load_defaults_newlines();
    let syntax = syntaxes.find_syntax_by_extension("md")?;
    let themes = syntect::highlighting::ThemeSet::load_defaults();
    let theme = themes.themes.get("base16-mocha.dark")?;
    let mut lines = syntect::easy::HighlightLines::new(syntax, theme);
    let pieces = lines.highlight_line(text, &syntaxes).ok()?;
    Some(pieces.into_iter().map(|(s, piece)| (style_of_parts(s.foreground.r, s.foreground.g,
        s.foreground.b, s.foreground.a, s.background.r, s.background.g, s.background.b,
        s.background.a, s.font_style.bits()), piece)).collect())
}

/// One part of a colour laid over the same part of another, for an opacity
/// from 0 to 255.
pub open spec fn blend(over: u8, under: u8, opacity: u8) -> int {
    (over * opacity + under * (255 - opacity)) / 255
}

/// The colour in which a piece is shown: its foreground where that is opaque,
/// else its foreground laid over its background.
pub open spec fn shown(style: Style) -> (int, int, int) {
    if style.foreground.a == 255 {
        (style.foreground.r as int, style.foreground.g as int, style.foreground.b as int)
    } else {
        (
            blend(style.foreground.r, style.background.r, style.foreground.a),
            blend(style.foreground.g, style.background.g, style.foreground.a),
            blend(style.foreground.b, style.background.b, style.foreground.a),
        )
    }
}

/// A piece with the escape code that sets its colour before it.
pub open spec fn escaped_piece(style: Style, text: Seq<char>) -> Seq<char> {
    "\x1b[38;2;"@ + decimal_of_nat(shown(style).0 as nat) + ";"@ + decimal_of_nat(
        shown(style).1 as nat,
    ) + ";"@ + decimal_of_nat(shown(style).2 as nat) + "m"@ + text
}

/// The pieces, each with the escape code that sets its colour before it.
pub open spec fn escaped(pieces: Seq<(Style, Seq<char>)>) -> Seq<char>
    decreases pieces.len(),
{
    if pieces.len() == 0 {
        Seq::empty()
    } else {
        escaped(pieces.drop_last()) + escaped_piece(pieces.last().0, pieces.last().1)
    }
}

/// Lays one part of a colour over the same part of another.
pub fn blend_part(over: u8, under: u8, opacity: u8) -> (part: u8)
    ensures
        part == blend(over, under, opacity),
{
    let ratio: u32 = opacity as u32;
    assert(over * opacity + under * (255 - opacity) <= 255 * 255) by (nonlinear_arith)
        requires
            0 <= over <= 255,
            0 <= under <= 255,
            0 <= opacity <= 255,
    ;
    assert(0 <= over * opacity) by (nonlinear_arith)
        requires
            0 <= over,
            0 <= opacity,
    ;
    assert(0 <= under * (255 - opacity)) by (nonlinear_arith)
        requires
            0 <= under,
            0 <= 255 - opacity,
    ;
    let mixed: u32 = (over as u32 * ratio + under as u32 * (255 - ratio)) / 255;
    mixed as u8
}

/// Writes a piece, with the escape code that sets its colour before it,
/// behind `out`.
pub fn push_escaped_piece(out: &mut String, style: &Style, text: &str)
    ensures
        final(out)@ == old(out)@ + escaped_piece(*style, text@),
{
    let opaque: bool = style.foreground.a == 255;
    let r: u8 = if opaque {
        style.foreground.r
    } else {
        blend_part(style.foreground.r, style.background.r, style.foreground.a)
    };
    let g: u8 = if opaque {
        style.foreground.g
    } else {
        blend_part(style.foreground.g, style.background.g, style.foreground.a)
    };
    let b: u8 = if opaque {
        style.foreground.b
    } else {
        blend_part(style.foreground.b, style.background.b, style.foreground.a)
    };
    out.append("\x1b[38;2;");
    push_decimal(out, r as u64);
    out.append(";");
    push_decimal(out, g as u64);
    out.append(";");
    push_decimal(out, b as u64);
    out.append("m");
    out.append(text);
    assert(out@ =~= old(out)@ + escaped_piece(*style, text@));
}

/// Writes the pieces with the escape codes of a terminal with 24 bits of
/// colour: before each piece the code that sets its colour. The colour is not
/// reset at the end.
pub fn to_terminal_escaped(highlighted: &Vec<(Style, &str)>) -> (text: String)
    ensures
        text@ == escaped(pieces_view(highlighted@)),
{
    let ghost all = pieces_view(highlighted@);
    let mut text = String::new();
    let mut at: usize = 0;
    assert(all.take(0) =~= Seq::<(Style, Seq<char>)>::empty());
    while at < highlighted.len()
        invariant
            at <= highlighted.len(),
            all == pieces_view(highlighted@),
            text@ == escaped(all.take(at as int)),
        decreases highlighted.len() - at,
    {
        let piece = &highlighted[at];
        assert(all.take(at + 1).drop_last() =~= all.take(at as int));
        assert(all.take(at + 1).last() == (piece.0, piece.1@));
        push_escaped_piece(&mut text, &piece.0, piece.1);
        at = at + 1;
    }
    assert(all.take(at as int) =~= all);
    text
}

} // verus!
