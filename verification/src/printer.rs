//! Text and its looks: colours, decoration and weight, the graphic-rendition
//! sequences that select them, and the builder that queues text on a terminal.
//!
//! A graphic-rendition sequence is `ESC [ p ; ... ; p m`, where each `p` is a
//! number in decimal.

use vstd::prelude::*;
use vstd::std_specs::convert::FromSpecImpl;
use vstd::string::to_string_from_display_ensures;
use vstd::utf8::encode_utf8;

use std::fmt::Debug;
use std::fmt::Display;
use std::fmt::Write;

use crate::cursor::Cursor;
use crate::escape::csi;
use crate::escape::digits;
use crate::escape::push_bytes;
use crate::escape::push_csi;
use crate::escape::push_number;
use crate::escape::SEPARATOR;
use crate::screen::Screen;
use crate::stream::Stream;
use crate::term::Model;
use crate::term::Term;

verus! {

/// The byte `m`, which ends a graphic-rendition sequence.
pub const RENDITION: u8 = 0x6D;

/// One of the eight colours of the terminal, or the terminal's own default.
#[derive(Default, Debug, Copy, Clone, PartialEq, Eq)]
pub enum Color {
    #[default]
    Default,
    Black,
    Red,
    Green,
    Yellow,
    Blue,
    Magenta,
    Cyan,
    White,
}

/// A line through or under the text.
#[derive(Default, Debug, Copy, Clone, PartialEq, Eq)]
pub enum TextDecoration {
    #[default]
    Plain,
    Strike,
    Underline,
}

/// How heavy the text is drawn.
#[derive(Default, Debug, Copy, Clone, PartialEq, Eq)]
pub enum FontWeight {
    #[default]
    Normal,
    Light,
    Bold,
}

/// The looks of a piece of text.
#[derive(Debug, Copy, Clone, PartialEq, Eq)]
pub struct Style {
    pub foreground: Color,
    pub background: Color,
    pub decoration: TextDecoration,
    pub weight: FontWeight,
}

/// The style that changes nothing: default colours, no decoration, normal
/// weight.
pub open spec fn plain() -> Style {
    Style {
        foreground: Color::Default,
        background: Color::Default,
        decoration: TextDecoration::Plain,
        weight: FontWeight::Normal,
    }
}

impl Default for Style {
    /// The style that changes nothing.
    fn default() -> (style: Style)
        ensures
            style == plain(),
    {
        Style {
            foreground: Color::Default,
            background: Color::Default,
            decoration: TextDecoration::Plain,
            weight: FontWeight::Normal,
        }
    }
}

impl From<TextDecoration> for Style {
    /// The plain style with the given decoration.
    fn from(decoration: TextDecoration) -> (style: Style)
        ensures
            style == (Style { decoration, ..plain() }),
    {
        Style {
            foreground: Color::Default,
            background: Color::Default,
            decoration,
            weight: FontWeight::Normal,
        }
    }
}

impl FromSpecImpl<TextDecoration> for Style {
    open spec fn obeys_from_spec() -> bool {
        true
    }

    open spec fn from_spec(decoration: TextDecoration) -> Style {
        Style {
            foreground: Color::Default,
            background: Color::Default,
            decoration,
            weight: FontWeight::Normal,
        }
    }
}

impl From<FontWeight> for Style {
    /// The plain style with the given weight.
    fn from(weight: FontWeight) -> (style: Style)
        ensures
            style == (Style { weight, ..plain() }),
    {
        Style {
            foreground: Color::Default,
            background: Color::Default,
            decoration: TextDecoration::Plain,
            weight,
        }
    }
}

impl FromSpecImpl<FontWeight> for Style {
    open spec fn obeys_from_spec() -> bool {
        true
    }

    open spec fn from_spec(weight: FontWeight) -> Style {
        Style { weight, ..plain() }
    }
}

impl Style {
    /// The style that changes nothing.
    #[must_use]
    pub fn new() -> (style: Style)
        ensures
            style == plain(),
    {
        Style {
            foreground: Color::Default,
            background: Color::Default,
            decoration: TextDecoration::Plain,
            weight: FontWeight::Normal,
        }
    }

    /// The plain style with the given colour of the text.
    #[must_use]
    pub fn foreground(color: Color) -> (style: Style)
        ensures
            style == (Style { foreground: color, ..plain() }),
    {
        Style { foreground: color, ..Style::new() }
    }

    /// The plain style with the given colour behind the text.
    #[must_use]
    pub fn background(color: Color) -> (style: Style)
        ensures
            style == (Style { background: color, ..plain() }),
    {
        Style { background: color, ..Style::new() }
    }

    /// The same style with another colour of the text.
    #[must_use]
    pub fn with_foreground(self, color: Color) -> (style: Style)
        ensures
            style == (Style { foreground: color, ..self }),
    {
        let mut style = self;
        style.foreground = color;
        style
    }

    /// The same style with another colour behind the text.
    #[must_use]
    pub fn with_background(self, color: Color) -> (style: Style)
        ensures
            style == (Style { background: color, ..self }),
    {
        let mut style = self;
        style.background = color;
        style
    }

    /// The same style with another decoration.
    #[must_use]
    pub fn with_decoration(self, decoration: TextDecoration) -> (style: Style)
        ensures
            style == (Style { decoration, ..self }),
    {
        let mut style = self;
        style.decoration = decoration;
        style
    }

    /// The same style with another weight.
    #[must_use]
    pub fn with_weight(self, weight: FontWeight) -> (style: Style)
        ensures
            style == (Style { weight, ..self }),
    {
        let mut style = self;
        style.weight = weight;
        style
    }

    /// The sequence that selects the style: `ESC [ text ; back ; decoration ;
    /// weight m`.
    pub fn sequence(&self) -> (bytes: Vec<u8>)
        ensures
            bytes@ == rendition(style_parameters(*self)),
    {
        let mut list: Vec<u8> = Vec::new();
        list.push(fmt_foreground(self.foreground));
        list.push(fmt_background(self.background));
        let first = list.len();
        fmt_decoration(&mut list, self.decoration);
        list.push(fmt_weight(self.weight));
        proof {
            assert(list@ =~= style_parameters(*self));
        }
        let mut bytes = Vec::new();
        push_rendition(&mut bytes, list.as_slice());
        bytes
    }
}

/// The parameter that selects a weight.
pub open spec fn weight_parameter(weight: FontWeight) -> u8 {
    match weight {
        FontWeight::Normal => 22,
        FontWeight::Light => 2,
        FontWeight::Bold => 1,
    }
}

/// The parameters that select a decoration. Taking both lines away takes two.
pub open spec fn decoration_parameters(decoration: TextDecoration) -> Seq<u8> {
    match decoration {
        TextDecoration::Plain => seq![29u8, 24u8],
        TextDecoration::Strike => seq![9u8],
        TextDecoration::Underline => seq![4u8],
    }
}

/// The parameter that selects a colour of the text.
pub open spec fn foreground_parameter(color: Color) -> u8 {
    match color {
        Color::Default => 39,
        Color::Black => 30,
        Color::Red => 31,
        Color::Green => 32,
        Color::Yellow => 33,
        Color::Blue => 34,
        Color::Magenta => 35,
        Color::Cyan => 36,
        Color::White => 37,
    }
}

/// The parameter that selects a colour behind the text: ten above the one for
/// the same colour of the text.
pub open spec fn background_parameter(color: Color) -> u8 {
    (foreground_parameter(color) + 10) as u8
}

/// The parameters that undo every style: normal weight, no decoration,
/// default colours.
pub open spec fn restore_parameters() -> Seq<u8> {
    seq![22u8, 29u8, 24u8, 39u8, 49u8]
}

/// The parameters that select a style, in the order in which they are sent.
pub open spec fn style_parameters(style: Style) -> Seq<u8> {
    seq![foreground_parameter(style.foreground), background_parameter(style.background)]
        + decoration_parameters(style.decoration) + seq![weight_parameter(style.weight)]
}

/// Parameters in decimal, parted by `;`.
pub open spec fn parameters(list: Seq<u8>) -> Seq<u8>
    decreases list.len(),
{
    if list.len() == 0 {
        Seq::empty()
    } else if list.len() == 1 {
        digits(list[0] as nat)
    } else {
        parameters(list.drop_last()).push(SEPARATOR) + digits(list.last() as nat)
    }
}

/// The graphic-rendition sequence with the given parameters.
pub open spec fn rendition(list: Seq<u8>) -> Seq<u8> {
    csi(parameters(list).push(RENDITION))
}

/// The parameter that selects a weight.
#[must_use]
pub fn fmt_weight(weight: FontWeight) -> (parameter: u8)
    ensures
        parameter == weight_parameter(weight),
{
    match weight {
        FontWeight::Normal => 22,
        FontWeight::Light => 2,
        FontWeight::Bold => 1,
    }
}

/// Appends the parameters that select a decoration.
pub fn fmt_decoration(list: &mut Vec<u8>, decoration: TextDecoration)
    ensures
        final(list)@ == old(list)@ + decoration_parameters(decoration),
{
    match decoration {
        TextDecoration::Plain => {
            list.push(29);
            list.push(24);
        },
        TextDecoration::Strike => {
            list.push(9);
        },
        TextDecoration::Underline => {
            list.push(4);
        },
    }
    proof {
        assert(list@ =~= old(list)@ + decoration_parameters(decoration));
    }
}

/// The parameter that selects a colour of the text.
#[must_use]
pub fn fmt_foreground(color: Color) -> (parameter: u8)
    ensures
        parameter == foreground_parameter(color),
{
    match color {
        Color::Default => 39,
        Color::Black => 30,
        Color::Red => 31,
        Color::Green => 32,
        Color::Yellow => 33,
        Color::Blue => 34,
        Color::Magenta => 35,
        Color::Cyan => 36,
        Color::White => 37,
    }
}

/// The parameter that selects a colour behind the text.
#[must_use]
pub fn fmt_background(color: Color) -> (parameter: u8)
    ensures
        parameter == background_parameter(color),
{
    match color {
        Color::Default => 49,
        Color::Black => 40,
        Color::Red => 41,
        Color::Green => 42,
        Color::Yellow => 43,
        Color::Blue => 44,
        Color::Magenta => 45,
        Color::Cyan => 46,
        Color::White => 47,
    }
}

/// The parameters that undo every style.
#[must_use]
pub fn fmt_restore() -> (list: [u8; 5])
    ensures
        list@ == restore_parameters(),
{
    let list: [u8; 5] = [22, 29, 24, 39, 49];
    proof {
        assert(list@ =~= restore_parameters());
    }
    list
}

/// Appends the graphic-rendition sequence with the given parameters.
pub fn push_rendition(out: &mut Vec<u8>, list: &[u8])
    ensures
        final(out)@ == old(out)@ + rendition(list@),
{
    push_csi(out);
    let mut at: usize = 0;
    while at < list.len()
        invariant
            at <= list@.len(),
            out@ == old(out)@ + csi(parameters(list@.take(at as int))),
        decreases list@.len() - at,
    {
        if at > 0 {
            out.push(SEPARATOR);
        }
        push_number(out, list[at] as u32);
        proof {
            let before = list@.take(at as int);
            let after = list@.take(at + 1);
            assert(after.drop_last() =~= before);
            assert(after.last() == list@[at as int]);
            assert(out@ =~= old(out)@ + csi(parameters(after)));
        }
        at += 1;
    }
    out.push(RENDITION);
    proof {
        assert(list@.take(at as int) =~= list@);
        assert(out@ =~= old(out)@ + rendition(list@));
    }
}

/// Something to print, with the looks to print it in.
pub struct StyledContent<T> {
    pub style: Style,
    pub content: T,
}

impl<T> StyledContent<T> {
    /// The same content with another colour of the text.
    #[must_use]
    pub fn with_foreground(self, color: Color) -> (styled: Self)
        ensures
            styled.content == self.content,
            styled.style == (Style { foreground: color, ..self.style }),
    {
        let mut styled = self;
        styled.style.foreground = color;
        styled
    }

    /// The same content with another colour behind the text.
    #[must_use]
    pub fn with_background(self, color: Color) -> (styled: Self)
        ensures
            styled.content == self.content,
            styled.style == (Style { background: color, ..self.style }),
    {
        let mut styled = self;
        styled.style.background = color;
        styled
    }

    /// The same content with another decoration.
    #[must_use]
    pub fn with_decoration(self, decoration: TextDecoration) -> (styled: Self)
        ensures
            styled.content == self.content,
            styled.style == (Style { decoration, ..self.style }),
    {
        let mut styled = self;
        styled.style.decoration = decoration;
        styled
    }

    /// The same content with another weight.
    #[must_use]
    pub fn with_weight(self, weight: FontWeight) -> (styled: Self)
        ensures
            styled.content == self.content,
            styled.style == (Style { weight, ..self.style }),
    {
        let mut styled = self;
        styled.style.weight = weight;
        styled
    }

}

impl<T: Display> StyledContent<T> {
    /// The bytes that show the content in its style: the sequence that selects
    /// the style, the text that the content displays as, and the sequence that
    /// undoes every style.
    pub fn render(&self) -> (bytes: Vec<u8>)
        ensures
            exists|text: String| #[trigger]
                to_string_from_display_ensures::<T>(&self.content, text) && bytes@
                    == styled_bytes(self.style, encode_utf8(text@)),
    {
        let text = self.content.to_string();
        let mut bytes = self.style.sequence();
        push_bytes(&mut bytes, text.as_str().as_bytes());
        let restore = fmt_restore();
        push_rendition(&mut bytes, restore.as_slice());
        bytes
    }
}

/// The bytes that show text in a style and leave no style behind.
pub open spec fn styled_bytes(style: Style, text: Seq<u8>) -> Seq<u8> {
    rendition(style_parameters(style)) + text + rendition(restore_parameters())
}

/// Things that can be given looks.
pub trait Styled: Sized {
    /// This, with the given colour of the text.
    #[must_use]
    fn with_foreground(self, color: Color) -> (styled: StyledContent<Self>)
        ensures
            styled.content == self,
            styled.style == (Style { foreground: color, ..plain() }),
    {
        StyledContent { style: Style::foreground(color), content: self }
    }

    /// This, with the given colour behind the text.
    #[must_use]
    fn with_background(self, color: Color) -> (styled: StyledContent<Self>)
        ensures
            styled.content == self,
            styled.style == (Style { background: color, ..plain() }),
    {
        StyledContent { style: Style::background(color), content: self }
    }

    /// This, with the given decoration.
    #[must_use]
    fn with_decoration(self, decoration: TextDecoration) -> (styled: StyledContent<Self>)
        ensures
            styled.content == self,
            styled.style == (Style { decoration, ..plain() }),
    {
        StyledContent { style: Style::new().with_decoration(decoration), content: self }
    }

    /// This, with the given weight.
    #[must_use]
    fn with_weight(self, weight: FontWeight) -> (styled: StyledContent<Self>)
        ensures
            styled.content == self,
            styled.style == (Style { weight, ..plain() }),
    {
        StyledContent { style: Style::new().with_weight(weight), content: self }
    }

    /// This, with the given style.
    #[must_use]
    fn with_style(self, style: Style) -> (styled: StyledContent<Self>)
        ensures
            styled.content == self,
            styled.style == style,
    {
        StyledContent { style, content: self }
    }
}

impl Styled for String {

}

impl Styled for &mut str {

}

impl Styled for &str {

}

/// The `write!` macro with `{:?}` on a `String`: the text that a value shows
/// as when debugging, or nothing where the value's formatting reports an
/// error. Nothing is claimed of the text: it is up to the value's type.
#[verifier::external_body]
fn debug_text<T: Debug>(value: &T) -> Option<String> {
    let mut text = String::new();
    match write!(text, "{:?}", value) {
        Ok(()) => Some(text),
        Err(_) => None,
    }
}

/// The terminal after a text has been queued, where there is one.
pub open spec fn queued(before: Model, text: Option<String>) -> Model {
    match text {
        Some(text) => before.wrote(encode_utf8(text@)),
        None => before,
    }
}

/// A builder that queues text on a terminal.
pub struct Printer<'b>(pub &'b mut Term);

impl<'b> Printer<'b> {
    /// Goes on with cursor sequences.
    #[must_use]
    pub fn cursor(self) -> (cursor: Cursor<'b>)
        ensures
            *cursor.0 == *old(self.0),
            *final(cursor.0) == *final(self.0),
    {
        Cursor(self.0)
    }

    /// Goes on with screen sequences.
    #[must_use]
    pub fn screen(self) -> (screen: Screen<'b>)
        ensures
            *screen.0 == *old(self.0),
            *final(screen.0) == *final(self.0),
    {
        Screen(self.0)
    }

    /// Goes on with the input mode.
    #[must_use]
    pub fn stream(self) -> (stream: Stream<'b>)
        ensures
            *stream.0 == *old(self.0),
            *final(stream.0) == *final(self.0),
    {
        Stream(self.0)
    }

    /// Queues the text that `s` displays as.
    #[must_use]
    pub fn print<T: Display>(self, s: T) -> (out: Self)
        ensures
            exists|text: String| #[trigger]
                to_string_from_display_ensures::<T>(&s, text) && out.0@ == old(self.0)@.wrote(
                    encode_utf8(text@),
                ),
            *final(out.0) == *final(self.0),
    {
        let Printer(term) = self;
        let text = s.to_string();
        term.write(text.as_str().as_bytes());
        Printer(term)
    }

    /// Queues a text, where there is one; queues nothing where there is none.
    #[must_use]
    pub fn print_text(self, text: Option<String>) -> (out: Self)
        ensures
            out.0@ == queued(old(self.0)@, text),
            *final(out.0) == *final(self.0),
    {
        let Printer(term) = self;
        match text {
            Some(text) => {
                term.write(text.as_str().as_bytes());
            },
            None => {},
        }
        Printer(term)
    }

    /// Queues the text that `s` shows as when debugging. What that text is, is
    /// up to the type of `s`. Where the formatting of `s` reports an error,
    /// nothing is queued.
    #[must_use]
    pub fn debug<T: Debug>(self, s: T) -> (out: Self)
        ensures
            exists|text: Option<String>| out.0@ == #[trigger] queued(old(self.0)@, text),
            *final(out.0) == *final(self.0),
    {
        let text = debug_text(&s);
        self.print_text(text)
    }

    /// Queues the content of `styled` in its looks, and the sequence that
    /// undoes them.
    #[must_use]
    pub fn print_styled<T: Display>(self, styled: &StyledContent<T>) -> (out: Self)
        ensures
            exists|text: String| #[trigger]
                to_string_from_display_ensures::<T>(&styled.content, text) && out.0@ == old(
                    self.0,
                )@.wrote(styled_bytes(styled.style, encode_utf8(text@))),
            *final(out.0) == *final(self.0),
    {
        let Printer(term) = self;
        let bytes = styled.render();
        term.write(bytes.as_slice());
        Printer(term)
    }

    /// Queues the sequence that undoes every style: `ESC [ 22 ; 29 ; 24 ; 39 ;
    /// 49 m`.
    #[must_use]
    pub fn restore(self) -> (out: Self)
        ensures
            out.0@ == old(self.0)@.wrote(rendition(restore_parameters())),
            *final(out.0) == *final(self.0),
    {
        let Printer(term) = self;
        let mut bytes = Vec::new();
        let restore = fmt_restore();
        push_rendition(&mut bytes, restore.as_slice());
        term.write(bytes.as_slice());
        proof {
            assert(Seq::<u8>::empty() + rendition(restore_parameters()) =~= rendition(
                restore_parameters(),
            ));
        }
        Printer(term)
    }

    /// Hands over the bytes queued for the standard output, in order, and
    /// leaves the queue empty.
    pub fn flush(self) -> (bytes: Vec<u8>)
        ensures
            bytes@ == old(self.0)@.stdout,
            final(self.0)@ == (Model { stdout: Seq::empty(), ..old(self.0)@ }),
    {
        self.0.flush()
    }
}

} // verus!
