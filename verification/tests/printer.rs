use std::sync::mpsc;
use termular::nio::stdin;
use termular::printer::fmt_background;
use termular::printer::fmt_decoration;
use termular::printer::fmt_foreground;
use termular::printer::fmt_restore;
use termular::printer::fmt_weight;
use termular::printer::Color;
use termular::printer::FontWeight;
use termular::printer::Style;
use termular::printer::Styled;
use termular::printer::StyledContent;
use termular::printer::TextDecoration;
use termular::term::Term;

fn term() -> Term {
    let (_sender, receiver) = mpsc::channel();
    Term::open(stdin(receiver))
}

const COLORS: [Color; 9] = [
    Color::Default,
    Color::Black,
    Color::Red,
    Color::Green,
    Color::Yellow,
    Color::Blue,
    Color::Magenta,
    Color::Cyan,
    Color::White,
];

#[test]
fn style_defaults_are_plain() {
    let plain = Style::new();
    assert_eq!(plain.foreground, Color::Default);
    assert_eq!(plain.background, Color::Default);
    assert_eq!(plain.decoration, TextDecoration::Plain);
    assert_eq!(plain.weight, FontWeight::Normal);
    assert_eq!(Style::default(), plain);
    assert_eq!(Color::default(), Color::Default);
    assert_eq!(TextDecoration::default(), TextDecoration::Plain);
    assert_eq!(FontWeight::default(), FontWeight::Normal);
}

#[test]
fn style_constructors_set_one_field() {
    assert_eq!(
        Style::foreground(Color::Red),
        Style { foreground: Color::Red, ..Style::new() }
    );
    assert_eq!(
        Style::background(Color::Blue),
        Style { background: Color::Blue, ..Style::new() }
    );
    assert_eq!(
        Style::from(TextDecoration::Strike),
        Style { decoration: TextDecoration::Strike, ..Style::new() }
    );
    assert_eq!(
        Style::from(FontWeight::Bold),
        Style { weight: FontWeight::Bold, ..Style::new() }
    );
}

#[test]
fn style_builders_keep_the_other_fields() {
    let style = Style::new()
        .with_foreground(Color::Green)
        .with_background(Color::Black)
        .with_decoration(TextDecoration::Underline)
        .with_weight(FontWeight::Light);
    assert_eq!(
        style,
        Style {
            foreground: Color::Green,
            background: Color::Black,
            decoration: TextDecoration::Underline,
            weight: FontWeight::Light,
        }
    );
    assert_eq!(style.with_weight(FontWeight::Bold).foreground, Color::Green);
}

#[test]
fn foreground_parameters() {
    let expected = [39u8, 30, 31, 32, 33, 34, 35, 36, 37];
    for (color, parameter) in COLORS.iter().zip(expected.iter()) {
        assert_eq!(fmt_foreground(*color), *parameter);
    }
}

#[test]
fn background_parameters_are_ten_above() {
    let expected = [49u8, 40, 41, 42, 43, 44, 45, 46, 47];
    for (color, parameter) in COLORS.iter().zip(expected.iter()) {
        assert_eq!(fmt_background(*color), *parameter);
        assert_eq!(fmt_background(*color), fmt_foreground(*color) + 10);
    }
}

#[test]
fn weight_and_decoration_parameters() {
    assert_eq!(fmt_weight(FontWeight::Normal), 22);
    assert_eq!(fmt_weight(FontWeight::Light), 2);
    assert_eq!(fmt_weight(FontWeight::Bold), 1);
    let mut list = vec![1u8];
    fmt_decoration(&mut list, TextDecoration::Plain);
    assert_eq!(list, vec![1, 29, 24]);
    fmt_decoration(&mut list, TextDecoration::Strike);
    assert_eq!(list, vec![1, 29, 24, 9]);
    fmt_decoration(&mut list, TextDecoration::Underline);
    assert_eq!(list, vec![1, 29, 24, 9, 4]);
    assert_eq!(fmt_restore(), [22, 29, 24, 39, 49]);
}

#[test]
fn style_sequence() {
    assert_eq!(Style::new().sequence(), b"\x1B[39;49;29;24;22m".to_vec());
    let style = Style::from(FontWeight::Bold).with_foreground(Color::Green);
    assert_eq!(style.sequence(), b"\x1B[32;49;29;24;1m".to_vec());
    let style = Style::background(Color::White).with_decoration(TextDecoration::Underline);
    assert_eq!(style.sequence(), b"\x1B[39;47;4;22m".to_vec());
}

#[test]
fn styled_content_renders_between_style_and_restore() {
    let styled = "hi".with_foreground(Color::Red).with_weight(FontWeight::Bold);
    assert_eq!(styled.render(), b"\x1B[31;49;29;24;1mhi\x1B[22;29;24;39;49m".to_vec());
    let styled = String::from("x").with_decoration(TextDecoration::Strike);
    assert_eq!(styled.render(), b"\x1B[39;49;9;22mx\x1B[22;29;24;39;49m".to_vec());
    let styled = 42.with_style_of(Style::new());
    assert_eq!(styled.render(), b"\x1B[39;49;29;24;22m42\x1B[22;29;24;39;49m".to_vec());
}

trait Plainly: Sized {
    fn with_style_of(self, style: Style) -> StyledContent<Self> {
        StyledContent { style, content: self }
    }
}

impl Plainly for i32 {}

#[test]
fn styled_trait_builds_from_plain() {
    let styled = "a".with_background(Color::Cyan);
    assert_eq!(styled.style, Style { background: Color::Cyan, ..Style::new() });
    assert_eq!(styled.content, "a");
    let styled = "a".with_style(Style::foreground(Color::Blue));
    assert_eq!(styled.style, Style::foreground(Color::Blue));
    let styled = styled
        .with_background(Color::Black)
        .with_decoration(TextDecoration::Underline)
        .with_weight(FontWeight::Light)
        .with_foreground(Color::Yellow);
    assert_eq!(
        styled.style,
        Style {
            foreground: Color::Yellow,
            background: Color::Black,
            decoration: TextDecoration::Underline,
            weight: FontWeight::Light,
        }
    );
    assert_eq!(styled.content, "a");
}

#[test]
fn printer_prints_text_as_it_is() {
    let mut term = term();
    let bytes = term.printer().print("> ").print(7).print('x').print("é").flush();
    assert_eq!(bytes, "> 7xé".as_bytes().to_vec());
}

#[test]
fn printer_debug_prints_the_debug_text() {
    let mut term = term();
    let bytes = term.printer().debug([27u8, 91]).debug("a").flush();
    assert_eq!(bytes, b"[27, 91]\"a\"".to_vec());
}

#[test]
fn printer_restore_undoes_every_style() {
    let mut term = term();
    let bytes = term.printer().restore().flush();
    assert_eq!(bytes, b"\x1B[22;29;24;39;49m".to_vec());
}

#[test]
fn printer_prints_styled_content() {
    let mut term = term();
    let styled = "ok".with_foreground(Color::Green);
    let bytes = term.printer().print("[").print_styled(&styled).print("]").flush();
    assert_eq!(bytes, b"[\x1B[32;49;29;24;22mok\x1B[22;29;24;39;49m]".to_vec());
}

struct Unprintable;

impl std::fmt::Debug for Unprintable {
    fn fmt(&self, _: &mut std::fmt::Formatter<'_>) -> std::fmt::Result {
        Err(std::fmt::Error)
    }
}

#[test]
fn printer_debug_queues_nothing_when_formatting_fails() {
    let mut term = term();
    let bytes = term.printer().print("a").debug(Unprintable).print("b").flush();
    assert_eq!(bytes, b"ab".to_vec());
}

#[test]
fn printer_print_text_queues_a_text_or_nothing() {
    let mut term = term();
    let bytes = term
        .printer()
        .print_text(Some(String::from("x")))
        .print_text(None)
        .print_text(Some(String::from("y")))
        .flush();
    assert_eq!(bytes, b"xy".to_vec());
}
