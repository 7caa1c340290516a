use buckle::{Corners, FillStyle, LineStyle, Mark, Stroke, Style};
use crossterm::style::{Attribute, Color};

#[test]
fn new_style_says_nothing() {
    let style = Style::new();
    assert_eq!(style.foreground_color, None);
    assert_eq!(style.background_color, None);
    assert!(style.attributes.is_empty());
}

#[test]
fn colours_are_set() {
    let style = Style::new().background(Color::Red).foreground(Color::Blue);
    assert_eq!(style.background_color, Some(Color::Red));
    assert_eq!(style.foreground_color, Some(Color::Blue));
    let style = style.background(Color::Green);
    assert_eq!(style.background_color, Some(Color::Green));
    assert_eq!(style.foreground_color, Some(Color::Blue));
}

#[test]
fn each_attribute_switches_its_own_bit_on() {
    let cases = [
        (Style::new().bold(), Attribute::Bold),
        (Style::new().italic(), Attribute::Italic),
        (Style::new().underlined(), Attribute::Underlined),
        (Style::new().crossed_out(), Attribute::CrossedOut),
        (Style::new().reverse(), Attribute::Reverse),
    ];
    let all = [
        Attribute::Bold,
        Attribute::Italic,
        Attribute::Underlined,
        Attribute::CrossedOut,
        Attribute::Reverse,
        Attribute::Dim,
        Attribute::Hidden,
    ];
    for (style, on) in cases {
        for attribute in all {
            assert_eq!(style.attributes.has(attribute), attribute == on);
        }
    }
}

#[test]
fn marked_is_what_the_named_builders_do() {
    assert_eq!(Style::new().marked(Mark::Bold), Style::new().bold());
    assert_eq!(Style::new().marked(Mark::Italic), Style::new().italic());
    assert_eq!(Style::new().marked(Mark::Underlined), Style::new().underlined());
    assert_eq!(Style::new().marked(Mark::CrossedOut), Style::new().crossed_out());
    assert_eq!(Style::new().marked(Mark::Reverse), Style::new().reverse());
}

#[test]
fn attributes_add_up() {
    let style = Style::new().bold().italic().bold();
    assert!(style.attributes.has(Attribute::Bold));
    assert!(style.attributes.has(Attribute::Italic));
    assert!(!style.attributes.has(Attribute::Reverse));
}

#[test]
fn update_keeps_the_background_unless_the_other_has_one() {
    let mut below = Style::new().background(Color::Red).bold();
    let over = Style::new().foreground(Color::Blue).italic();
    below.update(&over);
    assert_eq!(below.background_color, Some(Color::Red));
    assert_eq!(below.foreground_color, Some(Color::Blue));
    assert!(below.attributes.has(Attribute::Bold));
    assert!(below.attributes.has(Attribute::Italic));

    let over = Style::new().background(Color::Green);
    below.update(&over);
    assert_eq!(below.background_color, Some(Color::Green));
    assert_eq!(below.foreground_color, Some(Color::Blue));
    assert!(below.attributes.has(Attribute::Bold));
    assert!(below.attributes.has(Attribute::Italic));
}

#[test]
fn update_with_a_blank_style_changes_nothing() {
    let before = Style::new()
        .background(Color::Red)
        .foreground(Color::Yellow)
        .underlined();
    let mut style = before;
    style.update(&Style::new());
    assert_eq!(style, before);
    let mut blank = Style::new();
    blank.update(&Style::new());
    assert_eq!(blank, Style::new());
}

#[test]
fn update_twice_is_update_once() {
    let over = Style::new()
        .background(Color::Rgb { r: 1, g: 2, b: 3 })
        .foreground(Color::AnsiValue(7))
        .crossed_out()
        .reverse();
    let mut once = Style::new();
    once.update(&over);
    let mut twice = Style::new();
    twice.update(&over);
    twice.update(&over);
    assert_eq!(once, twice);
    assert_eq!(once, over);
}

#[test]
fn same_compares_colours_and_attributes() {
    let style = Style::new().background(Color::Red).bold();
    assert!(style.same(&Style::new().bold().background(Color::Red)));
    assert!(Style::new().same(&Style::new()));
    assert!(!style.same(&Style::new().background(Color::Blue).bold()));
    assert!(!style.same(&Style::new().background(Color::Red)));
    assert!(!style.same(&Style::new().background(Color::Red).italic()));
    assert!(!style.same(&Style::new().foreground(Color::Red).bold()));
    assert!(!style.same(&style.foreground(Color::Red)));
    assert!(!Style::new().same(&Style::new().reverse()));
}

#[test]
fn line_style_default_and_corners() {
    let line = LineStyle::default();
    assert_eq!(line.corners, Corners::Regular);
    assert_eq!(line.stroke, Stroke::Solid);
    assert!(line.style.is_none());
    assert!(!line.is_rounded());
    assert!(LineStyle::new(Corners::Rounded, Stroke::Solid, None).is_rounded());
    assert!(LineStyle::new(Corners::Regular, Stroke::SolidRounded, None).is_rounded());
    let styled = LineStyle::new(Corners::Regular, Stroke::Solid, Some(Style::new().bold()));
    assert_eq!(styled.style, Some(Style::new().bold()));
}

#[test]
fn fill_style_holds_glyph_and_style() {
    let fill = FillStyle::new(Some('.'), Style::new().background(Color::Grey));
    assert_eq!(fill.glyph, Some('.'));
    assert_eq!(fill.style, Style::new().background(Color::Grey));
}

#[test]
fn attributes_keep_their_bits_one_above_their_number() {
    assert_eq!(Attribute::Bold.bytes(), 1 << 2);
    assert_eq!(Attribute::Italic.bytes(), 1 << 4);
    assert_eq!(Attribute::Underlined.bytes(), 1 << 5);
    assert_eq!(Attribute::Reverse.bytes(), 1 << 12);
    assert_eq!(Attribute::CrossedOut.bytes(), 1 << 14);
}
