use buckle::buffer::{DOWN_LEFT, DOWN_RIGHT, H_LINE, UP_LEFT, UP_RIGHT, V_LINE};
use buckle::{
    Border, Buffer, Constraints, ContainerSizing, Dimensions, Dir, Label, MultilineText, Padding,
    Rect, Rule, Sizing, Spacer, Stroke, Style, Styled, Widget,
};
use crossterm::style::{Attribute, Color};

fn row(buffer: &Buffer, y: usize) -> String {
    buffer.cells[y].iter().map(|cell| cell.content).collect()
}

fn label(text: &str) -> Widget {
    Widget::Label(Label::new(text))
}

#[test]
fn spacer_fills_and_paints_nothing() {
    let spacer = Spacer::new();
    assert_eq!(
        spacer.sizing(&Dimensions::new(3, 3)),
        Constraints::new(Sizing::Fill, Sizing::Fill)
    );
    let mut buffer = Buffer::new(Dimensions::new(3, 3));
    Widget::Spacer(spacer).render(&Rect::new_from_raw(0, 0, 3, 3), &mut buffer);
    assert_eq!(buffer, Buffer::new(Dimensions::new(3, 3)));
}

#[test]
fn label_hugs_its_text() {
    let view = Label::new("hello");
    assert_eq!(view.text, "hello");
    assert_eq!(
        view.sizing(&Dimensions::new(10, 5)),
        Constraints::new(Sizing::Fixed(5), Sizing::Fixed(1))
    );
    assert_eq!(
        view.sizing(&Dimensions::new(3, 5)),
        Constraints::new(Sizing::Fixed(3), Sizing::Fixed(1))
    );
    assert_eq!(
        Label::new("héé").sizing(&Dimensions::new(10, 5)),
        Constraints::new(Sizing::Fixed(3), Sizing::Fixed(1))
    );
}

#[test]
fn label_width_and_height_can_be_set() {
    let view = Label::new("hello")
        .width(ContainerSizing::Fill)
        .height(ContainerSizing::Fixed(2));
    assert_eq!(
        view.sizing(&Dimensions::new(10, 5)),
        Constraints::new(Sizing::Fill, Sizing::Fixed(2))
    );
    assert_eq!(view.text, "hello");
}

#[test]
fn label_is_cut_at_the_edge_of_its_rectangle() {
    let mut buffer = Buffer::new(Dimensions::new(6, 3));
    label("hello").render(&Rect::new_from_raw(1, 1, 3, 2), &mut buffer);
    assert_eq!(row(&buffer, 0), "      ");
    assert_eq!(row(&buffer, 1), " hel  ");
    assert_eq!(row(&buffer, 2), "      ");
}

#[test]
fn label_without_a_row_paints_nothing() {
    let mut buffer = Buffer::new(Dimensions::new(6, 3));
    label("hello").render(&Rect::new_from_raw(1, 1, 3, 0), &mut buffer);
    label("hello").render(&Rect::new_from_raw(6, 3, 0, 0), &mut buffer);
    assert_eq!(buffer, Buffer::new(Dimensions::new(6, 3)));
}

#[test]
fn multiline_text_asks_for_its_lines() {
    let view = MultilineText::new("ab\nzz\nabcd");
    assert_eq!(
        view.sizing(&Dimensions::new(10, 10)),
        Constraints::new(Sizing::Fixed(2), Sizing::Fixed(3))
    );
    assert_eq!(
        view.sizing(&Dimensions::new(1, 2)),
        Constraints::new(Sizing::Fixed(1), Sizing::Fixed(2))
    );
    assert_eq!(
        MultilineText::new("").sizing(&Dimensions::new(10, 10)),
        Constraints::new(Sizing::Fixed(0), Sizing::Fixed(0))
    );
    assert_eq!(
        MultilineText::new("abc\nab").sizing(&Dimensions::new(10, 10)),
        Constraints::new(Sizing::Fixed(3), Sizing::Fixed(2))
    );
    let fixed = MultilineText::new("ab\ncd")
        .width(ContainerSizing::Fixed(3))
        .height(ContainerSizing::Fill);
    assert_eq!(
        fixed.sizing(&Dimensions::new(10, 10)),
        Constraints::new(Sizing::Fixed(3), Sizing::Fill)
    );
}

#[test]
fn multiline_text_is_cut_not_wrapped() {
    let mut buffer = Buffer::new(Dimensions::new(5, 3));
    Widget::MultilineText(MultilineText::new("abcdef\ngh\ni\nj"))
        .render(&Rect::new_from_raw(1, 0, 3, 3), &mut buffer);
    assert_eq!(row(&buffer, 0), " abc ");
    assert_eq!(row(&buffer, 1), " gh  ");
    assert_eq!(row(&buffer, 2), " i   ");
}

#[test]
fn rule_asks_for_one_cell_across() {
    assert_eq!(
        Rule::new(Dir::Horizontal).sizing(&Dimensions::new(9, 9)),
        Constraints::new(Sizing::Fill, Sizing::Fixed(1))
    );
    assert_eq!(
        Rule::new(Dir::Vertical).sizing(&Dimensions::new(9, 9)),
        Constraints::new(Sizing::Fixed(1), Sizing::Fill)
    );
}

#[test]
fn rule_draws_its_line() {
    let mut buffer = Buffer::new(Dimensions::new(4, 3));
    Widget::Rule(Rule::new(Dir::Horizontal)).render(&Rect::new_from_raw(1, 1, 3, 2), &mut buffer);
    assert_eq!(row(&buffer, 0), "    ");
    assert_eq!(row(&buffer, 1), format!(" {0}{0}{0}", H_LINE));
    assert_eq!(row(&buffer, 2), "    ");
    let mut buffer = Buffer::new(Dimensions::new(4, 3));
    let style = Style::new().bold();
    Widget::Rule(Rule::styled(Dir::Vertical, Some(style)))
        .render(&Rect::new_from_raw(1, 1, 3, 2), &mut buffer);
    assert_eq!(row(&buffer, 0), "    ");
    assert_eq!(row(&buffer, 1), format!(" {}  ", V_LINE));
    assert_eq!(row(&buffer, 2), format!(" {}  ", V_LINE));
    assert_eq!(buffer.cells[1][1].style, Some(style));
    let mut buffer = Buffer::new(Dimensions::new(4, 3));
    Widget::Rule(Rule::new(Dir::Horizontal)).render(&Rect::new_from_raw(1, 1, 3, 0), &mut buffer);
    Widget::Rule(Rule::new(Dir::Vertical)).render(&Rect::new_from_raw(1, 1, 0, 2), &mut buffer);
    assert_eq!(buffer, Buffer::new(Dimensions::new(4, 3)));
}

#[test]
fn padding_adds_to_a_fixed_request() {
    let view = Padding::all(1, label("hi"));
    assert_eq!(
        view.sizing(&Dimensions::new(10, 10)),
        Constraints::new(Sizing::Fixed(4), Sizing::Fixed(3))
    );
    let view = Padding::new(1, 2, 3, 4, label("hi"));
    assert_eq!(
        view.sizing(&Dimensions::new(10, 10)),
        Constraints::new(Sizing::Fixed(5), Sizing::Fixed(8))
    );
    let view = Padding::both(2, 1, Widget::Spacer(Spacer::new()));
    assert_eq!(
        view.sizing(&Dimensions::new(10, 10)),
        Constraints::new(Sizing::Fill, Sizing::Fill)
    );
    let view = Padding::horizontal(3, label("hello"));
    assert_eq!(
        view.sizing(&Dimensions::new(8, 10)),
        Constraints::new(Sizing::Fixed(8), Sizing::Fixed(1))
    );
    let view = Padding::vertical(3, label("hello"));
    assert_eq!(
        view.sizing(&Dimensions::new(8, 10)),
        Constraints::new(Sizing::Fixed(5), Sizing::Fixed(7))
    );
    let view = Padding::all(9, label("hello"));
    assert_eq!(
        view.sizing(&Dimensions::new(8, 10)),
        Constraints::new(Sizing::Fixed(18), Sizing::Fixed(19))
    );
}

#[test]
fn padding_constructors_set_the_sides() {
    let view = Padding::new(1, 2, 3, 4, label("x"));
    assert_eq!((view.left, view.right, view.top, view.bottom), (1, 2, 3, 4));
    let view = Padding::all(5, label("x"));
    assert_eq!((view.left, view.right, view.top, view.bottom), (5, 5, 5, 5));
    let view = Padding::vertical(5, label("x"));
    assert_eq!((view.left, view.right, view.top, view.bottom), (0, 0, 5, 5));
    let view = Padding::horizontal(5, label("x"));
    assert_eq!((view.left, view.right, view.top, view.bottom), (5, 5, 0, 0));
    let view = Padding::both(6, 7, label("x"));
    assert_eq!((view.left, view.right, view.top, view.bottom), (6, 6, 7, 7));
}

#[test]
fn padding_paints_its_view_inside() {
    let mut buffer = Buffer::new(Dimensions::new(6, 3));
    Widget::Padding(Padding::new(2, 1, 1, 0, label("hello")))
        .render(&Rect::new_from_raw(0, 0, 6, 3), &mut buffer);
    assert_eq!(row(&buffer, 0), "      ");
    assert_eq!(row(&buffer, 1), "  hel ");
    assert_eq!(row(&buffer, 2), "      ");
}

#[test]
fn padding_larger_than_the_rectangle_leaves_nothing_to_paint() {
    let mut buffer = Buffer::new(Dimensions::new(3, 3));
    Widget::Padding(Padding::all(2, label("hello")))
        .render(&Rect::new_from_raw(1, 1, 1, 1), &mut buffer);
    Widget::Padding(Padding::all(usize::MAX, label("hello")))
        .render(&Rect::new_from_raw(0, 0, 3, 3), &mut buffer);
    assert_eq!(buffer, Buffer::new(Dimensions::new(3, 3)));
}

#[test]
fn styled_lays_its_style_under_its_view() {
    let view = Styled::new(label("hi")).background(Color::Blue).bold();
    assert_eq!(
        view.sizing(&Dimensions::new(10, 10)),
        Constraints::new(Sizing::Fixed(2), Sizing::Fixed(1))
    );
    let mut buffer = Buffer::new(Dimensions::new(4, 2));
    Widget::Styled(view).render(&Rect::new_from_raw(1, 0, 3, 2), &mut buffer);
    assert_eq!(row(&buffer, 0), " hi ");
    let style = Style::new().background(Color::Blue).bold();
    assert_eq!(buffer.cells[0][0].style, None);
    for y in 0..2 {
        for x in 1..4 {
            assert_eq!(buffer.cells[y][x].style, Some(style));
        }
    }
}

#[test]
fn styled_builders_set_the_style() {
    let view = Styled::new(label("x"));
    assert_eq!(view.style, Style::new());
    let view = view
        .foreground(Color::Red)
        .background(Color::Green)
        .bold()
        .italic()
        .underlined()
        .crossed_out()
        .reverse();
    assert_eq!(view.style.foreground_color, Some(Color::Red));
    assert_eq!(view.style.background_color, Some(Color::Green));
    for attribute in [
        Attribute::Bold,
        Attribute::Italic,
        Attribute::Underlined,
        Attribute::CrossedOut,
        Attribute::Reverse,
    ] {
        assert!(view.style.attributes.has(attribute));
    }
}

#[test]
fn border_adds_two_cells_as_far_as_the_bounds_allow() {
    let view = Border::new(Stroke::Solid, label("hello"));
    assert_eq!(
        view.sizing(&Dimensions::new(10, 10)),
        Constraints::new(Sizing::Fixed(7), Sizing::Fixed(3))
    );
    assert_eq!(
        view.sizing(&Dimensions::new(6, 2)),
        Constraints::new(Sizing::Fixed(6), Sizing::Fixed(2))
    );
    let view = Border::new(Stroke::Solid, Widget::Spacer(Spacer::new()));
    assert_eq!(
        view.sizing(&Dimensions::new(6, 2)),
        Constraints::new(Sizing::Fill, Sizing::Fill)
    );
}

#[test]
fn border_draws_a_box_around_its_view() {
    let view = Border::new(Stroke::Solid, label("hello")).foreground(Color::Red);
    let mut buffer = Buffer::new(Dimensions::new(6, 4));
    Widget::Border(view).render(&Rect::new_from_raw(0, 0, 5, 3), &mut buffer);
    assert_eq!(row(&buffer, 0), format!("{}{2}{2}{2}{1} ", DOWN_RIGHT, DOWN_LEFT, H_LINE));
    assert_eq!(row(&buffer, 1), format!("{0}hel{0} ", V_LINE));
    assert_eq!(row(&buffer, 2), format!("{}{2}{2}{2}{1} ", UP_RIGHT, UP_LEFT, H_LINE));
    assert_eq!(row(&buffer, 3), "      ");
    assert_eq!(buffer.cells[0][0].style, Some(Style::new().foreground(Color::Red)));
    assert_eq!(buffer.cells[1][1].style, None);
}

#[test]
fn border_too_small_for_a_view_is_only_a_box() {
    let view = Border::new(Stroke::SolidRounded, label("hello")).background(Color::Red);
    let mut buffer = Buffer::new(Dimensions::new(3, 3));
    Widget::Border(view).render(&Rect::new_from_raw(0, 0, 2, 2), &mut buffer);
    assert_eq!(row(&buffer, 0), "╭╮ ");
    assert_eq!(row(&buffer, 1), "╰╯ ");
    assert_eq!(row(&buffer, 2), "   ");
}

#[test]
fn views_nest() {
    let view = Widget::Border(Border::new(
        Stroke::Solid,
        Widget::Padding(Padding::horizontal(
            1,
            Widget::Styled(Styled::new(label("ab")).italic()),
        )),
    ));
    assert_eq!(
        view.sizing(&Dimensions::new(20, 20)),
        Constraints::new(Sizing::Fixed(6), Sizing::Fixed(3))
    );
    let mut buffer = Buffer::new(Dimensions::new(6, 3));
    view.render(&Rect::new_from_raw(0, 0, 6, 3), &mut buffer);
    assert_eq!(row(&buffer, 1), format!("{0} ab {0}", V_LINE));
    assert_eq!(buffer.cells[1][1].style, None);
    assert_eq!(buffer.cells[1][2].style, Some(Style::new().italic()));
    assert_eq!(buffer.cells[1][3].style, Some(Style::new().italic()));
    assert_eq!(buffer.cells[1][4].style, None);
}
