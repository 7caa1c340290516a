use buckle::buffer::{DOWN_HORIZONTAL, H_LINE, UP_HORIZONTAL, VERTICAL_LEFT, VERTICAL_RIGHT, V_LINE};
use buckle::{
    Align, Auto, Buffer, Cell, Constraints, ContainerSizing, Corners, DiffResult, Dimensions, Dir,
    FillStyle, Label, Layout, LineStyle, Pin, PinBoard, PinOrigin, Point, Rect, Rule, Screen,
    ScrollBox, Sizing, Spacer, Stroke, Style, TerminalEvent, Widget,
};
use crossterm::style::Color;

fn row(buffer: &Buffer, y: usize) -> String {
    buffer.cells[y].iter().map(|cell| cell.content).collect()
}

fn label(text: &str) -> Widget {
    Widget::Label(Label::new(text))
}

fn block(width: usize, height: usize, glyph: char) -> Widget {
    Widget::Auto(
        Auto::horizontal()
            .width(ContainerSizing::Fixed(width))
            .height(ContainerSizing::Fixed(height))
            .fill(FillStyle::new(Some(glyph), Style::new())),
    )
}

#[test]
fn auto_constructors() {
    let auto = Auto::vertical();
    assert_eq!(auto.dir, Dir::Vertical);
    assert_eq!(auto.layout, Layout::default());
    assert_eq!(auto.width, ContainerSizing::Fill);
    assert_eq!(auto.height, ContainerSizing::Fill);
    assert!(auto.items.is_empty());
    let auto = Auto::horizontal();
    assert_eq!(auto.dir, Dir::Horizontal);
    let auto = Auto::new(
        Dir::Vertical,
        Layout::even(Align::Center, Align::End),
        ContainerSizing::Hug,
        ContainerSizing::Fixed(3),
    );
    assert_eq!(auto.layout, Layout::even(Align::Center, Align::End));
    assert_eq!(auto.width, ContainerSizing::Hug);
    assert_eq!(auto.height, ContainerSizing::Fixed(3));
    let auto = auto
        .layout(Layout::default())
        .width(ContainerSizing::Fill)
        .height(ContainerSizing::Hug);
    assert_eq!(auto.layout, Layout::default());
    assert_eq!(auto.width, ContainerSizing::Fill);
    assert_eq!(auto.height, ContainerSizing::Hug);
}

#[test]
fn auto_collects_its_children_in_order() {
    let auto = Auto::horizontal()
        .add(label("a"))
        .maybe_add(false, label("b"))
        .maybe_add(true, label("c"))
        .add_each(vec![label("d"), label("e")])
        .rule(None)
        .split();
    let texts: Vec<String> = auto
        .items
        .iter()
        .map(|item| match item {
            Widget::Label(l) => l.text.clone(),
            Widget::Rule(r) => format!("rule {:?}", r.dir),
            Widget::Split(r) => format!("split {:?}", r.dir),
            _ => panic!("not added"),
        })
        .collect();
    assert_eq!(texts, vec!["a", "c", "d", "e", "rule Vertical", "split Vertical"]);
    let auto = Auto::vertical().rule(Some(Style::new().bold())).split();
    match (&auto.items[0], &auto.items[1]) {
        (Widget::Rule(rule), Widget::Split(split)) => {
            assert_eq!(rule.dir, Dir::Horizontal);
            assert_eq!(rule.style, Some(Style::new().bold()));
            assert_eq!(split.dir, Dir::Horizontal);
            assert_eq!(split.style, None);
        }
        _ => panic!("a rule and a split were expected"),
    }
}

#[test]
fn auto_fills_unless_told_otherwise() {
    let auto = Auto::horizontal().add(label("ab")).add(label("cde"));
    assert_eq!(
        auto.sizing(&Dimensions::new(20, 20)),
        Constraints::new(Sizing::Fill, Sizing::Fill)
    );
    let auto = auto.width(ContainerSizing::Fixed(7));
    assert_eq!(
        auto.sizing(&Dimensions::new(20, 20)),
        Constraints::new(Sizing::Fixed(7), Sizing::Fill)
    );
}

#[test]
fn auto_hugs_the_sum_along_and_the_greatest_across() {
    let children = || vec![label("ab"), label("cde"), Widget::Spacer(Spacer::new())];
    let row = Auto::horizontal()
        .width(ContainerSizing::Hug)
        .height(ContainerSizing::Hug)
        .add_each(children());
    assert_eq!(
        row.sizing(&Dimensions::new(20, 20)),
        Constraints::new(Sizing::Fixed(5), Sizing::Fixed(1))
    );
    assert_eq!(
        row.sizing(&Dimensions::new(4, 20)),
        Constraints::new(Sizing::Fixed(4), Sizing::Fixed(1))
    );
    let column = Auto::vertical()
        .width(ContainerSizing::Hug)
        .height(ContainerSizing::Hug)
        .add_each(children());
    assert_eq!(
        column.sizing(&Dimensions::new(20, 20)),
        Constraints::new(Sizing::Fixed(3), Sizing::Fixed(2))
    );
    assert_eq!(
        column.sizing(&Dimensions::new(20, 1)),
        Constraints::new(Sizing::Fixed(3), Sizing::Fixed(1))
    );
    let empty = Auto::vertical().width(ContainerSizing::Hug).height(ContainerSizing::Hug);
    assert_eq!(
        empty.sizing(&Dimensions::new(20, 20)),
        Constraints::new(Sizing::Fixed(0), Sizing::Fixed(0))
    );
}

#[test]
fn auto_with_a_border_hugs_its_children_alone() {
    let auto = Auto::horizontal()
        .width(ContainerSizing::Hug)
        .height(ContainerSizing::Hug)
        .borders(LineStyle::default())
        .add(label("abc"));
    assert_eq!(
        auto.sizing(&Dimensions::new(20, 20)),
        Constraints::new(Sizing::Fixed(3), Sizing::Fixed(1))
    );
    assert_eq!(
        auto.sizing(&Dimensions::new(2, 0)),
        Constraints::new(Sizing::Fixed(2), Sizing::Fixed(0))
    );
    let empty = Auto::vertical()
        .width(ContainerSizing::Hug)
        .height(ContainerSizing::Hug)
        .borders(LineStyle::default());
    assert_eq!(
        empty.sizing(&Dimensions::new(100, 100)),
        Constraints::new(Sizing::Fixed(0), Sizing::Fixed(0))
    );
}

#[test]
fn auto_sizing_does_not_depend_on_border_or_fill() {
    let plain = || {
        Auto::vertical()
            .width(ContainerSizing::Hug)
            .height(ContainerSizing::Hug)
            .add(label("ab"))
            .add(label("cde"))
    };
    let bounds = Dimensions::new(20, 20);
    let expected = Constraints::new(Sizing::Fixed(3), Sizing::Fixed(2));
    assert_eq!(plain().sizing(&bounds), expected);
    assert_eq!(plain().borders(LineStyle::default()).sizing(&bounds), expected);
    assert_eq!(
        plain()
            .borders(LineStyle::default())
            .fill(FillStyle::new(None, Style::new()))
            .sizing(&bounds),
        expected
    );
}

#[test]
fn auto_paints_its_children_side_by_side() {
    let auto = Auto::horizontal().add(label("ab")).add(label("cde"));
    let mut buffer = Buffer::new(Dimensions::new(8, 2));
    auto.render(&Rect::new_from_raw(1, 1, 7, 1), &mut buffer);
    assert_eq!(row(&buffer, 0), "        ");
    assert_eq!(row(&buffer, 1), " abcde  ");
    let auto = Auto::vertical().add(label("ab")).add(label("cde"));
    let mut buffer = Buffer::new(Dimensions::new(4, 3));
    Widget::Auto(auto).render(&Rect::new_from_raw(1, 1, 3, 2), &mut buffer);
    assert_eq!(row(&buffer, 0), "    ");
    assert_eq!(row(&buffer, 1), " ab ");
    assert_eq!(row(&buffer, 2), " cde");
}

#[test]
fn auto_lays_out_with_gaps_and_alignment() {
    let auto = Auto::horizontal()
        .layout(Layout::fixed(Align::End, Align::End, 2))
        .add(label("ab"))
        .add(label("c"));
    let mut buffer = Buffer::new(Dimensions::new(8, 2));
    auto.render(&Rect::new_from_raw(0, 0, 8, 2), &mut buffer);
    assert_eq!(row(&buffer, 0), "        ");
    assert_eq!(row(&buffer, 1), "   ab  c");
}

#[test]
fn auto_skips_a_child_that_starts_at_the_far_edge() {
    let auto = Auto::horizontal()
        .add(label("abc"))
        .add(label("def"))
        .add(label("ghi"));
    let mut buffer = Buffer::new(Dimensions::new(6, 1));
    auto.render(&Rect::new_from_raw(0, 0, 4, 1), &mut buffer);
    assert_eq!(row(&buffer, 0), "abcd  ");
}

#[test]
fn auto_paints_fill_and_border_before_its_children() {
    let fill = Style::new().background(Color::Blue);
    let line = Style::new().foreground(Color::Red);
    let auto = Auto::horizontal()
        .borders(LineStyle::new(Corners::Rounded, Stroke::Solid, Some(line)))
        .fill(FillStyle::new(Some('.'), fill))
        .add(label("ab"));
    let mut buffer = Buffer::new(Dimensions::new(6, 4));
    auto.render(&Rect::new_from_raw(0, 0, 6, 4), &mut buffer);
    assert_eq!(row(&buffer, 0), "╭────╮");
    assert_eq!(row(&buffer, 1), "│ab..│");
    assert_eq!(row(&buffer, 2), "│....│");
    assert_eq!(row(&buffer, 3), "╰────╯");
    assert_eq!(buffer.cells[2][2].style, Some(fill));
    assert_eq!(buffer.cells[1][1].style, Some(fill));
    assert_eq!(
        buffer.cells[0][0].style,
        Some(Style::new().background(Color::Blue).foreground(Color::Red))
    );
}

#[test]
fn split_in_a_column_is_joined_to_the_border() {
    let auto = Auto::vertical()
        .borders(LineStyle::default())
        .add(label("a"))
        .split()
        .add(label("b"))
        .rule(None)
        .add(label("c"));
    let mut buffer = Buffer::new(Dimensions::new(5, 7));
    auto.render(&Rect::new_from_raw(0, 0, 5, 7), &mut buffer);
    assert_eq!(row(&buffer, 0), "┌───┐");
    assert_eq!(row(&buffer, 1), "│a  │");
    assert_eq!(row(&buffer, 2), format!("{0}{1}{1}{1}{2}", VERTICAL_RIGHT, H_LINE, VERTICAL_LEFT));
    assert_eq!(row(&buffer, 3), "│b  │");
    assert_eq!(row(&buffer, 4), "│───│");
    assert_eq!(row(&buffer, 5), "│c  │");
    assert_eq!(row(&buffer, 6), "└───┘");
}

#[test]
fn split_in_a_row_is_joined_to_the_border() {
    let auto = Auto::horizontal()
        .borders(LineStyle::default())
        .add(label("a"))
        .split()
        .add(label("b"));
    let mut buffer = Buffer::new(Dimensions::new(5, 3));
    auto.render(&Rect::new_from_raw(0, 0, 5, 3), &mut buffer);
    assert_eq!(row(&buffer, 0), format!("┌─{}─┐", DOWN_HORIZONTAL));
    assert_eq!(row(&buffer, 1), format!("│a{}b│", V_LINE));
    assert_eq!(row(&buffer, 2), format!("└─{}─┘", UP_HORIZONTAL));
}

#[test]
fn split_without_a_border_is_a_line() {
    let auto = Auto::vertical().add(label("a")).split().add(label("b"));
    let mut buffer = Buffer::new(Dimensions::new(3, 3));
    auto.render(&Rect::new_from_raw(0, 0, 3, 3), &mut buffer);
    assert_eq!(row(&buffer, 0), "a  ");
    assert_eq!(row(&buffer, 1), "───");
    assert_eq!(row(&buffer, 2), "b  ");
}

#[test]
fn pin_origin_places_by_corner_and_centre() {
    let board = Rect::new_from_raw(0, 0, 50, 20);
    let request = Constraints::new(Sizing::Fixed(10), Sizing::Fixed(2));
    let offset = Point::new(2, 1);
    assert_eq!(
        PinOrigin::BottomRight(offset).place(&request, &board),
        Rect::new_from_raw(38, 17, 10, 2)
    );
    assert_eq!(
        PinOrigin::TopLeft(offset).place(&request, &board),
        Rect::new_from_raw(2, 1, 10, 2)
    );
    assert_eq!(
        PinOrigin::TopRight(offset).place(&request, &board),
        Rect::new_from_raw(38, 1, 10, 2)
    );
    assert_eq!(
        PinOrigin::BottomLeft(offset).place(&request, &board),
        Rect::new_from_raw(2, 17, 10, 2)
    );
    assert_eq!(
        PinOrigin::Center.place(&request, &board),
        Rect::new_from_raw(20, 9, 10, 2)
    );
}

#[test]
fn pin_origin_counts_from_the_origin_of_the_board() {
    let board = Rect::new_from_raw(100, 200, 50, 20);
    let request = Constraints::new(Sizing::Fixed(10), Sizing::Fixed(2));
    assert_eq!(
        PinOrigin::BottomRight(Point::new(2, 1)).place(&request, &board),
        Rect::new_from_raw(138, 217, 10, 2)
    );
    assert_eq!(
        PinOrigin::Center.place(&Constraints::new(Sizing::Fixed(9), Sizing::Fixed(3)), &board),
        Rect::new_from_raw(120, 208, 9, 3)
    );
}

#[test]
fn pin_origin_gives_fill_the_room_and_clamps_fixed() {
    let board = Rect::new_from_raw(0, 0, 50, 20);
    let fill = Constraints::new(Sizing::Fill, Sizing::Fill);
    assert_eq!(
        PinOrigin::TopRight(Point::new(5, 4)).place(&fill, &board),
        Rect::new_from_raw(0, 4, 45, 16)
    );
    assert_eq!(PinOrigin::Center.place(&fill, &board), board);
    let large = Constraints::new(Sizing::Fixed(80), Sizing::Fixed(80));
    assert_eq!(
        PinOrigin::BottomLeft(Point::new(5, 4)).place(&large, &board),
        Rect::new_from_raw(5, 0, 45, 16)
    );
    assert_eq!(PinOrigin::Center.place(&large, &board), board);
}

#[test]
fn pin_origin_has_no_room_beyond_the_board() {
    let board = Dimensions::new(50, 20);
    assert_eq!(
        PinOrigin::TopLeft(Point::new(10, 4)).space(&board),
        Some(Dimensions::new(40, 16))
    );
    assert_eq!(
        PinOrigin::BottomRight(Point::new(50, 20)).space(&board),
        Some(Dimensions::new(0, 0))
    );
    assert_eq!(PinOrigin::TopRight(Point::new(51, 0)).space(&board), None);
    assert_eq!(PinOrigin::BottomLeft(Point::new(0, 21)).space(&board), None);
    assert_eq!(PinOrigin::Center.space(&board), Some(board));
}

#[test]
fn pin_board_asks_for_what_it_was_told() {
    let board = PinBoard::new(Sizing::Fixed(7), Sizing::Fill);
    assert_eq!(
        board.sizing(&Dimensions::new(3, 3)),
        Constraints::new(Sizing::Fixed(7), Sizing::Fill)
    );
    assert!(board.pins.is_empty());
    let board = board
        .add(PinOrigin::Center, label("a"))
        .maybe_add(false, PinOrigin::Center, label("b"))
        .maybe_add(true, PinOrigin::TopLeft(Point::zero()), label("c"));
    assert_eq!(board.pins.len(), 2);
    assert_eq!(board.pins[0].origin, PinOrigin::Center);
    assert_eq!(board.pins[1].origin, PinOrigin::TopLeft(Point::zero()));
    let pin = Pin::new(PinOrigin::TopRight(Point::new(1, 2)), label("p"));
    assert_eq!(pin.origin, PinOrigin::TopRight(Point::new(1, 2)));
}

#[test]
fn pin_board_paints_a_pinned_view_at_its_corner() {
    let board = PinBoard::new(Sizing::Fill, Sizing::Fill)
        .add(PinOrigin::BottomRight(Point::new(2, 1)), block(10, 2, '#'));
    let mut buffer = Buffer::new(Dimensions::new(50, 20));
    board.render(&Rect::new_from_raw(0, 0, 50, 20), &mut buffer);
    for y in 0..20 {
        for x in 0..50 {
            let inside = (38..48).contains(&x) && (17..19).contains(&y);
            assert_eq!(buffer.cells[y][x].content, if inside { '#' } else { ' ' });
        }
    }
}

#[test]
fn pin_board_paints_later_pins_over_earlier_ones() {
    let board = PinBoard::new(Sizing::Fill, Sizing::Fill)
        .add(PinOrigin::TopLeft(Point::zero()), label("Top Left"))
        .add(PinOrigin::TopRight(Point::zero()), label("Right"))
        .add(PinOrigin::BottomLeft(Point::new(1, 0)), label("low"))
        .add(PinOrigin::Center, label("mid"))
        .add(PinOrigin::TopLeft(Point::new(4, 0)), label("X"))
        .add(PinOrigin::TopLeft(Point::new(99, 0)), label("nowhere"));
    let mut buffer = Buffer::new(Dimensions::new(14, 5));
    Widget::PinBoard(board).render(&Rect::new_from_raw(1, 1, 13, 3), &mut buffer);
    assert_eq!(row(&buffer, 0), "              ");
    assert_eq!(row(&buffer, 1), " Top XeftRight");
    assert_eq!(row(&buffer, 2), "      mid     ");
    assert_eq!(row(&buffer, 3), "  low         ");
    assert_eq!(row(&buffer, 4), "              ");
}

#[test]
fn pin_board_with_border_and_fill_pins_inside_the_border() {
    let board = PinBoard::new(Sizing::Fill, Sizing::Fill)
        .borders(LineStyle::default())
        .fill(FillStyle::new(Some('.'), Style::new()))
        .add(PinOrigin::TopLeft(Point::zero()), label("a"))
        .add(PinOrigin::BottomRight(Point::zero()), label("b"))
        .add(PinOrigin::Center, label("c"));
    let mut buffer = Buffer::new(Dimensions::new(5, 5));
    board.render(&Rect::new_from_raw(0, 0, 5, 5), &mut buffer);
    assert_eq!(row(&buffer, 0), "┌───┐");
    assert_eq!(row(&buffer, 1), "│a..│");
    assert_eq!(row(&buffer, 2), "│.c.│");
    assert_eq!(row(&buffer, 3), "│..b│");
    assert_eq!(row(&buffer, 4), "└───┘");
}

fn numbered(count: usize, position: usize, dir: Dir) -> ScrollBox {
    let mut view = match dir {
        Dir::Vertical => ScrollBox::vertical(position),
        Dir::Horizontal => ScrollBox::horizontal(position),
    };
    for i in 0..count {
        let text = match dir {
            Dir::Vertical => format!("row{}", i),
            Dir::Horizontal => format!("{}", i % 10),
        };
        view = view.add(Widget::Label(Label::new(&text)));
    }
    view
}

#[test]
fn scroll_box_at_the_start_shows_the_first_rows() {
    let view = numbered(10, 0, Dir::Vertical);
    let mut buffer = Buffer::new(Dimensions::new(6, 5));
    view.render(&Rect::new_from_raw(1, 1, 4, 3), &mut buffer);
    assert_eq!(row(&buffer, 0), "      ");
    assert_eq!(row(&buffer, 1), " row0 ");
    assert_eq!(row(&buffer, 2), " row1 ");
    assert_eq!(row(&buffer, 3), " row2 ");
    assert_eq!(row(&buffer, 4), "      ");
}

#[test]
fn scroll_box_shows_the_rows_from_its_position_on() {
    let view = numbered(10, 4, Dir::Vertical);
    let mut buffer = Buffer::new(Dimensions::new(6, 5));
    Widget::ScrollBox(view).render(&Rect::new_from_raw(1, 1, 4, 3), &mut buffer);
    assert_eq!(row(&buffer, 1), " row4 ");
    assert_eq!(row(&buffer, 2), " row5 ");
    assert_eq!(row(&buffer, 3), " row6 ");

    let mut unclipped = Buffer::new(Dimensions::new(4, 12));
    let all = Auto::vertical()
        .width(ContainerSizing::Hug)
        .add_each((0..10).map(|i| Widget::Label(Label::new(&format!("row{}", i)))).collect());
    all.render(&Rect::new_from_raw(0, 0, 4, 12), &mut unclipped);
    for y in 0..3 {
        for x in 0..4 {
            assert_eq!(buffer.cells[1 + y][1 + x], unclipped.cells[4 + y][x]);
        }
    }
}

#[test]
fn scroll_box_replaces_what_its_rectangle_showed() {
    let view = numbered(2, 1, Dir::Vertical);
    let mut buffer = Buffer::new(Dimensions::new(5, 4));
    buffer.draw_fill(&Rect::new_from_raw(0, 0, 5, 4), Style::new().bold(), Some('#'));
    view.render(&Rect::new_from_raw(1, 1, 4, 2), &mut buffer);
    assert_eq!(row(&buffer, 0), "#####");
    assert_eq!(row(&buffer, 1), "#row1");
    assert_eq!(row(&buffer, 2), "#    ");
    assert_eq!(row(&buffer, 3), "#####");
    assert_eq!(buffer.cells[1][1], Cell { content: 'r', style: None });
    assert_eq!(buffer.cells[0][1].style, Some(Style::new().bold()));
}

#[test]
fn scroll_box_scrolls_a_row_sideways() {
    let view = numbered(12, 3, Dir::Horizontal);
    let mut buffer = Buffer::new(Dimensions::new(6, 2));
    view.render(&Rect::new_from_raw(0, 0, 5, 2), &mut buffer);
    assert_eq!(row(&buffer, 0), "34567 ");
    assert_eq!(row(&buffer, 1), "      ");
}

#[test]
fn scroll_box_beyond_its_canvas_leaves_the_rest_as_it_was() {
    let view = numbered(3, 998, Dir::Vertical);
    let mut buffer = Buffer::new(Dimensions::new(2, 4));
    buffer.draw_fill(&Rect::new_from_raw(0, 0, 2, 4), Style::new(), Some('#'));
    view.render(&Rect::new_from_raw(0, 0, 2, 4), &mut buffer);
    assert_eq!(row(&buffer, 0), "  ");
    assert_eq!(row(&buffer, 1), "  ");
    assert_eq!(row(&buffer, 2), "##");
    assert_eq!(row(&buffer, 3), "##");
    let view = numbered(3, usize::MAX, Dir::Horizontal);
    let mut buffer = Buffer::new(Dimensions::new(2, 2));
    buffer.draw_fill(&Rect::new_from_raw(0, 0, 2, 2), Style::new(), Some('#'));
    view.render(&Rect::new_from_raw(0, 0, 2, 2), &mut buffer);
    assert_eq!(row(&buffer, 0), "##");
}

#[test]
fn scroll_box_asks_for_what_it_was_told_within_the_bounds() {
    let view = ScrollBox::vertical(2);
    assert_eq!(view.position, 2);
    assert_eq!(view.dir, Dir::Vertical);
    assert_eq!(view.contents.dir, Dir::Vertical);
    assert_eq!(view.contents.width, ContainerSizing::Hug);
    assert_eq!(
        view.sizing(&Dimensions::new(20, 10)),
        Constraints::new(Sizing::Fill, Sizing::Fill)
    );
    let view = view.width(Sizing::Fixed(50)).height(Sizing::Fixed(5));
    assert_eq!(
        view.sizing(&Dimensions::new(20, 10)),
        Constraints::new(Sizing::Fixed(20), Sizing::Fixed(5))
    );
    let view = ScrollBox::horizontal(0);
    assert_eq!(view.dir, Dir::Horizontal);
    assert_eq!(view.contents.dir, Dir::Horizontal);
    assert_eq!(view.contents.height, ContainerSizing::Hug);
}

#[test]
fn containers_nest() {
    let view = Widget::PinBoard(
        PinBoard::new(Sizing::Fill, Sizing::Fill).add(
            PinOrigin::TopLeft(Point::new(1, 0)),
            Widget::Auto(
                Auto::vertical()
                    .width(ContainerSizing::Fixed(4))
                    .height(ContainerSizing::Hug)
                    .add(Widget::Rule(Rule::new(Dir::Horizontal)))
                    .add(Widget::Auto(Auto::horizontal().height(ContainerSizing::Hug).add(label("ab")).add(label("cd")))),
            ),
        ),
    );
    let mut buffer = Buffer::new(Dimensions::new(6, 3));
    view.render(&Rect::new_from_raw(0, 0, 6, 3), &mut buffer);
    assert_eq!(row(&buffer, 0), " ──── ");
    assert_eq!(row(&buffer, 1), " abcd ");
    assert_eq!(row(&buffer, 2), "      ");
}

#[test]
fn screen_starts_blank() {
    let screen = Screen::new(4, 2);
    assert_eq!(screen.buffer, Buffer::new(Dimensions::new(4, 2)));
    assert_eq!(Screen::prepare_buffer(3, 5), Buffer::new(Dimensions::new(3, 5)));
}

#[test]
fn screen_keeps_its_frame_when_nothing_changed() {
    let mut screen = Screen::new(4, 2);
    let result = screen.update(Buffer::new(Dimensions::new(4, 2)));
    assert!(matches!(result, DiffResult::NoChange));
    assert_eq!(screen.buffer, Buffer::new(Dimensions::new(4, 2)));
}

#[test]
fn screen_takes_the_new_frame_and_lists_the_changes() {
    let mut screen = Screen::new(4, 2);
    let mut next = Screen::prepare_buffer(4, 2);
    next.draw_text(&Point::new(1, 1), "hi", &None);
    let result = screen.update(next.clone());
    match result {
        DiffResult::Changed(changes) => assert_eq!(
            changes,
            vec![
                (Point::new(1, 1), Cell { content: 'h', style: None }),
                (Point::new(2, 1), Cell { content: 'i', style: None }),
            ]
        ),
        _ => panic!("changes were expected"),
    }
    assert_eq!(screen.buffer, next);
    assert!(matches!(screen.update(next), DiffResult::NoChange));
}

#[test]
fn screen_refuses_a_frame_of_another_size() {
    let mut screen = Screen::new(4, 2);
    let mut next = Screen::prepare_buffer(4, 3);
    next.draw_text(&Point::new(1, 1), "hi", &None);
    assert!(matches!(screen.update(next), DiffResult::Invalid));
    assert_eq!(screen.buffer, Buffer::new(Dimensions::new(4, 2)));
}

#[test]
fn screen_resize_blanks_the_frame_at_the_new_size() {
    let mut screen = Screen::new(4, 2);
    let mut next = Screen::prepare_buffer(4, 2);
    next.draw_text(&Point::new(1, 1), "hi", &None);
    screen.update(next.clone());
    assert!(!screen.resize(4, 2));
    assert_eq!(screen.buffer, next);
    assert!(screen.resize(5, 2));
    assert_eq!(screen.buffer, Buffer::new(Dimensions::new(5, 2)));
    assert!(screen.resize(5, 3));
    assert_eq!(screen.buffer, Buffer::new(Dimensions::new(5, 3)));
}

fn never(event: TerminalEvent) -> usize {
    match event {}
}

#[test]
fn terminal_event_has_no_value() {
    assert_eq!(std::mem::size_of::<TerminalEvent>(), 0);
    let events: Vec<TerminalEvent> = Vec::new();
    assert_eq!(events.into_iter().map(never).sum::<usize>(), 0);
}
