use buckle::{Align, Constraints, ContainerSizing, Dimensions, Dir, Layout, Point, Rect, Sizing};

#[test]
fn point_new_zero_and_rotate() {
    assert_eq!(Point::new(3, 4), Point { x: 3, y: 4 });
    assert_eq!(Point::zero(), Point { x: 0, y: 0 });
    let mut p = Point::new(3, 4);
    p.rotate();
    assert_eq!(p, Point::new(4, 3));
}

#[test]
fn dimensions_new_zero_and_rotate() {
    assert_eq!(Dimensions::new(3, 4), Dimensions { width: 3, height: 4 });
    assert_eq!(Dimensions::zero(), Dimensions { width: 0, height: 0 });
    let mut d = Dimensions::new(3, 4);
    d.rotate();
    assert_eq!(d, Dimensions::new(4, 3));
}

#[test]
fn rect_new_and_rotate() {
    let r = Rect::new(Point::new(1, 2), Dimensions::new(3, 4));
    assert_eq!(r, Rect::new_from_raw(1, 2, 3, 4));
    let mut r = r;
    r.rotate();
    assert_eq!(r, Rect::new_from_raw(2, 1, 4, 3));
    r.rotate();
    assert_eq!(r, Rect::new_from_raw(1, 2, 3, 4));
}

#[test]
fn rect_inset_takes_cells_off_the_sides() {
    let r = Rect::new_from_raw(10, 20, 8, 6);
    assert_eq!(r.inset(1, 2, 3, 1), Rect::new_from_raw(11, 23, 5, 2));
    assert_eq!(r.inset(0, 0, 0, 0), r);
}

#[test]
fn rect_inset_takes_no_more_than_is_there() {
    let r = Rect::new_from_raw(10, 20, 3, 1);
    assert_eq!(r.inset(2, 2, 1, 1), Rect::new_from_raw(12, 21, 0, 0));
    assert_eq!(r.inset(9, 0, 0, 9), Rect::new_from_raw(13, 20, 0, 0));
}

#[test]
fn container_sizing_simplify() {
    assert_eq!(ContainerSizing::Hug.simplify(7), Sizing::Fixed(7));
    assert_eq!(ContainerSizing::Fill.simplify(7), Sizing::Fill);
    assert_eq!(ContainerSizing::Fixed(3).simplify(7), Sizing::Fixed(3));
}

#[test]
fn sizing_constrain_and_grow() {
    assert_eq!(Sizing::Fill.constrain_by(5), Sizing::Fill);
    assert_eq!(Sizing::Fixed(9).constrain_by(5), Sizing::Fixed(5));
    assert_eq!(Sizing::Fixed(3).constrain_by(5), Sizing::Fixed(3));
    assert_eq!(Sizing::Fill.grow_by(2, 10), Sizing::Fill);
    assert_eq!(Sizing::Fixed(3).grow_by(2, 10), Sizing::Fixed(5));
    assert_eq!(Sizing::Fixed(9).grow_by(2, 10), Sizing::Fixed(10));
    assert_eq!(Sizing::Fixed(12).grow_by(2, 10), Sizing::Fixed(10));
    assert_eq!(Sizing::Fixed(usize::MAX).grow_by(usize::MAX, usize::MAX), Sizing::Fixed(usize::MAX));
}

#[test]
fn layout_builders_and_default() {
    assert_eq!(
        Layout::default(),
        Layout::Packed { v: Align::Start, h: Align::Start }
    );
    assert_eq!(
        Layout::packed(Align::Center, Align::End),
        Layout::Packed { v: Align::Center, h: Align::End }
    );
    assert_eq!(
        Layout::fixed(Align::Center, Align::End, 3),
        Layout::Spaced { v: Align::Center, h: Align::End, spacing: 3 }
    );
    assert_eq!(
        Layout::even(Align::Center, Align::End),
        Layout::Spread { v: Align::Center, h: Align::End }
    );
}

#[test]
fn layout_alignments_and_rotate() {
    for layout in [
        Layout::packed(Align::Center, Align::End),
        Layout::fixed(Align::Center, Align::End, 3),
        Layout::even(Align::Center, Align::End),
    ] {
        assert_eq!(*layout.vertical(), Align::Center);
        assert_eq!(*layout.horizontal(), Align::End);
        let mut turned = layout.clone();
        turned.rotate();
        assert_eq!(*turned.vertical(), Align::End);
        assert_eq!(*turned.horizontal(), Align::Center);
        turned.rotate();
        assert_eq!(turned, layout);
    }
    let mut spaced = Layout::fixed(Align::Start, Align::End, 3);
    spaced.rotate();
    assert_eq!(spaced, Layout::fixed(Align::End, Align::Start, 3));
}

#[test]
fn constraints_new_and_rotate() {
    let mut c = Constraints::new(Sizing::Fixed(2), Sizing::Fill);
    assert_eq!(c.width, Sizing::Fixed(2));
    assert_eq!(c.height, Sizing::Fill);
    c.rotate();
    assert_eq!(c, Constraints::new(Sizing::Fill, Sizing::Fixed(2)));
}

#[test]
fn dir_values_differ() {
    assert_ne!(Dir::Horizontal, Dir::Vertical);
}
