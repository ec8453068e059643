use par_layout::boxes::{BoxLayout, LayoutConstraints, LayoutItem, LayoutSpace};
use par_layout::geom::{Dir, Gen2, GenAlign, Point, Rect, Side, Size, Spec2, SpecAxis};
use par_layout::length::{difference, fitted, max_length, min_length, sum};
use par_layout::par::{Par, ParLayouter};

const START: GenAlign = GenAlign::Start;

fn size(width: i64, height: i64) -> Size {
    Size { width, height }
}

fn space(width: i64, height: i64) -> LayoutSpace {
    LayoutSpace { base: size(width, height), size: size(width, height) }
}

fn par(children: Vec<&'static str>) -> Par<&'static str> {
    Par {
        dirs: Gen2::new(Dir::TTB, Dir::LTR),
        line_spacing: 5,
        children,
        aligns: Gen2::new(GenAlign::Center, GenAlign::End),
        expand: Spec2 { horizontal: true, vertical: false },
    }
}

fn constraints(repeat: bool) -> LayoutConstraints {
    LayoutConstraints { spaces: vec![space(100, 200)], repeat }
}

fn item(width: i64, height: i64, element: u32) -> LayoutItem<u32> {
    let elements = vec![(Point { x2: 0, y2: 0 }, element)];
    LayoutItem::Box(
        BoxLayout { size: size(width, height), elements },
        Gen2::new(START, START),
    )
}

#[test]
fn paragraph_without_children_is_one_box() {
    let layouter: ParLayouter<u32> = par(vec![]).start(constraints(true));
    assert_eq!(layouter.request(), None);
    assert_eq!(
        layouter.finish(),
        vec![LayoutItem::Box(
            BoxLayout { size: size(100, 0), elements: vec![] },
            Gen2::new(GenAlign::Center, GenAlign::End),
        )]
    );
}

#[test]
fn children_are_asked_one_after_the_other() {
    let mut layouter: ParLayouter<u32> = par(vec!["a", "b"]).start(constraints(false));
    let (index, first) = layouter.request().unwrap();
    assert_eq!(index, 0);
    assert_eq!(first.repeat, false);
    assert_eq!(first.spaces, vec![space(100, 200), space(100, 200)]);
    layouter.accept(vec![item(30, 10, 1)]);

    let (index, second) = layouter.request().unwrap();
    assert_eq!(index, 1);
    assert_eq!(
        second.spaces,
        vec![LayoutSpace { base: size(100, 200), size: size(100, 190) }, space(100, 200)]
    );
    layouter.accept(vec![LayoutItem::Spacing(4), item(30, 20, 2), item(50, 10, 3)]);
    assert_eq!(layouter.request(), None);

    let elements = vec![
        (Point { x2: 0, y2: 0 }, 1),
        (Point { x2: 68, y2: 0 }, 2),
        (Point { x2: 0, y2: 50 }, 3),
    ];
    assert_eq!(
        layouter.finish(),
        vec![LayoutItem::Box(
            // Two lines of twenty and ten, with line spacing between them.
            BoxLayout { size: size(100, 35), elements },
            Gen2::new(GenAlign::Center, GenAlign::End),
        )]
    );
}

#[test]
fn items_may_come_in_parts() {
    let items = vec![item(60, 10, 1), LayoutItem::Spacing(3), item(30, 20, 2), item(50, 10, 3)];
    let mut whole: ParLayouter<u32> = par(vec!["a"]).start(constraints(true));
    whole.accept(items.clone());
    let mut parts: ParLayouter<u32> = par(vec!["a", "b", "c", "d"]).start(constraints(true));
    for item in items {
        parts.accept(vec![item]);
    }
    assert_eq!(whole.finish(), parts.finish());
}

#[test]
fn paragraph_spills_over_into_copies_of_the_space() {
    let mut layouter: ParLayouter<u32> = par(vec!["a"]).start(constraints(true));
    layouter.accept(vec![item(60, 150, 1), item(60, 150, 2), item(60, 150, 3)]);
    assert_eq!(layouter.finish().len(), 3);
}

#[test]
fn paragraph_does_not_spill_over_without_repetition() {
    let mut layouter: ParLayouter<u32> = par(vec!["a"]).start(constraints(false));
    layouter.accept(vec![item(60, 150, 1), item(60, 150, 2), item(60, 150, 3)]);
    assert_eq!(layouter.finish().len(), 1);
}

#[test]
fn lengths_are_fitted() {
    assert_eq!(fitted(-7), -7);
    assert_eq!(fitted(i64::MAX as i128 + 1), i64::MAX);
    assert_eq!(fitted(i64::MIN as i128 - 1), i64::MIN);
    assert_eq!(sum(i64::MAX, 1), i64::MAX);
    assert_eq!(sum(3, -5), -2);
    assert_eq!(difference(i64::MIN, 1), i64::MIN);
    assert_eq!(difference(3, -5), 8);
    assert_eq!(min_length(3, -5), -5);
    assert_eq!(max_length(3, -5), 3);
}

#[test]
fn directions_have_axes_and_sides() {
    assert_eq!(Dir::LTR.axis(), SpecAxis::Horizontal);
    assert_eq!(Dir::BTT.axis(), SpecAxis::Vertical);
    assert_eq!((Dir::RTL.start(), Dir::RTL.end()), (Side::Right, Side::Left));
    assert_eq!((Dir::TTB.start(), Dir::TTB.end()), (Side::Top, Side::Bottom));
    assert!(Dir::TTB.is_positive() && !Dir::RTL.is_positive());
    assert_eq!(Dir::BTT.signed(4), -4);
}

#[test]
fn sizes_switch_axes() {
    let dirs = Gen2::new(Dir::BTT, Dir::LTR);
    assert_eq!(size(3, 7).switch(dirs), Gen2::new(7, 3));
    assert_eq!(Gen2::new(7, 3).switch(dirs).to_size(), size(3, 7));
    assert_eq!(Gen2::new(7, 3).switch(dirs).to_point(), Point { x2: 6, y2: 14 });
    assert!(size(3, 7).fits(size(3, 7)));
    assert!(!size(3, 7).fits(size(4, 1)));
    assert!(!size(3, 7).fits(size(1, 8)));
    assert_eq!(size(3, 7).with(SpecAxis::Vertical, 9), size(3, 9));
}

#[test]
fn sides_move_alone() {
    let mut rect = Rect { x0: 0, y0: 1, x1: 2, y1: 3 };
    rect.shift_side(Side::Right, 5);
    rect.shift_side(Side::Top, -5);
    assert_eq!(rect, Rect { x0: 0, y0: -4, x1: 7, y1: 3 });
}

#[test]
fn alignments_place_between_bounds() {
    assert_eq!(GenAlign::Center.place(Dir::LTR, 10, 21, 4), 27);
    assert_eq!(GenAlign::End.place(Dir::LTR, 10, 21, 4), 34);
    assert_eq!(GenAlign::End.place(Dir::RTL, 10, 21, 4), 20);
    assert_eq!(GenAlign::Start.place(Dir::BTT, 10, 21, 4), 34);
}
