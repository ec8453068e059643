use par_layout::boxes::{BoxLayout, LayoutSpace};
use par_layout::geom::{Dir, Gen2, GenAlign, Point, Size, Spec2};
use par_layout::stack::{StackContext, StackLayouter};

const START: GenAlign = GenAlign::Start;
const CENTER: GenAlign = GenAlign::Center;
const END: GenAlign = GenAlign::End;

fn size(width: i64, height: i64) -> Size {
    Size { width, height }
}

fn space(width: i64, height: i64) -> LayoutSpace {
    LayoutSpace { base: size(width, height), size: size(width, height) }
}

fn stack(main: Dir, cross: Dir, spaces: Vec<LayoutSpace>, repeat: bool, expand: bool) -> StackLayouter<u32> {
    StackLayouter::new(StackContext {
        dirs: Gen2::new(main, cross),
        spaces,
        repeat,
        expand: Spec2 { horizontal: expand, vertical: expand },
    })
}

fn page(repeat: bool) -> StackLayouter<u32> {
    stack(Dir::TTB, Dir::LTR, vec![space(100, 60)], repeat, true)
}

/// A box with one element at its origin.
fn boxed(width: i64, height: i64, element: u32) -> BoxLayout<u32> {
    BoxLayout { size: size(width, height), elements: vec![(Point { x2: 0, y2: 0 }, element)] }
}

fn aligned(main: GenAlign, cross: GenAlign) -> Gen2<GenAlign> {
    Gen2::new(main, cross)
}

fn at(x2: i64, y2: i64, element: u32) -> (Point, u32) {
    (Point { x2, y2 }, element)
}

#[test]
fn empty_stack_has_one_expanded_box() {
    let boxes = page(true).finish();
    assert_eq!(boxes, vec![BoxLayout { size: size(100, 60), elements: vec![] }]);
}

#[test]
fn empty_stack_has_one_shrunk_box() {
    let boxes = stack(Dir::TTB, Dir::LTR, vec![space(100, 60)], true, false).finish();
    assert_eq!(boxes, vec![BoxLayout { size: size(0, 0), elements: vec![] }]);
}

#[test]
fn boxes_are_stacked_from_top_to_bottom() {
    let mut layouter = page(true);
    layouter.push_box(boxed(30, 10, 1), aligned(START, START));
    layouter.push_box(boxed(40, 20, 2), aligned(START, START));
    assert_eq!(layouter.usable(), size(100, 30));
    assert_eq!(layouter.space.used, size(40, 30));
    let boxes = layouter.finish();
    assert_eq!(boxes.len(), 1);
    assert_eq!(boxes[0].elements, vec![at(0, 0, 1), at(0, 20, 2)]);
}

#[test]
fn boxes_are_stacked_from_bottom_to_top() {
    let mut layouter = stack(Dir::BTT, Dir::LTR, vec![space(100, 60)], true, true);
    layouter.push_box(boxed(30, 10, 1), aligned(START, START));
    layouter.push_box(boxed(40, 20, 2), aligned(START, START));
    assert_eq!(layouter.finish()[0].elements, vec![at(0, 100, 1), at(0, 60, 2)]);
}

#[test]
fn boxes_are_stacked_from_right_to_left() {
    let mut layouter = stack(Dir::RTL, Dir::TTB, vec![space(100, 60)], true, true);
    layouter.push_box(boxed(30, 10, 1), aligned(START, START));
    layouter.push_box(boxed(40, 20, 2), aligned(START, END));
    let boxes = layouter.finish();
    assert_eq!(boxes[0].elements, vec![at(140, 0, 1), at(60, 80, 2)]);
}

#[test]
fn shrunk_box_has_the_used_size() {
    let mut layouter = stack(Dir::TTB, Dir::LTR, vec![space(100, 60)], true, false);
    layouter.push_box(boxed(30, 10, 1), aligned(START, START));
    layouter.push_box(boxed(40, 20, 2), aligned(END, END));
    layouter.push_box(boxed(20, 5, 3), aligned(END, CENTER));
    let boxes = layouter.finish();
    assert_eq!(boxes[0].size, size(40, 35));
    assert_eq!(boxes[0].elements, vec![at(0, 0, 1), at(0, 20, 2), at(20, 60, 3)]);
}

#[test]
fn box_expands_on_one_axis() {
    let mut layouter: StackLayouter<u32> = StackLayouter::new(StackContext {
        dirs: Gen2::new(Dir::TTB, Dir::LTR),
        spaces: vec![space(100, 60)],
        repeat: true,
        expand: Spec2 { horizontal: true, vertical: false },
    });
    layouter.push_box(boxed(30, 10, 1), aligned(START, END));
    let boxes = layouter.finish();
    assert_eq!(boxes[0].size, size(100, 10));
    assert_eq!(boxes[0].elements, vec![at(140, 0, 1)]);
}

#[test]
fn odd_room_is_halved_exactly() {
    let mut layouter = page(true);
    layouter.push_box(boxed(25, 11, 1), aligned(CENTER, CENTER));
    assert_eq!(layouter.finish()[0].elements, vec![at(75, 49, 1)]);
}

#[test]
fn alignments_share_a_space() {
    let mut layouter = page(true);
    layouter.push_box(boxed(10, 10, 1), aligned(START, START));
    layouter.push_box(boxed(10, 10, 2), aligned(CENTER, START));
    layouter.push_box(boxed(10, 10, 3), aligned(END, START));
    let boxes = layouter.finish();
    // The room of thirty is behind the first box, half of it before the second.
    assert_eq!(boxes[0].elements, vec![at(0, 0, 1), at(0, 50, 2), at(0, 100, 3)]);
}

#[test]
fn elements_move_with_their_box() {
    let mut layouter = page(true);
    layouter.push_box(boxed(10, 10, 1), aligned(START, START));
    let two = BoxLayout { size: size(20, 20), elements: vec![at(3, 4, 2), at(-5, 6, 3)] };
    layouter.push_box(two, aligned(START, END));
    assert_eq!(layouter.finish()[0].elements, vec![at(0, 0, 1), at(163, 24, 2), at(155, 26, 3)]);
}

#[test]
fn spacing_offsets_the_next_box() {
    let mut layouter = page(true);
    layouter.push_box(boxed(10, 10, 1), aligned(START, START));
    layouter.push_spacing(7);
    assert_eq!(layouter.usable(), size(100, 43));
    layouter.push_box(boxed(10, 10, 2), aligned(START, START));
    assert_eq!(layouter.finish()[0].elements, vec![at(0, 0, 1), at(0, 34, 2)]);
}

#[test]
fn spacing_is_reduced_to_the_usable_size() {
    let mut layouter = page(true);
    layouter.push_box(boxed(10, 10, 1), aligned(START, START));
    layouter.push_spacing(1000);
    assert_eq!(layouter.usable(), size(100, 0));
    assert_eq!(layouter.space.used, size(10, 60));
}

#[test]
fn negative_spacing_moves_back_up() {
    let mut layouter = page(true);
    layouter.push_box(boxed(10, 10, 1), aligned(START, START));
    layouter.push_spacing(-10);
    assert_eq!(layouter.usable(), size(100, 60));
    layouter.push_box(boxed(10, 10, 2), aligned(START, END));
    assert_eq!(layouter.finish()[0].elements, vec![at(0, 0, 1), at(180, 0, 2)]);
}

#[test]
fn spacing_keeps_the_allowed_alignment() {
    let mut layouter = page(true);
    layouter.push_box(boxed(10, 10, 1), aligned(END, START));
    layouter.push_spacing(5);
    assert_eq!(layouter.space.allowed_align, END);
}

#[test]
fn smaller_alignment_breaks_a_repeating_space() {
    let mut layouter = page(true);
    layouter.push_box(boxed(10, 10, 1), aligned(END, START));
    layouter.push_box(boxed(10, 10, 2), aligned(START, START));
    assert_eq!(layouter.layouts.len(), 1);
    let boxes = layouter.finish();
    assert_eq!(boxes.len(), 2);
    assert_eq!(boxes[0].elements, vec![at(0, 100, 1)]);
    assert_eq!(boxes[1].elements, vec![at(0, 0, 2)]);
}

#[test]
fn smaller_alignment_stays_in_a_single_space() {
    let mut layouter = page(false);
    layouter.push_box(boxed(10, 10, 1), aligned(END, START));
    layouter.push_box(boxed(10, 10, 2), aligned(START, START));
    assert_eq!(layouter.space.allowed_align, START);
    let boxes = layouter.finish();
    assert_eq!(boxes.len(), 1);
    // The room of forty is before the first box; the second stays behind it in
    // the order of the stack.
    assert_eq!(boxes[0].elements, vec![at(0, 80, 1), at(0, 20, 2)]);
}

#[test]
fn full_space_is_followed_by_a_copy() {
    let mut layouter = page(true);
    layouter.push_box(boxed(10, 40, 1), aligned(START, START));
    layouter.push_box(boxed(10, 40, 2), aligned(START, START));
    layouter.push_box(boxed(10, 40, 3), aligned(START, START));
    let boxes = layouter.finish();
    assert_eq!(boxes.len(), 3);
    assert_eq!(boxes[0].elements, vec![at(0, 0, 1)]);
    assert_eq!(boxes[1].elements, vec![at(0, 0, 2)]);
    assert_eq!(boxes[2].elements, vec![at(0, 0, 3)]);
    assert_eq!(boxes[2].size, size(100, 60));
}

#[test]
fn full_single_space_overflows() {
    let mut layouter = page(false);
    layouter.push_box(boxed(10, 40, 1), aligned(START, START));
    layouter.push_box(boxed(10, 40, 2), aligned(START, START));
    assert_eq!(layouter.usable(), size(100, -20));
    let boxes = layouter.finish();
    assert_eq!(boxes.len(), 1);
    assert_eq!(boxes[0].elements, vec![at(0, 0, 1), at(0, 80, 2)]);
}

#[test]
fn skipping_goes_to_the_first_fitting_space() {
    let spaces = vec![space(100, 60), space(100, 20), space(100, 50), space(100, 90)];
    let mut layouter = stack(Dir::TTB, Dir::LTR, spaces, true, true);
    layouter.push_box(boxed(10, 30, 1), aligned(START, START));
    layouter.skip_to_fitting_space(size(100, 40));
    assert_eq!(layouter.space.index, 2);
    assert!(layouter.space.hard);
    assert_eq!(layouter.usable(), size(100, 50));
    // The space in between gets no layout.
    assert_eq!(layouter.layouts.len(), 1);
    assert_eq!(layouter.layouts[0].elements, vec![at(0, 0, 1)]);
}

#[test]
fn skipping_does_nothing_if_nothing_fits() {
    let spaces = vec![space(100, 60), space(100, 20)];
    let mut layouter = stack(Dir::TTB, Dir::LTR, spaces, true, true);
    layouter.push_box(boxed(10, 30, 1), aligned(START, START));
    layouter.skip_to_fitting_space(size(100, 40));
    assert_eq!(layouter.space.index, 0);
    assert_eq!(layouter.layouts.len(), 0);
    assert_eq!(layouter.usable(), size(100, 30));
}

#[test]
fn too_large_box_overflows_in_a_repeating_space() {
    let mut layouter = page(true);
    layouter.push_box(boxed(10, 70, 1), aligned(START, START));
    assert_eq!(layouter.layouts.len(), 0);
    assert_eq!(layouter.usable(), size(100, -10));
}

#[test]
fn remaining_spaces_start_with_the_current_one() {
    let spaces = vec![space(100, 60), space(90, 20), space(80, 50)];
    let mut layouter = stack(Dir::TTB, Dir::LTR, spaces, true, true);
    layouter.push_box(boxed(10, 10, 1), aligned(START, START));
    assert_eq!(
        layouter.remaining(),
        vec![
            LayoutSpace { base: size(100, 60), size: size(100, 50) },
            space(90, 20),
            space(80, 50),
        ]
    );
}

#[test]
fn last_space_remains_after_itself() {
    let mut layouter = page(true);
    layouter.push_box(boxed(10, 10, 1), aligned(START, START));
    assert_eq!(
        layouter.remaining(),
        vec![LayoutSpace { base: size(100, 60), size: size(100, 50) }, space(100, 60)]
    );
}

#[test]
fn next_space_stops_at_the_last() {
    let mut layouter = stack(Dir::TTB, Dir::LTR, vec![space(1, 1), space(2, 2)], true, true);
    assert_eq!(layouter.next_space(), 1);
    layouter.finish_space(false);
    assert_eq!(layouter.space.index, 1);
    assert_eq!(layouter.next_space(), 1);
    layouter.finish_space(false);
    assert_eq!(layouter.space.index, 1);
    assert_eq!(layouter.usable(), size(2, 2));
}

#[test]
fn space_can_be_started_anywhere() {
    let mut layouter = stack(Dir::TTB, Dir::LTR, vec![space(1, 1), space(2, 2)], true, true);
    layouter.start_space(1, false);
    assert_eq!(layouter.space.index, 1);
    assert!(!layouter.space.hard);
    assert_eq!(layouter.layouts.len(), 0);
}

#[test]
fn hard_break_keeps_the_empty_space() {
    let mut layouter = page(true);
    layouter.push_box(boxed(10, 10, 1), aligned(START, START));
    layouter.finish_space(true);
    let boxes = layouter.finish();
    assert_eq!(boxes.len(), 2);
    assert_eq!(boxes[1].elements, vec![]);
}

#[test]
fn soft_break_drops_the_empty_space() {
    let mut layouter = page(true);
    layouter.push_box(boxed(10, 10, 1), aligned(START, START));
    layouter.finish_space(false);
    assert!(layouter.space_is_empty());
    assert_eq!(layouter.finish().len(), 1);
}

#[test]
fn soft_break_keeps_a_used_space() {
    let mut layouter = page(true);
    layouter.finish_space(false);
    layouter.push_spacing(0);
    assert!(!layouter.space_is_empty());
    assert_eq!(layouter.finish().len(), 2);
}

#[test]
fn elements_come_out_in_order() {
    let mut layouter = page(true);
    for element in 0..20 {
        let align = if element % 7 == 0 { END } else { START };
        layouter.push_box(boxed(10, 17, element), aligned(align, START));
        layouter.push_spacing(2);
    }
    let mut elements: Vec<u32> = vec![];
    for boxed in layouter.finish() {
        for (_, element) in boxed.elements {
            elements.push(element);
        }
    }
    assert_eq!(elements, (0..20).collect::<Vec<u32>>());
}

#[test]
fn lengths_stay_at_the_end_of_the_range() {
    let mut layouter = stack(Dir::TTB, Dir::LTR, vec![space(i64::MAX, i64::MAX)], false, false);
    layouter.push_box(boxed(1, i64::MAX, 1), aligned(START, START));
    layouter.push_box(boxed(1, i64::MAX, 2), aligned(START, START));
    assert_eq!(layouter.space.used.height, i64::MAX);
    assert_eq!(layouter.space.usable.height, -i64::MAX);
    assert_eq!(layouter.finish()[0].elements[1], at(0, i64::MAX, 2));
}

#[test]
fn box_that_fits_a_later_space_goes_there() {
    let spaces = vec![space(100, 60), space(100, 20), space(100, 90)];
    let mut layouter = stack(Dir::TTB, Dir::LTR, spaces, true, true);
    layouter.push_box(boxed(10, 10, 1), aligned(END, START));
    // The alignment alone would lead to the second space, which is too small.
    layouter.push_box(boxed(10, 80, 2), aligned(START, START));
    assert_eq!(layouter.space.index, 2);
    assert_eq!(layouter.usable(), size(100, 10));
    let boxes = layouter.finish();
    assert_eq!(boxes.len(), 3);
    assert_eq!(boxes[0].elements, vec![at(0, 100, 1)]);
    assert_eq!(boxes[1], BoxLayout { size: size(100, 20), elements: vec![] });
    assert_eq!(boxes[2].elements, vec![at(0, 0, 2)]);
}

#[test]
fn gap_lies_between_boxes_only() {
    let mut layouter = stack(Dir::TTB, Dir::LTR, vec![space(100, 60)], true, false);
    layouter.push_box(boxed(10, 10, 1), aligned(START, START));
    layouter.push_gap(7);
    assert_eq!(layouter.usable(), size(100, 43));
    layouter.push_box(boxed(10, 10, 2), aligned(START, START));
    layouter.push_gap(7);
    let boxes = layouter.finish();
    assert_eq!(boxes[0].size, size(10, 27));
    assert_eq!(boxes[0].elements, vec![at(0, 0, 1), at(0, 34, 2)]);
}

#[test]
fn moving_back_drops_the_gap() {
    let mut layouter = page(true);
    layouter.push_box(boxed(10, 10, 1), aligned(START, START));
    layouter.push_gap(7);
    layouter.move_back(10);
    assert_eq!(layouter.usable(), size(100, 60));
    layouter.push_box(boxed(10, 10, 2), aligned(START, START));
    assert_eq!(layouter.finish()[0].elements, vec![at(0, 0, 1), at(0, 0, 2)]);
}

#[test]
fn reversed_main_direction_mirrors() {
    let mut down = stack(Dir::TTB, Dir::RTL, vec![space(100, 61)], true, true);
    let mut up = stack(Dir::BTT, Dir::RTL, vec![space(100, 61)], true, true);
    let heights = [10, 7, 12, 5];
    let aligns = [START, CENTER, CENTER, END];
    for i in 0..4 {
        down.push_box(boxed(20, heights[i], i as u32), aligned(aligns[i], aligns[i]));
        up.push_box(boxed(20, heights[i], i as u32), aligned(aligns[i], aligns[i]));
        down.push_spacing(3);
        up.push_spacing(3);
    }
    let (down, up) = (down.finish(), up.finish());
    assert_eq!(down[0].size, up[0].size);
    for i in 0..4 {
        let (a, b) = (down[0].elements[i].0, up[0].elements[i].0);
        assert_eq!(b.x2, a.x2);
        assert_eq!(b.y2, 2 * 61 - a.y2 - 2 * heights[i]);
    }
}

#[test]
fn shrinking_ignores_main_alignments() {
    let all = [START, CENTER, END];
    let mut first = stack(Dir::BTT, Dir::LTR, vec![space(100, 60)], false, false);
    let mut second = stack(Dir::BTT, Dir::LTR, vec![space(100, 60)], false, false);
    for i in 0..6 {
        first.push_box(boxed(20 + i as i64, 7, i as u32), aligned(all[i % 3], all[i % 2]));
        second.push_box(boxed(20 + i as i64, 7, i as u32), aligned(all[i / 2], all[i % 2]));
        first.push_spacing(2);
        second.push_spacing(2);
    }
    assert_eq!(first.finish(), second.finish());
}
