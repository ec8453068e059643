use par_layout::boxes::{BoxLayout, LayoutItem, LayoutSpace};
use par_layout::geom::{Dir, Gen2, GenAlign, Point, Size, Spec2};
use par_layout::line::{LineContext, LineLayouter};

const START: GenAlign = GenAlign::Start;
const CENTER: GenAlign = GenAlign::Center;
const END: GenAlign = GenAlign::End;

fn size(width: i64, height: i64) -> Size {
    Size { width, height }
}

fn space(width: i64, height: i64) -> LayoutSpace {
    LayoutSpace { base: size(width, height), size: size(width, height) }
}

fn lines(main: Dir, cross: Dir, spaces: Vec<LayoutSpace>, repeat: bool) -> LineLayouter<u32> {
    LineLayouter::new(LineContext {
        dirs: Gen2::new(main, cross),
        spaces,
        repeat,
        line_spacing: 5,
        expand: Spec2 { horizontal: true, vertical: true },
    })
}

fn page() -> LineLayouter<u32> {
    lines(Dir::TTB, Dir::LTR, vec![space(100, 200)], true)
}

fn boxed(width: i64, height: i64, element: u32) -> BoxLayout<u32> {
    BoxLayout { size: size(width, height), elements: vec![(Point { x2: 0, y2: 0 }, element)] }
}

fn aligned(main: GenAlign, cross: GenAlign) -> Gen2<GenAlign> {
    Gen2::new(main, cross)
}

fn at(x2: i64, y2: i64, element: u32) -> (Point, u32) {
    (Point { x2, y2 }, element)
}

#[test]
fn empty_layouter_has_one_box() {
    let boxes = page().finish();
    assert_eq!(boxes, vec![BoxLayout { size: size(100, 200), elements: vec![] }]);
}

#[test]
fn boxes_share_a_line_as_long_as_they_fit() {
    let mut layouter = page();
    layouter.push_box(boxed(30, 10, 1), aligned(START, START));
    assert_eq!(layouter.usable(), Gen2::new(200, 70));
    layouter.push_box(boxed(70, 20, 2), aligned(START, START));
    assert_eq!(layouter.usable(), Gen2::new(200, 0));
    assert_eq!(layouter.run.size, Gen2::new(20, 100));
    assert_eq!(layouter.finish()[0].elements, vec![at(0, 0, 1), at(60, 0, 2)]);
}

#[test]
fn new_line_is_offset_by_height_and_spacing() {
    let mut layouter = page();
    layouter.push_box(boxed(30, 10, 1), aligned(START, START));
    layouter.push_box(boxed(40, 20, 2), aligned(START, START));
    layouter.push_box(boxed(50, 15, 3), aligned(START, START));
    assert_eq!(layouter.run.layouts.len(), 1);
    assert_eq!(layouter.stack.usable(), size(100, 175));
    assert_eq!(layouter.finish()[0].elements, vec![at(0, 0, 1), at(60, 0, 2), at(0, 50, 3)]);
}

#[test]
fn lines_go_from_right_to_left() {
    let mut layouter = lines(Dir::TTB, Dir::RTL, vec![space(100, 200)], true);
    layouter.push_box(boxed(30, 10, 1), aligned(START, START));
    layouter.push_box(boxed(40, 20, 2), aligned(START, START));
    assert_eq!(layouter.finish()[0].elements, vec![at(140, 0, 1), at(60, 0, 2)]);
}

#[test]
fn lines_go_from_top_to_bottom() {
    let mut layouter = lines(Dir::RTL, Dir::TTB, vec![space(100, 50)], true);
    layouter.push_box(boxed(10, 30, 1), aligned(START, START));
    layouter.push_box(boxed(20, 20, 2), aligned(START, START));
    layouter.push_box(boxed(10, 20, 3), aligned(START, START));
    // The first line is twenty wide; its boxes lie at its left side.
    assert_eq!(layouter.finish()[0].elements, vec![at(160, 0, 1), at(160, 60, 2), at(130, 0, 3)]);
}

#[test]
fn gap_is_reduced_at_the_end_of_a_space() {
    let mut layouter = lines(Dir::TTB, Dir::LTR, vec![space(100, 12)], true);
    layouter.push_box(boxed(30, 10, 1), aligned(START, START));
    layouter.finish_line();
    assert_eq!(layouter.stack.usable(), size(100, 0));
}

#[test]
fn full_space_moves_the_line_on() {
    let mut layouter = lines(Dir::TTB, Dir::LTR, vec![space(100, 30)], true);
    layouter.push_box(boxed(60, 20, 1), aligned(START, START));
    layouter.push_box(boxed(60, 20, 2), aligned(START, START));
    let boxes = layouter.finish();
    assert_eq!(boxes.len(), 2);
    assert_eq!(boxes[0].elements, vec![at(0, 0, 1)]);
    assert_eq!(boxes[1].elements, vec![at(0, 0, 2)]);
}

#[test]
fn end_run_is_level_with_the_start_run() {
    let mut layouter = page();
    layouter.push_box(boxed(30, 10, 1), aligned(START, START));
    layouter.push_box(boxed(20, 12, 2), aligned(START, END));
    assert_eq!(layouter.run.usable, Some(70));
    assert_eq!(layouter.run.size, Gen2::new(12, 20));
    assert_eq!(layouter.finish()[0].elements, vec![at(0, 0, 1), at(160, 0, 2)]);
}

#[test]
fn center_run_keeps_clear_of_the_start_run() {
    let mut layouter = page();
    layouter.push_box(boxed(30, 10, 1), aligned(START, START));
    layouter.push_box(boxed(20, 12, 2), aligned(START, CENTER));
    assert_eq!(layouter.run.usable, Some(40));
    assert_eq!(layouter.usable(), Gen2::new(200, 20));
    // A box that is too wide for the middle goes on a line of its own.
    layouter.push_box(boxed(30, 10, 3), aligned(START, CENTER));
    assert_eq!(layouter.run.usable, None);
    assert_eq!(
        layouter.finish()[0].elements,
        vec![at(0, 0, 1), at(80, 0, 2), at(70, 34, 3)]
    );
}

#[test]
fn smaller_cross_alignment_starts_a_line() {
    let mut layouter = page();
    layouter.push_box(boxed(30, 10, 1), aligned(START, END));
    layouter.push_box(boxed(20, 12, 2), aligned(START, START));
    assert_eq!(layouter.finish()[0].elements, vec![at(140, 0, 1), at(0, 30, 2)]);
}

#[test]
fn larger_main_alignment_starts_a_line() {
    let mut layouter = page();
    layouter.push_box(boxed(30, 10, 1), aligned(START, START));
    layouter.push_box(boxed(20, 12, 2), aligned(END, START));
    let boxes = layouter.finish();
    assert_eq!(boxes.len(), 1);
    // There is no line spacing behind the last line.
    assert_eq!(boxes[0].elements, vec![at(0, 0, 1), at(0, 376, 2)]);
}

#[test]
fn smaller_main_alignment_starts_a_space() {
    let mut layouter = page();
    layouter.push_box(boxed(20, 10, 0), aligned(CENTER, START));
    layouter.push_box(boxed(30, 10, 1), aligned(END, START));
    layouter.push_box(boxed(20, 12, 2), aligned(START, START));
    let boxes = layouter.finish();
    assert_eq!(boxes.len(), 2);
    assert_eq!(boxes[1].elements, vec![at(0, 0, 2)]);
}

#[test]
fn spacing_separates_boxes() {
    let mut layouter = page();
    layouter.push_box(boxed(30, 10, 1), aligned(START, START));
    layouter.push_spacing(8);
    layouter.push_box(boxed(20, 12, 2), aligned(START, START));
    assert_eq!(layouter.run.size, Gen2::new(12, 58));
    assert_eq!(layouter.finish()[0].elements, vec![at(0, 0, 1), at(76, 0, 2)]);
}

#[test]
fn line_spacing_is_reduced_to_the_usable_width() {
    let mut layouter = page();
    layouter.push_box(boxed(30, 10, 1), aligned(START, START));
    layouter.push_spacing(500);
    assert_eq!(layouter.run.size, Gen2::new(10, 100));
    assert_eq!(layouter.usable(), Gen2::new(200, 0));
}

#[test]
fn items_are_boxes_or_spacing() {
    let mut layouter = page();
    layouter.push_item(LayoutItem::Spacing(8));
    assert!(!layouter.line_is_empty());
    layouter.push_item(LayoutItem::Box(boxed(20, 12, 2), aligned(START, START)));
    assert_eq!(layouter.finish()[0].elements, vec![at(16, 0, 2)]);
}

#[test]
fn remaining_spaces_are_below_the_line() {
    let mut layouter = page();
    layouter.push_box(boxed(30, 10, 1), aligned(START, START));
    assert_eq!(
        layouter.remaining(),
        vec![LayoutSpace { base: size(100, 200), size: size(100, 190) }, space(100, 200)]
    );
}

#[test]
fn too_wide_box_skips_to_a_fitting_space() {
    let mut layouter = lines(Dir::TTB, Dir::LTR, vec![space(100, 50), space(200, 50)], true);
    layouter.push_box(boxed(150, 10, 1), aligned(START, START));
    assert_eq!(layouter.stack.space.index, 1);
    let boxes = layouter.finish();
    assert_eq!(boxes.len(), 2);
    assert_eq!(boxes[0], BoxLayout { size: size(100, 50), elements: vec![] });
    assert_eq!(boxes[1].elements, vec![at(0, 0, 1)]);
}

#[test]
fn too_wide_box_skips_in_single_spaces_too() {
    let mut layouter = lines(Dir::TTB, Dir::LTR, vec![space(100, 50), space(200, 50)], false);
    layouter.push_box(boxed(10, 10, 1), aligned(START, START));
    layouter.push_box(boxed(150, 10, 2), aligned(START, START));
    let boxes = layouter.finish();
    assert_eq!(boxes.len(), 2);
    assert_eq!(boxes[0].elements, vec![at(0, 0, 1)]);
    assert_eq!(boxes[1].elements, vec![at(0, 0, 2)]);
}

#[test]
fn too_wide_box_overflows_if_nothing_fits() {
    let mut layouter = page();
    layouter.push_box(boxed(150, 10, 1), aligned(START, START));
    assert_eq!(layouter.stack.layouts.len(), 0);
    assert_eq!(layouter.usable(), Gen2::new(200, -50));
}

#[test]
fn page_break_finishes_line_and_space() {
    let mut layouter = page();
    layouter.push_box(boxed(30, 10, 1), aligned(START, START));
    layouter.finish_space(true);
    assert!(layouter.line_is_empty());
    assert_eq!(layouter.stack.layouts.len(), 1);
    assert_eq!(layouter.finish().len(), 2);
}

#[test]
fn empty_line_is_not_finished() {
    let mut layouter = page();
    layouter.finish_line_if_not_empty();
    assert_eq!(layouter.stack.usable(), size(100, 200));
    layouter.finish_line();
    assert_eq!(layouter.stack.usable(), size(100, 195));
}

#[test]
fn line_elements_come_out_in_order() {
    let mut layouter = lines(Dir::BTT, Dir::RTL, vec![space(100, 40)], true);
    let all = [START, CENTER, END];
    for element in 0..40 {
        let aligns = aligned(all[element / 5 % 3], all[element % 3]);
        layouter.push_box(boxed(15, 9, element as u32), aligns);
    }
    let mut elements: Vec<u32> = vec![];
    for boxed in layouter.finish() {
        for (_, element) in boxed.elements {
            elements.push(element);
        }
    }
    assert_eq!(elements, (0..40).collect::<Vec<u32>>());
}

#[test]
fn end_run_lies_behind_the_start_run_from_right_to_left() {
    let mut layouter = lines(Dir::TTB, Dir::RTL, vec![space(100, 200)], true);
    layouter.push_box(boxed(30, 10, 1), aligned(START, START));
    layouter.push_box(boxed(70, 12, 2), aligned(START, END));
    assert_eq!(layouter.usable(), Gen2::new(200, 0));
    assert_eq!(layouter.finish()[0].elements, vec![at(140, 0, 1), at(0, 0, 2)]);
}

#[test]
fn box_that_fits_below_the_line_stays_in_the_space() {
    let mut layouter = lines(Dir::TTB, Dir::LTR, vec![space(100, 40)], true);
    layouter.push_box(boxed(60, 10, 1), aligned(START, START));
    assert_eq!(layouter.remaining()[0].size, size(100, 30));
    // With the line spacing, twenty-five is what fits.
    layouter.push_box(boxed(60, 25, 2), aligned(START, START));
    assert_eq!(layouter.stack.layouts.len(), 0);
    assert_eq!(layouter.finish()[0].elements, vec![at(0, 0, 1), at(0, 30, 2)]);
}

#[test]
fn line_spacing_may_push_a_box_out_of_the_space() {
    let mut layouter = lines(Dir::TTB, Dir::LTR, vec![space(100, 40)], true);
    layouter.push_box(boxed(60, 10, 1), aligned(START, START));
    layouter.push_box(boxed(60, 30, 2), aligned(START, START));
    assert_eq!(layouter.stack.layouts.len(), 1);
}

fn shrinking(height: i64, repeat: bool, line_spacing: i64) -> LineLayouter<u32> {
    LineLayouter::new(LineContext {
        dirs: Gen2::new(Dir::TTB, Dir::LTR),
        spaces: vec![space(100, height)],
        repeat,
        line_spacing,
        expand: Spec2 { horizontal: false, vertical: false },
    })
}

#[test]
fn single_line_has_no_spacing_behind_it() {
    let mut layouter = shrinking(100, true, 5);
    layouter.push_box(boxed(30, 10, 1), aligned(START, START));
    let boxes = layouter.finish();
    assert_eq!(boxes.len(), 1);
    assert_eq!(boxes[0].size, size(30, 10));
}

#[test]
fn spacing_is_between_each_pair_of_lines() {
    let mut layouter = shrinking(100, true, 5);
    layouter.push_box(boxed(60, 10, 1), aligned(START, START));
    layouter.push_box(boxed(60, 20, 2), aligned(START, START));
    layouter.push_box(boxed(60, 30, 3), aligned(START, START));
    let boxes = layouter.finish();
    assert_eq!(boxes[0].size, size(60, 70));
    assert_eq!(boxes[0].elements, vec![at(0, 0, 1), at(0, 30, 2), at(0, 80, 3)]);
}

#[test]
fn broken_space_has_no_spacing_behind_its_last_line() {
    let mut layouter = shrinking(40, true, 5);
    layouter.push_box(boxed(60, 10, 1), aligned(START, START));
    layouter.push_box(boxed(60, 20, 2), aligned(START, START));
    layouter.push_box(boxed(60, 30, 3), aligned(START, START));
    let boxes = layouter.finish();
    assert_eq!(boxes.len(), 2);
    assert_eq!(boxes[0].size, size(60, 35));
    assert_eq!(boxes[1].size, size(60, 30));
}

#[test]
fn page_break_leaves_no_spacing_behind_the_line() {
    let mut layouter = shrinking(40, true, 5);
    layouter.push_box(boxed(60, 10, 1), aligned(START, START));
    layouter.finish_space(false);
    assert_eq!(layouter.stack.layouts[0].size, size(60, 10));
}

#[test]
fn single_space_does_not_spill_over() {
    let mut layouter = shrinking(10, false, 0);
    layouter.push_box(boxed(60, 10, 1), aligned(START, START));
    layouter.push_box(boxed(60, 10, 2), aligned(START, START));
    layouter.push_box(boxed(60, 10, 3), aligned(START, START));
    let boxes = layouter.finish();
    assert_eq!(boxes.len(), 1);
    assert_eq!(boxes[0].size, size(60, 30));
    assert_eq!(boxes[0].elements, vec![at(0, 0, 1), at(0, 20, 2), at(0, 40, 3)]);
}

#[test]
fn overflowing_lines_keep_their_spacing() {
    let mut layouter = shrinking(12, false, 5);
    layouter.push_box(boxed(60, 10, 1), aligned(START, START));
    layouter.push_box(boxed(60, 20, 2), aligned(START, START));
    layouter.push_box(boxed(60, 10, 3), aligned(START, START));
    let boxes = layouter.finish();
    assert_eq!(boxes[0].size, size(60, 50));
    assert_eq!(boxes[0].elements, vec![at(0, 0, 1), at(0, 30, 2), at(0, 80, 3)]);
}

#[test]
fn flat_line_stays_in_a_full_space() {
    let mut layouter = shrinking(12, true, 5);
    layouter.push_box(boxed(60, 10, 1), aligned(START, START));
    layouter.push_box(boxed(60, 0, 2), aligned(START, START));
    let boxes = layouter.finish();
    assert_eq!(boxes.len(), 1);
    assert_eq!(boxes[0].size, size(60, 12));
    assert_eq!(boxes[0].elements, vec![at(0, 0, 1), at(0, 24, 2)]);
}

#[test]
fn runs_are_level_without_room_for_spacing() {
    let mut layouter = lines(Dir::TTB, Dir::LTR, vec![space(100, 10)], true);
    layouter.push_box(boxed(30, 10, 1), aligned(START, START));
    layouter.push_box(boxed(20, 10, 2), aligned(START, END));
    let boxes = layouter.finish();
    assert_eq!(boxes.len(), 1);
    assert_eq!(boxes[0].elements, vec![at(0, 0, 1), at(160, 0, 2)]);
}

#[test]
fn run_that_does_not_fit_gets_its_own_line() {
    let mut layouter = lines(Dir::TTB, Dir::LTR, vec![space(100, 10)], false);
    layouter.push_box(boxed(90, 20, 1), aligned(START, START));
    layouter.push_box(boxed(30, 10, 2), aligned(START, START));
    layouter.push_box(boxed(20, 10, 3), aligned(START, END));
    // The third box does not fit into the overflowing line and gets its own.
    assert_eq!(
        layouter.finish()[0].elements,
        vec![at(0, 0, 1), at(0, 50, 2), at(160, 80, 3)]
    );
}

#[test]
fn box_too_wide_for_a_new_run_goes_below_the_line() {
    let mut layouter = page();
    layouter.push_box(boxed(30, 10, 1), aligned(START, START));
    layouter.push_box(boxed(80, 10, 2), aligned(START, END));
    let boxes = layouter.finish();
    assert_eq!(boxes.len(), 1);
    assert_eq!(boxes[0].elements, vec![at(0, 0, 1), at(40, 30, 2)]);
}

#[test]
fn run_without_boxes_is_stacked_at_the_start() {
    let mut layouter = page();
    layouter.push_box(boxed(30, 10, 1), aligned(END, START));
    layouter.push_box(boxed(80, 10, 2), aligned(END, END));
    // The box does not fit into the new run, which is finished without boxes. Its
    // alignment is that at the start, which needs a new space.
    let boxes = layouter.finish();
    assert_eq!(boxes.len(), 2);
    assert_eq!(boxes[0].elements, vec![at(0, 400, 1)]);
    assert_eq!(boxes[1].elements, vec![at(40, 380, 2)]);
}

#[test]
fn box_joins_exactly_if_it_fits() {
    let mut layouter = page();
    layouter.push_box(boxed(30, 10, 1), aligned(START, START));
    layouter.push_box(boxed(70, 10, 2), aligned(START, START));
    assert_eq!(layouter.run.layouts.len(), 2);
    let mut layouter = page();
    layouter.push_box(boxed(30, 10, 1), aligned(START, START));
    layouter.push_box(boxed(71, 10, 2), aligned(START, START));
    assert_eq!(layouter.run.layouts.len(), 1);
}

#[test]
fn boxes_that_fit_remaining_stay_in_the_space() {
    let mut layouter = shrinking(40, true, 0);
    for element in 0..4 {
        assert!(layouter.remaining()[0].size.fits(size(60, 10)));
        layouter.push_box(boxed(60, 10, element), aligned(START, START));
        assert_eq!(layouter.stack.layouts.len(), 0);
        assert!(layouter.stack.usable().fits(size(60, 10)));
    }
    assert_eq!(layouter.finish()[0].size, size(60, 40));
}
