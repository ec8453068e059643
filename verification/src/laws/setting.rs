//! What each operation does to a line, said on sizes, boxes and the stack of lines.

use crate::boxes::{BoxView, ItemView};
use crate::geom::{Dir, Gen2, GenAlign, Size};
use crate::laws::lines::{lemma_line_elements_len, run_element_count};
use crate::laws::stacking::{belongs_here, law_pushed_box};
use crate::length::{fit, Length};
use crate::line::{LineContextView, LineLayouter, LineView, RunView};
use crate::stack::StackView;
use vstd::prelude::*;

verus! {

// Vocabulary.

/// The cross-space of the line: what an earlier run on the same line leaves or, if
/// there is none, what is usable in the stack.
pub open spec fn line_width<E>(line: LineView<E>) -> int {
    match line.run.usable {
        Some(cross) => cross as int,
        None => line.stack.usable().switch(line.ctx.dirs).cross as int,
    }
}

/// The cross-space behind the boxes and the spacing on the line.
pub open spec fn width_left<E>(line: LineView<E>) -> int {
    fit(line_width(line) - line.run.size.cross) as int
}

/// Whether a box of the given size is not longer than what is left behind the line
/// and not higher than what is left in the stack.
pub open spec fn has_room<E>(line: LineView<E>, size: Size) -> bool {
    &&& size.switch(line.ctx.dirs).main <= line.stack.usable().switch(line.ctx.dirs).main
    &&& size.switch(line.ctx.dirs).cross <= width_left(line)
}

/// Whether the boxes on the line, if there are any, have the given alignment.
pub open spec fn agrees<E>(line: LineView<E>, aligns: Gen2<GenAlign>) -> bool {
    line.run.aligns is None || line.run.aligns == Some(aligns)
}

/// Whether there is neither a box nor spacing on the line and it has no height.
pub open spec fn is_bare<E>(line: LineView<E>) -> bool {
    line.run.layouts.len() == 0 && line.run.size.main == 0 && line.run.size.cross == 0
}

/// Whether the in-progress run is a new one, with the whole line to itself.
pub open spec fn at_new_line<E>(line: LineView<E>) -> bool {
    &&& is_bare(line)
    &&& line.run.aligns is None
    &&& line.run.usable is None
}

/// Whether a run has one box more, right behind what was there, and is otherwise
/// only longer, possibly higher, and aligned like the box.
pub open spec fn has_joined<E>(
    before: RunView<E>,
    after: RunView<E>,
    layout: BoxView<E>,
    dirs: Gen2<Dir>,
    aligns: Gen2<GenAlign>,
) -> bool {
    let size = layout.size.switch(dirs);
    &&& after.layouts == before.layouts.push((before.size.cross, layout))
    &&& after.size.cross == fit(before.size.cross + size.cross)
    &&& after.size.main == if before.size.main < size.main {
        size.main
    } else {
        before.size.main
    }
    &&& after.aligns == Some(aligns)
    &&& after.usable == before.usable
}

// Views.

/// The view of a line layouter shows what is in it.
pub proof fn law_view_of_line<E>(line: LineLayouter<E>, i: int)
    ensures
        line@.ctx.dirs == line.ctx.dirs,
        line@.ctx.spaces == line.ctx.spaces@,
        line@.ctx.repeat == line.ctx.repeat,
        line@.ctx.line_spacing == line.ctx.line_spacing,
        line@.ctx.expand == line.ctx.expand,
        line@.stack == line.stack@,
        line@.run.layouts.len() == line.run.layouts@.len(),
        0 <= i < line.run.layouts@.len() ==> line@.run.layouts[i] == (
            line.run.layouts@[i].0,
            line.run.layouts@[i].1@,
        ),
        line@.run.size == line.run.size,
        line@.run.aligns == line.run.aligns,
        line@.run.usable == line.run.usable,
{
}

// New lines.

/// A new line layouter is at a new line and stacks its lines in its own spaces and
/// directions.
pub proof fn law_new_line_layouter<E>(ctx: LineContextView)
    ensures
        LineView::<E>::fresh(ctx).ctx == ctx,
        at_new_line(LineView::<E>::fresh(ctx)),
        LineView::<E>::fresh(ctx).stack == StackView::<E>::fresh(
            LineView::<E>::fresh(ctx).stack.ctx,
        ),
        LineView::<E>::fresh(ctx).stack.ctx.dirs == ctx.dirs,
        LineView::<E>::fresh(ctx).stack.ctx.spaces == ctx.spaces,
        LineView::<E>::fresh(ctx).stack.ctx.repeat == ctx.repeat,
        LineView::<E>::fresh(ctx).stack.ctx.expand == ctx.expand,
{
}

/// In a well-formed line layouter, the lines are stacked in its own spaces and
/// directions.
pub proof fn law_lines_are_stacked_in_context<E>(line: LineView<E>)
    requires
        line.wf(),
    ensures
        line.stack.ctx.dirs == line.ctx.dirs,
        line.stack.ctx.spaces == line.ctx.spaces,
        line.stack.ctx.repeat == line.ctx.repeat,
        line.stack.ctx.expand == line.ctx.expand,
        0 <= line.stack.space.index < line.ctx.spaces.len(),
{
}

/// A line is empty if there is neither a box nor spacing on it and it has no height.
pub proof fn law_empty_lines<E>(line: LineView<E>)
    ensures
        line.line_is_empty() <==> is_bare(line),
{
}

/// The usable size is what is left behind the line and what is left in the stack.
pub proof fn law_usable_size_of_line<E>(line: LineView<E>)
    ensures
        line.usable().main == line.stack.usable().switch(line.ctx.dirs).main,
        line.usable().cross == width_left(line),
{
}

/// The remaining spaces are those of the stack; the first one is smaller by the
/// height of the line.
pub proof fn law_remaining_spaces_of_line<E>(line: LineView<E>, k: int)
    requires
        line.wf(),
    ensures
        line.remaining().len() == line.stack.remaining().len(),
        0 < k < line.stack.remaining().len() ==> line.remaining()[k]
            == line.stack.remaining()[k],
        line.remaining()[0].base == line.stack.remaining()[0].base,
        line.remaining()[0].size.switch(line.ctx.dirs).main == fit(
            line.stack.remaining()[0].size.switch(line.ctx.dirs).main - line.run.size.main,
        ),
        line.remaining()[0].size.switch(line.ctx.dirs).cross
            == line.stack.remaining()[0].size.switch(line.ctx.dirs).cross,
{
}

// Boxes on the line.

/// A box that is no longer than the cross-space left behind the line, and no higher
/// than what is left in the stack, is put onto the line, right behind what is there,
/// however many boxes that are. Nothing goes onto the stack.
pub proof fn law_box_with_room_is_put_onto_line<E>(
    line: LineView<E>,
    layout: BoxView<E>,
    aligns: Gen2<GenAlign>,
)
    requires
        agrees(line, aligns),
        has_room(line, layout.size),
    ensures
        line.push_box(layout, aligns).ctx == line.ctx,
        line.push_box(layout, aligns).stack == line.stack,
        has_joined(
            line.run,
            line.push_box(layout, aligns).run,
            layout,
            line.ctx.dirs,
            aligns,
        ),
{
}

/// A box without room on a line that is not empty is pushed as if the line had been
/// finished before.
pub proof fn law_box_without_room_finishes_line<E>(
    line: LineView<E>,
    layout: BoxView<E>,
    aligns: Gen2<GenAlign>,
)
    requires
        agrees(line, aligns),
        !has_room(line, layout.size),
        !is_bare(line),
    ensures
        line.push_box(layout, aligns) == line.finish_line().push_box(layout, aligns),
        line.break_for_size(layout.size) == line.finish_line().break_for_size(layout.size),
{
}

/// A box without room on an empty line is put onto the line in the space that
/// skipping leads to, or in the same space if that is the last one and the spaces do
/// not repeat.
pub proof fn law_box_without_room_on_empty_line<E>(
    line: LineView<E>,
    layout: BoxView<E>,
    aligns: Gen2<GenAlign>,
)
    requires
        line.wf(),
        agrees(line, aligns),
        !has_room(line, layout.size),
        is_bare(line),
    ensures
        line.push_box(layout, aligns).ctx == line.ctx,
        line.ctx.repeat || line.stack.space.index + 1 < line.ctx.spaces.len() ==> line.push_box(
            layout,
            aligns,
        ).stack == line.stack.skip_to_fitting_space(layout.size),
        !line.ctx.repeat && line.stack.space.index + 1 == line.ctx.spaces.len() ==> line.push_box(
            layout,
            aligns,
        ).stack == line.stack,
        has_joined(
            line.run,
            line.push_box(layout, aligns).run,
            layout,
            line.ctx.dirs,
            aligns,
        ),
{
}

/// Whatever is pushed, the pushed box is the last one on the line, and the line is
/// aligned like it.
pub proof fn law_pushed_box_is_last_on_line<E>(
    line: LineView<E>,
    layout: BoxView<E>,
    aligns: Gen2<GenAlign>,
)
    ensures
        line.push_box(layout, aligns).ctx == line.ctx,
        line.push_box(layout, aligns).run.aligns == Some(aligns),
        line.push_box(layout, aligns).run.layouts.len() > 0,
        line.push_box(layout, aligns).run.layouts.last().1 == layout,
{
}

// Alignments.

/// A box with another main-axis alignment is pushed as if the line had been finished
/// before, as long as that alignment is allowed in the space or spaces do not
/// repeat.
pub proof fn law_other_main_alignment_finishes_line<E>(
    line: LineView<E>,
    layout: BoxView<E>,
    prev: Gen2<GenAlign>,
    aligns: Gen2<GenAlign>,
)
    requires
        line.run.aligns == Some(prev),
        aligns.main != prev.main,
        line.stack.space.allowed_align.rank() <= aligns.main.rank() || !line.ctx.repeat,
    ensures
        line.break_for_aligns(aligns) == line.finish_line(),
        line.push_box(layout, aligns) == line.finish_line().push_box(layout, aligns),
{
}

/// In repeating spaces, a box with another main-axis alignment that is no longer
/// allowed is pushed as if the space had been finished before.
pub proof fn law_smaller_main_alignment_finishes_space<E>(
    line: LineView<E>,
    layout: BoxView<E>,
    prev: Gen2<GenAlign>,
    aligns: Gen2<GenAlign>,
)
    requires
        line.run.aligns == Some(prev),
        aligns.main != prev.main,
        aligns.main.rank() < line.stack.space.allowed_align.rank(),
        line.ctx.repeat,
    ensures
        line.break_for_aligns(aligns) == line.finish_space(true),
        line.run.layouts.len() > 0 ==> line.push_box(layout, aligns) == line.finish_space(
            true,
        ).push_box(layout, aligns),
{
}

/// A box with the same main-axis alignment and a smaller cross-axis one is pushed as
/// if the line had been finished before.
pub proof fn law_smaller_cross_alignment_finishes_line<E>(
    line: LineView<E>,
    layout: BoxView<E>,
    prev: Gen2<GenAlign>,
    aligns: Gen2<GenAlign>,
)
    requires
        line.run.aligns == Some(prev),
        aligns.main == prev.main,
        aligns.cross.rank() < prev.cross.rank(),
    ensures
        line.break_for_aligns(aligns) == line.finish_line(),
        line.push_box(layout, aligns) == line.finish_line().push_box(layout, aligns),
{
}

/// A box with the same main-axis alignment and a larger cross-axis one is pushed as
/// if a new run had been started before.
pub proof fn law_larger_cross_alignment_starts_run<E>(
    line: LineView<E>,
    layout: BoxView<E>,
    prev: Gen2<GenAlign>,
    aligns: Gen2<GenAlign>,
)
    requires
        line.run.aligns == Some(prev),
        aligns.main == prev.main,
        aligns.cross.rank() > prev.cross.rank(),
    ensures
        line.break_for_aligns(aligns) == line.start_run(aligns.cross),
        line.push_box(layout, aligns) == line.start_run(aligns.cross).push_box(layout, aligns),
{
}

/// The alignment of a line without boxes is yet to be decided, and boxes of one
/// alignment stay together: in both cases nothing is broken.
pub proof fn law_agreeing_alignment_breaks_nothing<E>(line: LineView<E>, aligns: Gen2<GenAlign>)
    requires
        agrees(line, aligns),
    ensures
        line.break_for_aligns(aligns) == line,
{
}

/// A box with another main-axis alignment that is allowed in the space goes below
/// the line in the same space, where the line stays in the space and the box has
/// room below it. No layout is finished.
pub proof fn law_other_main_alignment_stays_in_space<E>(
    line: LineView<E>,
    layout: BoxView<E>,
    prev: Gen2<GenAlign>,
    aligns: Gen2<GenAlign>,
)
    requires
        line.wf(),
        line.run.aligns == Some(prev),
        aligns.main != prev.main,
        line.stack.space.allowed_align.rank() <= aligns.main.rank(),
        belongs_here(line.stack, line.run.line_box(line.ctx.dirs).size, prev),
        has_room(line.finish_line(), layout.size),
    ensures
        line.push_box(layout, aligns).stack == line.finish_line().stack,
        line.push_box(layout, aligns).stack.layouts == line.stack.layouts,
        line.push_box(layout, aligns).stack.space.index == line.stack.space.index,
        line.push_box(layout, aligns).run.layouts == seq![(0 as Length, layout)],
        line.push_box(layout, aligns).run.aligns == Some(aligns),
{
    law_pushed_box(line.stack, line.run.line_box(line.ctx.dirs), prev);
    assert(Seq::empty().push((0 as Length, layout)) =~= seq![(0 as Length, layout)]);
}

// Finished lines.

/// A finished line is one box on the stack, aligned like its boxes or, if there are
/// none, at the start. Line spacing is due behind it, and a new line begins.
pub proof fn law_finished_line<E>(line: LineView<E>)
    ensures
        line.finish_line().ctx == line.ctx,
        at_new_line(line.finish_line()),
        line.run.aligns matches Some(aligns) ==> line.finish_line().stack == line.stack.push_box(
            line.run.line_box(line.ctx.dirs),
            aligns,
        ).push_gap(line.ctx.line_spacing),
        line.run.aligns is None ==> line.finish_line().stack == line.stack.push_box(
            line.run.line_box(line.ctx.dirs),
            (Gen2 { main: GenAlign::Start, cross: GenAlign::Start }),
        ).push_gap(line.ctx.line_spacing),
{
}

/// The box of a line has the size of the run and the elements of all its boxes.
pub proof fn law_box_of_line<E>(run: RunView<E>, dirs: Gen2<Dir>)
    ensures
        dirs.main is LTR || dirs.main is RTL ==> run.line_box(dirs).size.width == run.size.main
            && run.line_box(dirs).size.height == run.size.cross,
        dirs.main is TTB || dirs.main is BTT ==> run.line_box(dirs).size.height == run.size.main
            && run.line_box(dirs).size.width == run.size.cross,
        run.line_box(dirs).elements.len() == run_element_count(run, run.layouts.len() as int),
{
    lemma_line_elements_len(run, dirs, run.layouts.len() as int);
}

/// In the box of a line, a box is as far from the side where the line starts as it is
/// from the start of the run, and at the very top of the line.
pub proof fn law_position_on_line<E>(run: RunView<E>, dirs: Gen2<Dir>, i: int)
    ensures
        ({
            let pos = run.item_position(dirs, i);
            let offset = run.layouts[i].0;
            let size = run.layouts[i].1.size;
            let along = if dirs.main is LTR || dirs.main is RTL {
                pos.y2
            } else {
                pos.x2
            };
            let across = if dirs.main is LTR || dirs.main is RTL {
                pos.x2
            } else {
                pos.y2
            };
            &&& across == 0
            &&& dirs.cross is LTR || dirs.cross is TTB ==> along == fit(2 * offset)
            &&& dirs.cross is RTL ==> along == fit(
                2 * fit(run.size.cross - offset - size.width),
            )
            &&& dirs.cross is BTT ==> along == fit(
                2 * fit(run.size.cross - offset - size.height),
            )
        }),
{
}

/// A run that is started on the same line begins at the top of the line: the stack
/// moves back by the height of the line. It is as high as the line already, and its
/// cross-space is what the earlier run leaves at the end, or at both sides alike for
/// a centered run.
pub proof fn law_started_run<E>(line: LineView<E>, align: GenAlign)
    ensures
        line.start_run(align).ctx == line.ctx,
        line.start_run(align).stack == line.finish_line().stack.move_back(line.run.size.main),
        line.start_run(align).run.layouts.len() == 0,
        line.start_run(align).run.aligns is None,
        line.start_run(align).run.size.main == line.run.size.main,
        line.start_run(align).run.size.cross == 0,
        ({
            let full = line.stack.usable().get(line.ctx.dirs.cross.axis());
            &&& align is Center ==> line.start_run(align).run.usable == Some(
                fit(full - 2 * line.run.size.cross),
            )
            &&& align is End ==> line.start_run(align).run.usable == Some(
                fit(full - line.run.size.cross),
            )
        }),
{
}

/// Finishing a line that is not empty finishes the line, and changes nothing
/// otherwise. A space or the whole layout is finished after the line.
pub proof fn law_line_is_finished_first<E>(line: LineView<E>, hard: bool)
    ensures
        is_bare(line) ==> {
            &&& line.finish_line_if_not_empty() == line
            &&& line.finish_space(hard).ctx == line.ctx
            &&& line.finish_space(hard).run == line.run
            &&& line.finish_space(hard).stack == line.stack.finish_space(hard)
            &&& line.finish() == line.stack.finish()
        },
        !is_bare(line) ==> {
            &&& line.finish_line_if_not_empty() == line.finish_line()
            &&& line.finish_space(hard) == line.finish_line().finish_space(hard)
            &&& line.finish() == line.finish_line().finish()
        },
{
}

// Spacing.

/// Spacing makes the line longer by its extent if that much is left behind the line,
/// and otherwise by all that is left. It changes nothing else, whatever is on the
/// line.
pub proof fn law_spacing_lengthens_line<E>(line: LineView<E>, spacing: Length)
    ensures
        ({
            let spaced = line.push_spacing(spacing);
            &&& spacing <= width_left(line) ==> spaced.run.size.cross == fit(
                line.run.size.cross + spacing,
            )
            &&& spacing > width_left(line) ==> spaced.run.size.cross == fit(
                line.run.size.cross + width_left(line),
            )
            &&& spaced.run.size.main == line.run.size.main
            &&& spaced.run.layouts == line.run.layouts
            &&& spaced.run.aligns == line.run.aligns
            &&& spaced.run.usable == line.run.usable
            &&& spaced.stack == line.stack
            &&& spaced.ctx == line.ctx
        }),
{
}

/// A box that follows spacing on the same line lies behind the spacing: its offset
/// is the length of the line before, plus that of the spacing.
pub proof fn law_box_lies_behind_spacing<E>(
    line: LineView<E>,
    spacing: Length,
    layout: BoxView<E>,
    aligns: Gen2<GenAlign>,
)
    requires
        agrees(line, aligns),
        0 <= spacing <= width_left(line),
        i64::MIN <= line.run.size.cross + spacing <= i64::MAX,
        layout.size.switch(line.ctx.dirs).main <= line.stack.usable().switch(line.ctx.dirs).main,
        layout.size.switch(line.ctx.dirs).cross <= line_width(line) - line.run.size.cross - spacing,
    ensures
        line.push_spacing(spacing).push_box(layout, aligns).stack == line.stack,
        line.push_spacing(spacing).push_box(layout, aligns).run.layouts == line.run.layouts.push(
            ((line.run.size.cross + spacing) as Length, layout),
        ),
{
}

/// Two spacings that fit on the line one after the other are as long as one of their
/// summed extent.
pub proof fn law_spacings_add_up<E>(line: LineView<E>, first: Length, second: Length)
    requires
        0 <= first,
        0 <= second,
        line.run.size.cross + first + second <= i64::MAX,
        first + second <= line_width(line) - line.run.size.cross <= i64::MAX,
    ensures
        line.push_spacing(first).push_spacing(second) == line.push_spacing(
            (first + second) as Length,
        ),
{
}

// Items.

/// A box item is pushed as the box that it is, with its own alignment, and a spacing
/// item as the spacing that it is.
pub proof fn law_items_are_pushed_as_what_they_are<E>(
    line: LineView<E>,
    boxed: BoxView<E>,
    aligns: Gen2<GenAlign>,
    spacing: Length,
)
    ensures
        line.push_item(ItemView::Box(boxed, aligns)) == line.push_box(boxed, aligns),
        line.push_item(ItemView::Spacing(spacing)) == line.push_spacing(spacing),
        line.push_item(ItemView::Box(boxed, aligns)).run.aligns == Some(aligns),
        line.push_item(ItemView::Box(boxed, aligns)).run.layouts.last().1 == boxed,
{
    reveal(LineView::push_item);
}

/// Items are pushed one after the other, from the first to the last.
pub proof fn law_items_are_pushed_in_order<E>(
    line: LineView<E>,
    items: Seq<ItemView<E>>,
    last: ItemView<E>,
)
    ensures
        line.push_items(Seq::empty()) == line,
        line.push_items(items.push(last)) == line.push_items(items).push_item(last),
{
    assert(items.push(last).drop_last() =~= items);
}

/// After items that end with a box, that box is the last one on the line, and the
/// line has its alignment.
pub proof fn law_line_is_aligned_like_last_box<E>(
    line: LineView<E>,
    items: Seq<ItemView<E>>,
    boxed: BoxView<E>,
    aligns: Gen2<GenAlign>,
)
    requires
        items.len() > 0,
        items.last() == ItemView::Box(boxed, aligns),
    ensures
        line.push_items(items).run.aligns == Some(aligns),
        line.push_items(items).run.layouts.len() > 0,
        line.push_items(items).run.layouts.last().1 == boxed,
{
    law_items_are_pushed_in_order(line, items.drop_last(), items.last());
    assert(items.drop_last().push(items.last()) =~= items);
    law_items_are_pushed_as_what_they_are(
        line.push_items(items.drop_last()),
        boxed,
        aligns,
        0,
    );
}

} // verus!
