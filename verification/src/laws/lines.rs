//! How lines are broken, joined and offset.

use crate::boxes::BoxView;
use crate::geom::{start_aligns, Dir, Gen2, GenAlign, Size};
use crate::laws::placement::{exact, law_same_alignment_offset, main_position};
use crate::laws::spaces::{
    aligned_in_order, gap_before, goes_on, law_alignments_increase, law_stack_goes_on,
    lemma_first_fit, lemma_goes_on_transitive, ready_for,
};
use crate::length::{fit, longer, representable, shorter, Length};
use crate::line::{LineContextView, LineView, RunView};
use crate::stack::{extent_sum, Child, StackView};
use vstd::prelude::*;

verus! {

// Breaking lines.

/// A box that has the alignment of the line and fits into it is set behind the
/// boxes of the line.
pub proof fn law_fitting_box_joins_line<E>(
    line: LineView<E>,
    layout: BoxView<E>,
    aligns: Gen2<GenAlign>,
)
    requires
        line.run.aligns is None || line.run.aligns == Some(aligns),
        line.fits(layout.size),
    ensures
        line.push_box(layout, aligns).stack == line.stack,
        line.push_box(layout, aligns).run == line.run.append(layout, line.ctx.dirs, aligns),
{
}

/// A box that has the alignment of a line but does not fit into it is set at the
/// start of a new line.
pub proof fn law_full_line_is_broken<E>(
    line: LineView<E>,
    layout: BoxView<E>,
    aligns: Gen2<GenAlign>,
)
    requires
        line.run.aligns is None || line.run.aligns == Some(aligns),
        !line.fits(layout.size),
        !line.line_is_empty(),
    ensures
        line.push_box(layout, aligns).run == RunView::<E>::fresh().append(
            layout,
            line.ctx.dirs,
            aligns,
        ),
        ({
            let finished = line.finish_line();
            line.push_box(layout, aligns).stack == if finished.fits(layout.size)
                || !finished.has_next_space() {
                finished.stack
            } else {
                finished.stack.skip_to_fitting_space(layout.size)
            }
        }),
{
}

/// Whether the widths stay representable when something of the given width is
/// added to the line. This is so in any case if no width is negative and the line
/// is wide enough.
pub open spec fn can_measure_width<E>(line: LineView<E>, width: Length) -> bool {
    let whole = match line.run.usable {
        Some(cross) => cross,
        None => line.stack.usable().switch(line.ctx.dirs).cross,
    };
    ||| 0 <= line.run.size.cross && 0 <= width
    ||| {
        &&& representable(line.run.size.cross + width)
        &&& representable(whole - line.run.size.cross)
        &&& representable(whole - line.run.size.cross - width)
    }
}

/// A box that joins a line takes as much of its usable size as it is wide.
pub proof fn law_box_uses_up_line<E>(
    line: LineView<E>,
    layout: BoxView<E>,
    aligns: Gen2<GenAlign>,
)
    requires
        line.run.aligns is None || line.run.aligns == Some(aligns),
        line.fits(layout.size),
        can_measure_width(line, layout.size.switch(line.ctx.dirs).cross),
    ensures
        line.push_box(layout, aligns).usable().main == line.usable().main,
        line.push_box(layout, aligns).usable().cross == line.usable().cross - layout.size.switch(
            line.ctx.dirs,
        ).cross,
        0 <= line.push_box(layout, aligns).usable().cross,
{
    law_fitting_box_joins_line(line, layout, aligns);
}

/// The usable size of a line is what fits before a line break is needed: a box
/// with the alignment of a line that is not empty joins the line, leaves the stack
/// as it is and takes up its width of the usable size, if and only if it fits.
/// Otherwise the line is handed to the stack first and the box starts a new one.
pub proof fn law_box_joins_line_iff_it_fits<E>(
    line: LineView<E>,
    layout: BoxView<E>,
    aligns: Gen2<GenAlign>,
)
    requires
        line.wf(),
        !line.line_is_empty(),
        line.run.aligns == Some(aligns),
    ensures
        line.push_box(layout, aligns).stack == line.stack <==> line.fits(layout.size),
        line.fits(layout.size) ==> {
            let pushed = line.push_box(layout, aligns);
            let width = layout.size.switch(line.ctx.dirs).cross;
            &&& pushed.run == line.run.append(layout, line.ctx.dirs, aligns)
            &&& pushed.usable().main == line.usable().main
            &&& can_measure_width(line, width) ==> pushed.usable().cross == line.usable().cross
                - width
        },
        !line.fits(layout.size) ==> {
            let pushed = line.push_box(layout, aligns);
            &&& goes_on(line.finish_line().stack, pushed.stack)
            &&& pushed.run == RunView::<E>::fresh().append(layout, line.ctx.dirs, aligns)
        },
{
    if line.fits(layout.size) {
        law_fitting_box_joins_line(line, layout, aligns);
        if can_measure_width(line, layout.size.switch(line.ctx.dirs).cross) {
            law_box_uses_up_line(line, layout, aligns);
        }
    } else {
        law_full_line_is_broken(line, layout, aligns);
        lemma_finish_line_changes_stack(line);
        lemma_finish_line_goes_on(line);
        let finished = line.finish_line().stack;
        law_stack_goes_on(finished, BoxView::blank(layout.size), aligns, 0, true);
    }
}

/// A finished line is the last box in its space.
proof fn lemma_finish_line_changes_stack<E>(line: LineView<E>)
    requires
        line.wf(),
    ensures
        line.finish_line().stack.space.layouts.len() > 0,
        line.finish_line().stack.space.layouts.last() == (
            line.run.line_box(line.ctx.dirs),
            line.run.stack_aligns(),
        ),
        line.finish_line().stack.space.gap == Some(line.ctx.line_spacing),
        line.finish_line().stack.layouts.len() > line.stack.layouts.len()
            || line.finish_line().stack.layouts == line.stack.layouts
            && line.finish_line().stack.space.layouts.len() > line.stack.space.layouts.len(),
{
    lemma_push_box_is_last(line.stack, line.run.line_box(line.ctx.dirs), line.run.stack_aligns());
}

proof fn lemma_push_box_is_last<E>(stack: StackView<E>, layout: BoxView<E>, aligns: Gen2<GenAlign>)
    ensures
        stack.push_box(layout, aligns).space.layouts.len() > 0,
        stack.push_box(layout, aligns).space.layouts.last() == (layout, aligns),
        stack.push_box(layout, aligns).layouts.len() > stack.layouts.len() || stack.push_box(
            layout,
            aligns,
        ).layouts == stack.layouts && stack.push_box(layout, aligns).space.layouts.len()
            > stack.space.layouts.len(),
{
    let ready = ready_for(stack, layout, aligns);
    assert(ready.layouts.len() > stack.layouts.len() || ready == stack);
    let spaced = ready.insert_gap(layout.size);
    assert(spaced.space.layouts.len() >= ready.space.layouts.len());
    assert(stack.push_box(layout, aligns).space.layouts == spaced.space.layouts.push(
        (layout, aligns),
    ));
}

/// Whether the alignment of the run is known as soon as there is a box in it.
pub open spec fn run_is_aligned<E>(run: RunView<E>) -> bool {
    run.aligns is None ==> run.layouts.len() == 0
}

/// All boxes in a run have the same alignment: a box is added to the boxes of a
/// run only if it has their alignment.
pub proof fn law_run_has_one_alignment<E>(
    line: LineView<E>,
    layout: BoxView<E>,
    aligns: Gen2<GenAlign>,
)
    requires
        run_is_aligned(line.run),
    ensures
        run_is_aligned(line.push_box(layout, aligns).run),
        line.push_box(layout, aligns).run.aligns == Some(aligns),
        line.push_box(layout, aligns).run.layouts.len() > 0,
        line.push_box(layout, aligns).run.layouts.last().1 == layout,
        line.push_box(layout, aligns).run.layouts.len() > 1 ==> line.run.aligns == Some(aligns)
            && line.push_box(layout, aligns).run.layouts.drop_last() == line.run.layouts,
{
    let aligned = line.break_for_aligns(aligns);
    let ready = aligned.break_for_size(layout.size);
    let pushed = line.push_box(layout, aligns);
    assert(pushed.run.layouts.drop_last() =~= ready.run.layouts);
    lemma_runs_after_breaks(line, aligns, layout.size);
    lemma_runs_after_breaks(aligned, aligns, layout.size);
}

/// A break leaves a run without boxes or changes nothing.
proof fn lemma_runs_after_breaks<E>(line: LineView<E>, aligns: Gen2<GenAlign>, size: Size)
    ensures
        line.break_for_aligns(aligns).run.layouts.len() == 0 || line.break_for_aligns(aligns).run
            == line.run,
        line.break_for_aligns(aligns).run.layouts.len() > 0 && line.run.aligns is Some
            ==> line.run.aligns == Some(aligns),
        line.break_for_size(size).run.layouts.len() == 0 || line.break_for_size(size).run
            == line.run,
{
}

/// Pushing into a line never goes back to an earlier space and touches no
/// finished layout.
pub proof fn law_line_goes_on<E>(
    line: LineView<E>,
    layout: BoxView<E>,
    aligns: Gen2<GenAlign>,
    hard: bool,
)
    requires
        line.wf(),
    ensures
        goes_on(line.stack, line.finish_line().stack),
        goes_on(line.stack, line.finish_space(hard).stack),
        goes_on(line.stack, line.push_box(layout, aligns).stack),
        line.finish_line().wf(),
        line.finish_space(hard).wf(),
        line.push_box(layout, aligns).wf(),
{
    lemma_finish_line_goes_on(line);
    lemma_finish_space_goes_on(line, hard);
    lemma_finish_space_goes_on(line, true);
    lemma_start_run_goes_on(line, aligns.cross);
    let aligned = line.break_for_aligns(aligns);
    assert(goes_on(line.stack, aligned.stack));
    assert(aligned.wf());
    lemma_break_for_size_goes_on(aligned, layout.size);
    lemma_goes_on_transitive(
        line.stack,
        aligned.stack,
        aligned.break_for_size(layout.size).stack,
    );
}

proof fn lemma_finish_line_goes_on<E>(line: LineView<E>)
    requires
        line.wf(),
    ensures
        goes_on(line.stack, line.finish_line().stack),
        line.finish_line().wf(),
{
    let boxed = line.run.line_box(line.ctx.dirs);
    let aligns = line.run.stack_aligns();
    let spacing = line.ctx.line_spacing;
    law_stack_goes_on(line.stack, boxed, aligns, spacing, true);
    let pushed = line.stack.push_box(boxed, aligns);
    law_stack_goes_on(pushed, boxed, aligns, spacing, true);
    lemma_goes_on_transitive(line.stack, pushed, pushed.push_gap(spacing));
}

proof fn lemma_finish_space_goes_on<E>(line: LineView<E>, hard: bool)
    requires
        line.wf(),
    ensures
        goes_on(line.stack, line.finish_space(hard).stack),
        line.finish_space(hard).wf(),
{
    lemma_finish_line_goes_on(line);
    let finished = line.finish_line_if_not_empty();
    assert(goes_on(line.stack, finished.stack));
    law_stack_goes_on(
        finished.stack,
        BoxView::blank(Size::zero()),
        start_aligns(),
        0,
        hard,
    );
    lemma_goes_on_transitive(line.stack, finished.stack, line.finish_space(hard).stack);
}

proof fn lemma_start_run_goes_on<E>(line: LineView<E>, align: GenAlign)
    requires
        line.wf(),
    ensures
        goes_on(line.stack, line.start_run(align).stack),
        line.start_run(align).wf(),
{
    lemma_finish_line_goes_on(line);
    let finished = line.finish_line();
    law_stack_goes_on(
        finished.stack,
        BoxView::blank(Size::zero()),
        start_aligns(),
        line.run.size.main,
        true,
    );
    lemma_goes_on_transitive(line.stack, finished.stack, line.start_run(align).stack);
}

proof fn lemma_break_for_size_goes_on<E>(line: LineView<E>, size: Size)
    requires
        line.wf(),
    ensures
        goes_on(line.stack, line.break_for_size(size).stack),
        line.break_for_size(size).wf(),
{
    lemma_finish_line_goes_on(line);
    let finished = line.finish_line_if_not_empty();
    assert(goes_on(line.stack, finished.stack));
    law_stack_goes_on(finished.stack, BoxView::blank(size), start_aligns(), 0, true);
    lemma_goes_on_transitive(
        line.stack,
        finished.stack,
        finished.stack.skip_to_fitting_space(size),
    );
}

/// In a repeating line layouter the alignments in a space of its stack only
/// increase, whatever is pushed.
pub proof fn law_line_alignments_increase<E>(
    line: LineView<E>,
    layout: BoxView<E>,
    aligns: Gen2<GenAlign>,
    hard: bool,
)
    requires
        line.wf(),
        line.ctx.repeat,
        aligned_in_order(line.stack),
    ensures
        aligned_in_order(line.finish_line().stack),
        aligned_in_order(line.finish_space(hard).stack),
        aligned_in_order(line.push_box(layout, aligns).stack),
{
    lemma_finish_line_in_order(line);
    lemma_finish_space_in_order(line, hard);
    lemma_finish_space_in_order(line, true);
    lemma_start_run_in_order(line, aligns.cross);
    law_line_goes_on(line, layout, aligns, true);
    lemma_start_run_goes_on(line, aligns.cross);
    let aligned = line.break_for_aligns(aligns);
    assert(aligned_in_order(aligned.stack));
    assert(aligned.wf());
    lemma_break_for_size_in_order(aligned, layout.size);
}

proof fn lemma_finish_line_in_order<E>(line: LineView<E>)
    requires
        line.wf(),
        line.ctx.repeat,
        aligned_in_order(line.stack),
    ensures
        aligned_in_order(line.finish_line().stack),
{
    let boxed = line.run.line_box(line.ctx.dirs);
    let aligns = line.run.stack_aligns();
    let spacing = line.ctx.line_spacing;
    law_alignments_increase(line.stack, boxed, aligns, spacing, true);
    law_stack_goes_on(line.stack, boxed, aligns, spacing, true);
    law_alignments_increase(line.stack.push_box(boxed, aligns), boxed, aligns, spacing, true);
}

proof fn lemma_finish_space_in_order<E>(line: LineView<E>, hard: bool)
    requires
        line.wf(),
        line.ctx.repeat,
        aligned_in_order(line.stack),
    ensures
        aligned_in_order(line.finish_space(hard).stack),
{
    assert(line.finish_space(hard).stack.space.layouts.len() == 0);
}

proof fn lemma_start_run_in_order<E>(line: LineView<E>, align: GenAlign)
    requires
        line.wf(),
        line.ctx.repeat,
        aligned_in_order(line.stack),
    ensures
        aligned_in_order(line.start_run(align).stack),
{
    lemma_finish_line_in_order(line);
    lemma_finish_line_goes_on(line);
    law_alignments_increase(
        line.finish_line().stack,
        BoxView::blank(Size::zero()),
        start_aligns(),
        line.run.size.main,
        true,
    );
}

proof fn lemma_break_for_size_in_order<E>(line: LineView<E>, size: Size)
    requires
        line.wf(),
        line.ctx.repeat,
        aligned_in_order(line.stack),
    ensures
        aligned_in_order(line.break_for_size(size).stack),
{
    lemma_finish_line_in_order(line);
    lemma_finish_line_goes_on(line);
    let finished = line.finish_line_if_not_empty();
    assert(aligned_in_order(finished.stack));
    law_alignments_increase(finished.stack, BoxView::blank(size), start_aligns(), 0, true);
}

/// A paragraph without boxes finishes like an empty stack: no line is made for
/// it.
pub proof fn law_empty_line_is_not_stacked<E>(ctx: LineContextView)
    ensures
        LineView::<E>::fresh(ctx).finish() == StackView::<E>::fresh(ctx.for_stack()).finish(),
{
}

// Offsets between lines.

/// The box for the whole line.
pub open spec fn whole_line<E>(line: LineView<E>) -> BoxView<E> {
    line.run.line_box(line.ctx.dirs)
}

/// Whether the line, when it is finished, is added to the in-progress space.
pub open spec fn stays_in_space<E>(line: LineView<E>) -> bool {
    let align = line.run.stack_aligns().main;
    &&& line.stack.usable().fits(line.run.size.switch(line.ctx.dirs).to_size())
    &&& line.ctx.repeat ==> line.stack.space.allowed_align.rank() <= align.rank()
}

/// The part of the usable size that the gap behind the line takes up: the line
/// spacing or, if less is left, that.
pub open spec fn gap_behind<E>(line: LineView<E>) -> Length {
    let left = line.stack.usable().switch(line.ctx.dirs).main - line.run.size.main;
    shorter(line.ctx.line_spacing, longer(fit(left), 0))
}

/// A line that fits is stacked in its space with its own size, behind the gap
/// that was due.
pub proof fn law_line_is_stacked<E>(line: LineView<E>)
    requires
        line.wf(),
        stays_in_space(line),
    ensures
        line.finish_line().stack.layouts == line.stack.layouts,
        line.finish_line().stack.space.index == line.stack.space.index,
        line.finish_line().stack.space.layouts == line.stack.insert_gap(
            whole_line(line).size,
        ).space.layouts.push((whole_line(line), line.run.stack_aligns())),
        line.finish_line().stack.space.gap == Some(line.ctx.line_spacing),
        whole_line(line).size.switch(line.ctx.dirs) == line.run.size,
{
}

/// The usable size after a line that fits is that before it, without the line and
/// the gap behind it.
pub proof fn law_line_and_gap_use_up_space<E>(line: LineView<E>)
    requires
        line.wf(),
        stays_in_space(line),
        0 <= line.run.size.main,
        representable(
            line.stack.space.usable.switch(line.ctx.dirs).main - gap_before(
                line.stack,
                whole_line(line).size,
            ),
        ),
    ensures
        line.finish_line().stack.usable().switch(line.ctx.dirs) == (Gen2 {
            main: fit(
                line.stack.usable().switch(line.ctx.dirs).main - line.run.size.main - gap_behind(
                    line,
                ),
            ),
            cross: line.stack.usable().switch(line.ctx.dirs).cross,
        }),
{
    law_line_is_stacked(line);
}

/// Whether the children begin with what is stacked in the in-progress space.
pub open spec fn extends<E>(children: Seq<Child<E>>, stack: StackView<E>) -> bool {
    &&& stack.space.layouts.len() < children.len()
    &&& forall|i: int|
        #![trigger children[i]]
        0 <= i < stack.space.layouts.len() ==> children[i] == stack.space.layouts[i]
}

/// The new line is offset along the main axis by the height of the previous line
/// plus the line spacing: in a finished space, the next line with the same
/// alignment, if it takes up room at all, lies that much behind the line.
pub proof fn law_new_line_is_offset<E>(
    line: LineView<E>,
    next: Size,
    children: Seq<Child<E>>,
    size: Size,
)
    requires
        line.wf(),
        0 < next.switch(line.ctx.dirs).main,
        extends(children, line.finish_line().stack.insert_gap(next)),
        ({
            let n = line.finish_line().stack.space.layouts.len() - 1;
            &&& children[n + 2].1.main == line.run.stack_aligns().main
            &&& exact(children, line.ctx.dirs, size, n)
            &&& exact(children, line.ctx.dirs, size, n + 2)
        }),
    ensures
        ({
            let n = line.finish_line().stack.space.layouts.len() - 1;
            &&& children[n] == (whole_line(line), line.run.stack_aligns())
            &&& main_position(children, line.ctx.dirs, size, n + 2) == main_position(
                children,
                line.ctx.dirs,
                size,
                n,
            ) + 2 * (line.run.size.main + line.ctx.line_spacing)
        }),
{
    let dirs = line.ctx.dirs;
    let axis = dirs.main.axis();
    lemma_finish_line_changes_stack(line);
    lemma_finish_line_goes_on(line);
    let finished = line.finish_line().stack;
    let n = finished.space.layouts.len() - 1;
    lemma_full_gap(finished, next);
    let stacked = finished.insert_gap(next).space.layouts;
    assert(stacked == finished.space.layouts.push(
        (finished.blank_box(line.ctx.line_spacing), start_aligns()),
    ));
    assert(children[n] == stacked[n]);
    assert(children[n + 1] == stacked[n + 1]);
    law_same_alignment_offset(children, dirs, size, n, n + 2);
    assert(extent_sum(children, axis, n, n) == 0);
    assert(extent_sum(children, axis, n, n + 1) == line.run.size.main);
    assert(extent_sum(children, axis, n, n + 2) == line.run.size.main + line.ctx.line_spacing);
}

/// Before a box that takes up room, the gap that is due is not reduced.
pub proof fn lemma_full_gap<E>(stack: StackView<E>, size: Size)
    requires
        0 < size.switch(stack.ctx.dirs).main,
    ensures
        stack.space.gap matches Some(gap) ==> gap_before(stack, size) == gap,
{
}

/// A new run starts at the height of the line that it belongs to: in a finished
/// space, what is stacked next with the same main-axis alignment is level with
/// the run before it.
pub proof fn law_new_run_is_level<E>(
    line: LineView<E>,
    align: GenAlign,
    children: Seq<Child<E>>,
    size: Size,
)
    requires
        line.wf(),
        representable(-line.run.size.main),
        extends(children, line.start_run(align).stack),
        ({
            let n = line.finish_line().stack.space.layouts.len() - 1;
            &&& children[n + 2].1.main == line.run.stack_aligns().main
            &&& exact(children, line.ctx.dirs, size, n)
            &&& exact(children, line.ctx.dirs, size, n + 2)
        }),
    ensures
        ({
            let n = line.finish_line().stack.space.layouts.len() - 1;
            &&& children[n] == (whole_line(line), line.run.stack_aligns())
            &&& main_position(children, line.ctx.dirs, size, n + 2) == main_position(
                children,
                line.ctx.dirs,
                size,
                n,
            )
        }),
{
    let dirs = line.ctx.dirs;
    let axis = dirs.main.axis();
    lemma_finish_line_changes_stack(line);
    lemma_finish_line_goes_on(line);
    let finished = line.finish_line().stack;
    let n = finished.space.layouts.len() - 1;
    let stacked = line.start_run(align).stack.space.layouts;
    assert(stacked == finished.space.layouts.push(
        (finished.blank_box(fit(-line.run.size.main)), start_aligns()),
    ));
    assert(children[n] == stacked[n]);
    assert(children[n + 1] == stacked[n + 1]);
    law_same_alignment_offset(children, dirs, size, n, n + 2);
    assert(extent_sum(children, axis, n, n) == 0);
    assert(extent_sum(children, axis, n, n + 1) == line.run.size.main);
    assert(extent_sum(children, axis, n, n + 2) == 0);
}

/// A new run gets no gap before it and is at least as high as the run before it,
/// whose height it takes back: a line of several runs is as high as its highest
/// run.
pub proof fn law_line_is_as_high_as_its_highest_run<E>(line: LineView<E>, align: GenAlign)
    requires
        line.wf(),
        stays_in_space(line),
        0 <= line.run.size.main,
        ({
            let spaced = line.stack.insert_gap(whole_line(line).size);
            representable(spaced.space.used.switch(line.ctx.dirs).main + line.run.size.main)
        }),
    ensures
        line.start_run(align).stack.space.used.switch(line.ctx.dirs).main
            == line.stack.insert_gap(whole_line(line).size).space.used.switch(line.ctx.dirs).main,
        line.start_run(align).stack.space.gap is None,
        line.start_run(align).run.size.main == line.run.size.main,
{
    law_line_is_stacked(line);
}

/// What fits into the first of the remaining spaces fits into the stack below
/// the line, and after the line it still fits, unless the gap behind the line
/// takes the place.
pub proof fn law_remaining_fits_below_line<E>(line: LineView<E>, size: Size)
    requires
        line.wf(),
        0 <= line.run.size.main,
        line.remaining()[0].size.fits(size),
        representable(line.stack.usable().switch(line.ctx.dirs).main - line.run.size.main),
        representable(
            line.stack.space.usable.switch(line.ctx.dirs).main - gap_before(
                line.stack,
                whole_line(line).size,
            ),
        ),
    ensures
        size.switch(line.ctx.dirs).main + line.run.size.main <= line.stack.usable().switch(
            line.ctx.dirs,
        ).main,
        size.switch(line.ctx.dirs).cross <= line.stack.usable().switch(line.ctx.dirs).cross,
        stays_in_space(line) && size.switch(line.ctx.dirs).main + gap_behind(line)
            <= line.remaining()[0].size.switch(line.ctx.dirs).main
            ==> line.finish_line().stack.usable().fits(size),
{
    if stays_in_space(line) {
        law_line_and_gap_use_up_space(line);
    }
}

/// What fits into one of the remaining spaces and has the alignment of the line
/// is set on a line that it fits into, provided that the line before it stays in
/// its space and that the space is there: after the last space there is none
/// unless it repeats. If the line has to be broken, there must also be room for
/// the gap behind it in the first of the remaining spaces.
pub proof fn law_box_fits_if_laid_out_into_remaining_of_line<E>(
    line: LineView<E>,
    layout: BoxView<E>,
    aligns: Gen2<GenAlign>,
    k: int,
)
    requires
        line.wf(),
        0 <= line.run.size.main,
        line.run.aligns is None || line.run.aligns == Some(aligns),
        line.line_is_empty() ==> line.run.usable is None,
        !line.line_is_empty() ==> stays_in_space(line),
        0 <= k < line.remaining().len(),
        line.remaining()[k].size.fits(layout.size),
        k > 0 ==> line.has_next_space(),
        k == 0 ==> representable(
            line.stack.usable().switch(line.ctx.dirs).main - line.run.size.main,
        ) && representable(
            line.stack.space.usable.switch(line.ctx.dirs).main - gap_before(
                line.stack,
                whole_line(line).size,
            ),
        ),
        k == 0 && !line.line_is_empty() && !line.fits(layout.size) ==> layout.size.switch(
            line.ctx.dirs,
        ).main + gap_behind(line) <= line.remaining()[0].size.switch(line.ctx.dirs).main,
    ensures
        line.break_for_aligns(aligns).break_for_size(layout.size).fits(layout.size),
{
    let size = layout.size;
    let finished = line.finish_line_if_not_empty();
    if !line.line_is_empty() {
        law_line_is_stacked(line);
    }
    if k == 0 {
        law_remaining_fits_below_line(line, size);
    } else {
        let to = line.stack.next_space() + k - 1;
        assert(line.remaining()[k] == line.stack.ctx.spaces[to]);
        assert(finished.stack.next_space() == line.stack.next_space());
        assert(finished.stack.ctx == line.stack.ctx);
        lemma_first_fit(line.stack.ctx.spaces, size, line.stack.next_space());
    }
}

// Positions in a line.

/// Whether the boxes of the run follow each other without overlapping.
pub open spec fn in_order<E>(run: RunView<E>, dirs: Gen2<Dir>) -> bool {
    &&& 0 <= run.size.cross
    &&& forall|i: int|
        0 <= i < run.layouts.len() ==> 0 <= (#[trigger] run.layouts[i]).0 && run.layouts[i].0
            + run.layouts[i].1.size.switch(dirs).cross <= run.size.cross
    &&& forall|i: int, j: int|
        #![trigger run.layouts[i], run.layouts[j]]
        0 <= i < j < run.layouts.len() ==> run.layouts[i].0 + run.layouts[i].1.size.switch(
            dirs,
        ).cross <= run.layouts[j].0
}

/// Pushing a box keeps the boxes of the line in order.
pub proof fn law_push_box_keeps_order<E>(
    line: LineView<E>,
    layout: BoxView<E>,
    aligns: Gen2<GenAlign>,
)
    requires
        in_order(line.run, line.ctx.dirs),
        0 <= layout.size.switch(line.ctx.dirs).cross,
        representable(
            line.break_for_aligns(aligns).break_for_size(layout.size).run.size.cross
                + layout.size.switch(line.ctx.dirs).cross,
        ),
    ensures
        in_order(line.push_box(layout, aligns).run, line.ctx.dirs),
{
    lemma_breaks_keep_order(line, aligns, layout.size);
    let aligned = line.break_for_aligns(aligns);
    assert(in_order(aligned.run, line.ctx.dirs));
    lemma_breaks_keep_order(aligned, aligns, layout.size);
    let ready = aligned.break_for_size(layout.size);
    lemma_append_keeps_order(ready.run, layout, line.ctx.dirs, aligns);
}

proof fn lemma_breaks_keep_order<E>(line: LineView<E>, aligns: Gen2<GenAlign>, size: Size)
    requires
        in_order(line.run, line.ctx.dirs),
    ensures
        in_order(line.break_for_aligns(aligns).run, line.ctx.dirs),
        in_order(line.break_for_size(size).run, line.ctx.dirs),
        line.break_for_aligns(aligns).ctx == line.ctx,
{
    assert(in_order(RunView::<E>::fresh(), line.ctx.dirs));
}

proof fn lemma_append_keeps_order<E>(
    run: RunView<E>,
    layout: BoxView<E>,
    dirs: Gen2<Dir>,
    aligns: Gen2<GenAlign>,
)
    requires
        in_order(run, dirs),
        0 <= layout.size.switch(dirs).cross,
        representable(run.size.cross + layout.size.switch(dirs).cross),
    ensures
        in_order(run.append(layout, dirs, aligns), dirs),
{
    let after = run.append(layout, dirs, aligns);
    assert forall|i: int| 0 <= i < after.layouts.len() implies 0 <= (
    #[trigger] after.layouts[i]).0 && after.layouts[i].0 + after.layouts[i].1.size.switch(
        dirs,
    ).cross <= after.size.cross by {
        if i < run.layouts.len() {
            assert(after.layouts[i] == run.layouts[i]);
        }
    }
    assert forall|i: int, j: int|
        #![trigger after.layouts[i], after.layouts[j]]
        0 <= i < j < after.layouts.len() implies after.layouts[i].0
        + after.layouts[i].1.size.switch(dirs).cross <= after.layouts[j].0 by {
        assert(after.layouts[i] == run.layouts[i]);
        if j < run.layouts.len() {
            assert(after.layouts[j] == run.layouts[j]);
        }
    }
}

/// Pushing spacing that is not negative, into a line that is not over-full,
/// keeps the boxes of the line in order.
pub proof fn law_push_spacing_keeps_order<E>(line: LineView<E>, spacing: Length)
    requires
        in_order(line.run, line.ctx.dirs),
        0 <= spacing,
        0 <= line.usable().cross,
    ensures
        in_order(line.push_spacing(spacing).run, line.ctx.dirs),
{
}

/// The doubled cross-axis coordinate of a box in its line.
pub open spec fn item_cross<E>(run: RunView<E>, dirs: Gen2<Dir>, i: int) -> Length {
    run.item_position(dirs, i).along(dirs.cross.axis())
}

/// The boxes of a line that are in order do not overlap and stay inside of the
/// line. The cross direction tells whether they go from left to right (from top
/// to bottom) or the other way.
pub proof fn law_boxes_on_a_line_do_not_overlap<E>(
    run: RunView<E>,
    dirs: Gen2<Dir>,
    i: int,
    j: int,
)
    requires
        in_order(run, dirs),
        dirs.cross.axis() != dirs.main.axis(),
        representable(2 * run.size.cross),
        0 <= i < j < run.layouts.len(),
        0 <= run.layouts[i].1.size.switch(dirs).cross,
        0 <= run.layouts[j].1.size.switch(dirs).cross,
    ensures
        ({
            let first = run.layouts[i].1.size.switch(dirs).cross;
            let second = run.layouts[j].1.size.switch(dirs).cross;
            &&& dirs.cross.is_positive() ==> item_cross(run, dirs, i) + 2 * first <= item_cross(
                run,
                dirs,
                j,
            )
            &&& !dirs.cross.is_positive() ==> item_cross(run, dirs, j) + 2 * second <= item_cross(
                run,
                dirs,
                i,
            )
            &&& 0 <= item_cross(run, dirs, i) <= 2 * run.size.cross - 2 * first
            &&& 0 <= item_cross(run, dirs, j) <= 2 * run.size.cross - 2 * second
        }),
{
    let a = run.layouts[i];
    let b = run.layouts[j];
    assert(a.1.size.get(dirs.cross.axis()) == a.1.size.switch(dirs).cross);
    assert(b.1.size.get(dirs.cross.axis()) == b.1.size.switch(dirs).cross);
}

/// The number of elements in the first `n` boxes of a run.
pub open spec fn run_element_count<E>(run: RunView<E>, n: int) -> int
    decreases n,
{
    if n <= 0 {
        0
    } else {
        run_element_count(run, n - 1) + run.layouts[n - 1].1.elements.len()
    }
}

/// The boxes of a run bring as many elements as they have together.
pub proof fn lemma_line_elements_len<E>(run: RunView<E>, dirs: Gen2<Dir>, n: int)
    ensures
        run.line_elements(dirs, n).len() == run_element_count(run, n),
    decreases n,
{
    if n > 0 {
        lemma_line_elements_len(run, dirs, n - 1);
    }
}

proof fn lemma_line_element<E>(run: RunView<E>, dirs: Gen2<Dir>, n: int, i: int, k: int)
    requires
        0 <= i < n <= run.layouts.len(),
        0 <= k < run.layouts[i].1.elements.len(),
    ensures
        0 <= run_element_count(run, i),
        run_element_count(run, i) + k < run_element_count(run, n),
        run.line_elements(dirs, n)[run_element_count(run, i) + k] == (
            run.layouts[i].1.elements[k].0.moved(run.item_position(dirs, i)),
            run.layouts[i].1.elements[k].1,
        ),
    decreases n,
{
    lemma_line_elements_len(run, dirs, i);
    lemma_line_elements_len(run, dirs, n - 1);
    if i < n - 1 {
        lemma_line_element(run, dirs, n - 1, i, k);
    }
}

/// In the box for a line, each element of each box lies where it lay in the box,
/// seen from the position of the box.
pub proof fn law_line_elements_move_with_their_box<E>(
    run: RunView<E>,
    dirs: Gen2<Dir>,
    i: int,
    k: int,
)
    requires
        0 <= i < run.layouts.len(),
        0 <= k < run.layouts[i].1.elements.len(),
    ensures
        0 <= run_element_count(run, i) + k < run.line_box(dirs).elements.len(),
        run.line_box(dirs).elements[run_element_count(run, i) + k] == (
            run.layouts[i].1.elements[k].0.moved(run.item_position(dirs, i)),
            run.layouts[i].1.elements[k].1,
        ),
{
    let n = run.layouts.len() as int;
    lemma_line_element(run, dirs, n, i, k);
    lemma_line_elements_len(run, dirs, n);
}

/// Runs on the same line do not collide: if a run that starts at the start of the
/// line is followed by one that is centered or at the end and keeps to the
/// cross-space left for it, the second lies behind the first.
pub proof fn law_runs_share_the_line<E>(
    run: RunView<E>,
    dir: Dir,
    usable: Length,
    align: GenAlign,
    width: Length,
)
    requires
        !(align is Start),
        0 <= run.size.cross,
        width <= run.following(usable, align).usable->0,
        representable(usable - 2 * run.size.cross),
        representable(2 * (usable - width)),
    ensures
        dir.is_positive() ==> 2 * run.size.cross <= align.spec_place(
            dir,
            0,
            usable as int,
            width,
        ),
        !dir.is_positive() ==> align.spec_place(dir, 0, usable as int, width) + 2 * width <= 2 * (
        usable - run.size.cross),
{
}

} // verus!
