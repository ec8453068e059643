//! What holds of a paragraph after any sequence of items or lines.

use crate::boxes::{BoxView, ItemView, LayoutSpace};
use crate::geom::{start_aligns, Gen2, GenAlign, Size};
use crate::laws::lines::{law_line_goes_on, lemma_full_gap, whole_line};
use crate::laws::setting::{law_items_are_pushed_in_order, law_line_is_aligned_like_last_box};
use crate::laws::spaces::{
    can_push_box, gap_before, goes_on, law_stack_yields_a_layout, lemma_first_fit,
    lemma_goes_on_transitive, ready_for, yields_a_layout,
};
use crate::length::Length;
use crate::line::{LineContextView, LineView, RunView};
use crate::par::{Par, ParLayouter, ParView};
use crate::stack::{SpaceView, StackView};
use vstd::prelude::*;

verus! {

// What a paragraph hands on.

/// The lines of a paragraph have its directions, its line spacing and its expansion,
/// and the spaces that it is laid out into.
pub proof fn law_lines_are_set_as_paragraph_says<N>(
    par: Par<N>,
    spaces: Seq<LayoutSpace>,
    repeat: bool,
)
    ensures
        par.line_context(spaces, repeat).dirs == par.dirs,
        par.line_context(spaces, repeat).line_spacing == par.line_spacing,
        par.line_context(spaces, repeat).expand == par.expand,
        par.line_context(spaces, repeat).spaces == spaces,
        par.line_context(spaces, repeat).repeat == repeat,
{
}

/// The view of a paragraph that is being laid out shows what is in it.
pub proof fn law_view_of_paragraph<E>(par: ParLayouter<E>)
    ensures
        par@.line == par.line@,
        par@.aligns == par.aligns,
        par@.next == par.next,
        par@.count == par.count,
        par@.wf() <==> par@.line.wf() && par.next <= par.count,
{
}

/// The items of a child go onto the lines one after the other, and the next child is
/// awaited.
pub proof fn law_accepted_items<E>(par: ParView<E>, items: Seq<ItemView<E>>, last: ItemView<E>)
    ensures
        par.accept(Seq::empty()).line == par.line,
        par.accept(items.push(last)).line == par.accept(items).line.push_item(last),
        par.accept(items).next == par.next + 1,
        par.accept(items).count == par.count,
        par.accept(items).aligns == par.aligns,
{
    law_items_are_pushed_in_order(par.line, items, last);
}

/// It makes no difference whether one child yields all items or two children yield
/// them in two parts.
pub proof fn law_items_of_two_children<E>(
    par: ParView<E>,
    first: Seq<ItemView<E>>,
    second: Seq<ItemView<E>>,
)
    ensures
        par.accept(first).accept(second).line == par.accept(first + second).line,
    decreases second.len(),
{
    if second.len() == 0 {
        assert(first + second =~= first);
        assert(second =~= Seq::empty());
        law_items_are_pushed_in_order(par.accept(first).line, second, ItemView::Spacing(0));
    } else {
        let rest = second.drop_last();
        let last = second.last();
        law_items_of_two_children(par, first, rest);
        assert(rest.push(last) =~= second);
        assert((first + rest).push(last) =~= first + second);
        law_items_are_pushed_in_order(par.accept(first).line, rest, last);
        law_items_are_pushed_in_order(par.line, first + rest, last);
    }
}

/// After a child whose last item is a box, that box is the last one on the line, and
/// the line has the alignment of the box.
pub proof fn law_accepted_box_keeps_alignment<E>(
    par: ParView<E>,
    items: Seq<ItemView<E>>,
    boxed: BoxView<E>,
    aligns: Gen2<GenAlign>,
)
    requires
        items.len() > 0,
        items.last() == ItemView::Box(boxed, aligns),
    ensures
        par.accept(items).line.run.aligns == Some(aligns),
        par.accept(items).line.run.layouts.len() > 0,
        par.accept(items).line.run.layouts.last().1 == boxed,
{
    law_line_is_aligned_like_last_box(par.line, items, boxed, aligns);
}

/// A paragraph hands out the layouts of its lines in their order, each as a box with
/// the alignment of the paragraph.
pub proof fn law_finished_paragraph<E>(par: ParView<E>, i: int)
    ensures
        par.finish().len() == par.line.finish().len(),
        0 <= i < par.line.finish().len() ==> par.finish()[i] == ItemView::Box(
            par.line.finish()[i],
            par.aligns,
        ),
{
}

// Layouts come out.

proof fn lemma_finish_line_yields_a_layout<E>(line: LineView<E>)
    requires
        yields_a_layout(line.stack),
    ensures
        yields_a_layout(line.finish_line().stack),
        yields_a_layout(line.finish_line_if_not_empty().stack),
{
    law_stack_yields_a_layout(
        line.stack,
        line.stack.ctx,
        whole_line(line),
        line.run.stack_aligns(),
        0,
        true,
    );
}

/// A line layouter never finishes without a layout, whatever is pushed into it.
pub proof fn law_line_yields_a_layout<E>(
    line: LineView<E>,
    layout: BoxView<E>,
    aligns: Gen2<GenAlign>,
    hard: bool,
)
    requires
        yields_a_layout(line.stack),
    ensures
        line.finish().len() > 0,
        yields_a_layout(line.finish_space(hard).stack),
        yields_a_layout(line.push_box(layout, aligns).stack),
{
    lemma_finish_line_yields_a_layout(line);
    let aligned = line.break_for_aligns(aligns);
    assert(yields_a_layout(aligned.stack));
    lemma_finish_line_yields_a_layout(aligned);
}

proof fn lemma_items_yield_a_layout<E>(ctx: LineContextView, items: Seq<ItemView<E>>)
    ensures
        yields_a_layout(LineView::<E>::fresh(ctx).push_items(items).stack),
    decreases items.len(),
{
    if items.len() > 0 {
        lemma_items_yield_a_layout(ctx, items.drop_last());
        let before = LineView::<E>::fresh(ctx).push_items(items.drop_last());
        reveal(LineView::push_item);
        match items.last() {
            ItemView::Spacing(_) => {},
            ItemView::Box(boxed, aligns) => law_line_yields_a_layout(before, boxed, aligns, true),
        }
    }
}

/// Whatever items are pushed, a line layouter finishes with at least one layout.
pub proof fn law_line_finish_is_never_empty<E>(ctx: LineContextView, items: Seq<ItemView<E>>)
    ensures
        LineView::<E>::fresh(ctx).push_items(items).finish().len() > 0,
{
    lemma_items_yield_a_layout(ctx, items);
    let line = LineView::<E>::fresh(ctx).push_items(items);
    law_line_yields_a_layout(line, BoxView::blank(Size::zero()), start_aligns(), true);
}

/// Whatever its children yield, a paragraph finishes with at least one box.
pub proof fn law_paragraph_is_never_empty<E>(
    ctx: LineContextView,
    items: Seq<ItemView<E>>,
    par: ParView<E>,
)
    requires
        par.line == LineView::<E>::fresh(ctx).push_items(items),
    ensures
        par.finish().len() > 0,
{
    law_line_finish_is_never_empty(ctx, items);
}

// Copies of the last space.

/// Pushing into a non-repeating line layouter never starts a copy of the last
/// space: a layout is finished only in exchange for a space that follows.
pub proof fn law_non_repeating_line_starts_no_copy<E>(
    line: LineView<E>,
    layout: BoxView<E>,
    aligns: Gen2<GenAlign>,
    spacing: Length,
)
    requires
        line.wf(),
        !line.ctx.repeat,
    ensures
        ({
            let pushed = line.push_box(layout, aligns);
            let finished = pushed.stack.layouts.len() - line.stack.layouts.len();
            &&& 0 <= finished <= pushed.stack.space.index - line.stack.space.index
            &&& line.stack.space.index == line.ctx.spaces.len() - 1 ==> pushed.stack.layouts
                == line.stack.layouts && pushed.stack.space.index == line.stack.space.index
        }),
        line.push_spacing(spacing).stack == line.stack,
        line.finish_line().stack.layouts == line.stack.layouts,
        line.finish_line().stack.space.index == line.stack.space.index,
{
    law_line_goes_on(line, layout, aligns, true);
    let aligned = line.break_for_aligns(aligns);
    lemma_non_repeating_finish_line(line);
    assert(aligned.stack.layouts == line.stack.layouts);
    assert(aligned.stack.space.index == line.stack.space.index);
    assert(aligned.stack.ctx == line.stack.ctx);
    lemma_non_repeating_finish_line(aligned);
    let finished = aligned.finish_line_if_not_empty().stack;
    lemma_first_fit(finished.ctx.spaces, layout.size, finished.next_space());
}

proof fn lemma_non_repeating_finish_line<E>(line: LineView<E>)
    requires
        !line.stack.ctx.repeat,
    ensures
        line.finish_line().stack.layouts == line.stack.layouts,
        line.finish_line().stack.space.index == line.stack.space.index,
        line.finish_line().stack.ctx == line.stack.ctx,
{
}

proof fn lemma_no_more_layouts_than_spaces<E>(ctx: LineContextView, items: Seq<ItemView<E>>)
    requires
        !ctx.repeat,
        ctx.spaces.len() > 0,
    ensures
        LineView::<E>::fresh(ctx).push_items(items).wf(),
        LineView::<E>::fresh(ctx).push_items(items).ctx == ctx,
        LineView::<E>::fresh(ctx).push_items(items).stack.layouts.len()
            <= LineView::<E>::fresh(ctx).push_items(items).stack.space.index,
    decreases items.len(),
{
    if items.len() > 0 {
        lemma_no_more_layouts_than_spaces(ctx, items.drop_last());
        let before = LineView::<E>::fresh(ctx).push_items(items.drop_last());
        reveal(LineView::push_item);
        match items.last() {
            ItemView::Spacing(_) => {},
            ItemView::Box(boxed, aligns) => {
                law_non_repeating_line_starts_no_copy(before, boxed, aligns, 0);
                law_line_goes_on(before, boxed, aligns, true);
                lemma_push_box_keeps_ctx(before, boxed, aligns);
            },
        }
    }
}

proof fn lemma_push_box_keeps_ctx<E>(
    line: LineView<E>,
    layout: BoxView<E>,
    aligns: Gen2<GenAlign>,
)
    ensures
        line.push_box(layout, aligns).ctx == line.ctx,
{
}

/// Without repetition, layouting is over when the last space is used up: whatever
/// items are pushed, there are no more layouts than spaces.
pub proof fn law_non_repeating_line_has_no_more_layouts_than_spaces<E>(
    ctx: LineContextView,
    items: Seq<ItemView<E>>,
)
    requires
        !ctx.repeat,
        ctx.spaces.len() > 0,
    ensures
        LineView::<E>::fresh(ctx).push_items(items).finish().len() <= ctx.spaces.len(),
{
    lemma_no_more_layouts_than_spaces(ctx, items);
    let line = LineView::<E>::fresh(ctx).push_items(items);
    lemma_non_repeating_finish_line(line);
}

// Remaining spaces.

/// Whether all items are boxes that are aligned at the start, are not of negative
/// size and fit into the first of the remaining spaces as it is when they are
/// pushed.
pub open spec fn fit_below_line<E>(ctx: LineContextView, items: Seq<ItemView<E>>) -> bool
    decreases items.len(),
{
    items.len() > 0 ==> {
        let before = LineView::<E>::fresh(ctx).push_items(items.drop_last());
        &&& fit_below_line(ctx, items.drop_last())
        &&& items.last() matches ItemView::Box(boxed, aligns)
        &&& aligns == start_aligns()
        &&& boxed.size.fits(Size::zero())
        &&& before.remaining()[0].size.fits(boxed.size)
    }
}

/// Whether nothing has left the first space and everything in it is aligned at the
/// start, with no gaps between lines.
pub open spec fn in_first_space<E>(line: LineView<E>) -> bool {
    &&& line.wf()
    &&& line.ctx.line_spacing == 0
    &&& line.stack.layouts.len() == 0
    &&& line.stack.space.index == 0
    &&& line.stack.space.allowed_align is Start
    &&& line.stack.space.gap matches Some(gap) ==> gap == 0
    &&& line.run.aligns matches Some(aligns) ==> aligns == start_aligns()
    &&& line.run.usable is None
    &&& 0 <= line.run.size.main
    &&& 0 <= line.run.size.cross
}

proof fn lemma_zero_gap<E>(stack: StackView<E>)
    requires
        stack.space.gap matches Some(gap) ==> gap == 0,
    ensures
        stack.usable() == stack.space.usable,
{
}

proof fn lemma_finish_line_in_first_space<E>(line: LineView<E>)
    requires
        in_first_space(line),
        line.stack.usable().fits(line.run.size.switch(line.ctx.dirs).to_size()),
    ensures
        in_first_space(line.finish_line()),
        line.finish_line().line_is_empty(),
        line.finish_line().ctx == line.ctx,
        line.finish_line().stack.usable().switch(line.ctx.dirs).cross == line.stack.usable().switch(
            line.ctx.dirs,
        ).cross,
        line.finish_line().stack.usable().switch(line.ctx.dirs).main == line.stack.usable().switch(
            line.ctx.dirs,
        ).main - line.run.size.main,
{
    lemma_zero_gap(line.stack);
    lemma_zero_gap(line.finish_line().stack);
}

proof fn lemma_push_box_in_first_space<E>(line: LineView<E>, layout: BoxView<E>)
    requires
        in_first_space(line),
        line.line_is_empty() || line.stack.usable().fits(
            line.run.size.switch(line.ctx.dirs).to_size(),
        ),
        layout.size.fits(Size::zero()),
        line.remaining()[0].size.fits(layout.size),
    ensures
        in_first_space(line.push_box(layout, start_aligns())),
        line.push_box(layout, start_aligns()).ctx == line.ctx,
        line.push_box(layout, start_aligns()).stack.usable().fits(
            line.push_box(layout, start_aligns()).run.size.switch(line.ctx.dirs).to_size(),
        ),
{
    assert(line.break_for_aligns(start_aligns()) == line);
    let z = layout.size.switch(line.ctx.dirs);
    let u = line.stack.usable().switch(line.ctx.dirs);
    assert(z.main + line.run.size.main <= u.main && z.cross <= u.cross);
    if !line.fits(layout.size) {
        lemma_finish_line_in_first_space(line);
        assert(line.finish_line().fits(layout.size));
    }
}

proof fn lemma_items_in_first_space<E>(ctx: LineContextView, items: Seq<ItemView<E>>)
    requires
        ctx.spaces.len() > 0,
        ctx.line_spacing == 0,
        fit_below_line(ctx, items),
    ensures
        ({
            let line = LineView::<E>::fresh(ctx).push_items(items);
            &&& in_first_space(line)
            &&& line.ctx == ctx
            &&& line.line_is_empty() || line.stack.usable().fits(
                line.run.size.switch(ctx.dirs).to_size(),
            )
            &&& items.len() > 0 ==> line.stack.usable().fits(
                line.run.size.switch(ctx.dirs).to_size(),
            )
        }),
    decreases items.len(),
{
    if items.len() > 0 {
        lemma_items_in_first_space(ctx, items.drop_last());
        let before = LineView::<E>::fresh(ctx).push_items(items.drop_last());
        let boxed = items.last()->Box_0;
        assert(before.push_item(items.last()) == before.push_box(boxed, start_aligns())) by {
            reveal(LineView::push_item);
        }
        lemma_push_box_in_first_space(before, boxed);
    }
}

/// Without line spacing, what fits into the first of the remaining spaces goes into
/// the active space, whether or not a line break is needed: after any number of
/// such boxes no space is finished and the line fits into what is usable.
pub proof fn law_boxes_that_fit_remaining_stay_in_space<E>(
    ctx: LineContextView,
    items: Seq<ItemView<E>>,
)
    requires
        ctx.spaces.len() > 0,
        ctx.line_spacing == 0,
        items.len() > 0,
        fit_below_line(ctx, items),
    ensures
        ({
            let line = LineView::<E>::fresh(ctx).push_items(items);
            &&& line.stack.layouts.len() == 0
            &&& line.stack.space.index == 0
            &&& line.stack.usable().fits(line.run.size.switch(ctx.dirs).to_size())
        }),
{
    lemma_items_in_first_space(ctx, items);
}

// Heights of lines.

/// The layouter after it has finished the given lines, one after the other.
pub open spec fn with_lines<E>(line: LineView<E>, runs: Seq<RunView<E>>) -> LineView<E>
    decreases runs.len(),
{
    if runs.len() == 0 {
        line
    } else {
        LineView { run: runs.last(), ..with_lines(line, runs.drop_last()) }.finish_line()
    }
}

/// The summed heights of lines.
pub open spec fn summed_heights<E>(runs: Seq<RunView<E>>) -> int
    decreases runs.len(),
{
    if runs.len() == 0 {
        0
    } else {
        summed_heights(runs.drop_last()) + runs.last().size.main
    }
}

/// Whether the sizes in the stack stay representable while the lines are finished,
/// all of which take up room.
pub open spec fn can_measure_lines<E>(line: LineView<E>, runs: Seq<RunView<E>>) -> bool
    decreases runs.len(),
{
    runs.len() > 0 ==> {
        let before = LineView { run: runs.last(), ..with_lines(line, runs.drop_last()) };
        &&& can_measure_lines(line, runs.drop_last())
        &&& 0 < runs.last().size.main
        &&& can_push_box(before.stack, whole_line(before), before.run.stack_aligns())
    }
}

/// The main-axis extent of lines with line spacing between each pair of them.
pub open spec fn lines_extent<E>(runs: Seq<RunView<E>>, spacing: Length) -> int {
    if runs.len() == 0 {
        0
    } else {
        summed_heights(runs) + (runs.len() - 1) * spacing
    }
}

proof fn lemma_used_by_push_box<E>(stack: StackView<E>, layout: BoxView<E>, aligns: Gen2<GenAlign>)
    requires
        can_push_box(stack, layout, aligns),
        stack.push_box(layout, aligns).layouts.len() == stack.layouts.len(),
    ensures
        ready_for(stack, layout, aligns) == stack,
        stack.push_box(layout, aligns).space.index == stack.space.index,
        stack.push_box(layout, aligns).space.used.switch(stack.ctx.dirs).main
            == stack.space.used.switch(stack.ctx.dirs).main + gap_before(stack, layout.size)
            + layout.size.switch(stack.ctx.dirs).main,
{
    let ready = ready_for(stack, layout, aligns);
    assert(ready.layouts.len() > stack.layouts.len() || ready == stack);
    let spaced = ready.insert_gap(layout.size);
    assert(stack.push_box(layout, aligns).layouts == ready.layouts);
    assert(spaced.space.used.switch(stack.ctx.dirs).main == stack.space.used.switch(
        stack.ctx.dirs,
    ).main + gap_before(stack, layout.size));
}

proof fn lemma_with_lines_goes_on<E>(line: LineView<E>, runs: Seq<RunView<E>>)
    requires
        line.wf(),
    ensures
        goes_on(line.stack, with_lines(line, runs).stack),
        with_lines(line, runs).wf(),
        with_lines(line, runs).ctx == line.ctx,
    decreases runs.len(),
{
    if runs.len() > 0 {
        lemma_with_lines_goes_on(line, runs.drop_last());
        let before = LineView { run: runs.last(), ..with_lines(line, runs.drop_last()) };
        law_line_goes_on(before, BoxView::blank(Size::zero()), start_aligns(), true);
        lemma_goes_on_transitive(line.stack, before.stack, before.finish_line().stack);
    }
}

/// A space that lines were stacked in uses the heights of the lines and the line
/// spacing between each pair of them, and its layout, if it shrinks on the main
/// axis, has that extent: there is no spacing behind the last line.
pub proof fn law_space_uses_lines_and_spacing_between<E>(
    line: LineView<E>,
    runs: Seq<RunView<E>>,
    hard: bool,
)
    requires
        line.wf(),
        line.stack.space == SpaceView::<E>::fresh(
            line.stack.space.index,
            line.stack.space.hard,
            line.stack.space.size,
        ),
        with_lines(line, runs).stack.layouts.len() == line.stack.layouts.len(),
        can_measure_lines(line, runs),
    ensures
        ({
            let stack = with_lines(line, runs).stack;
            let dirs = line.ctx.dirs;
            let extent = lines_extent(runs, line.ctx.line_spacing);
            &&& stack.space.used.switch(dirs).main == extent
            &&& (if dirs.main.axis() is Horizontal {
                !line.ctx.expand.horizontal
            } else {
                !line.ctx.expand.vertical
            }) ==> stack.finish_space(hard).layouts.last().size.switch(dirs).main == extent
        }),
{
    lemma_lines_extent(line, runs);
    lemma_with_lines_goes_on(line, runs);
}

proof fn lemma_lines_extent<E>(line: LineView<E>, runs: Seq<RunView<E>>)
    requires
        line.wf(),
        line.stack.space == SpaceView::<E>::fresh(
            line.stack.space.index,
            line.stack.space.hard,
            line.stack.space.size,
        ),
        with_lines(line, runs).stack.layouts.len() == line.stack.layouts.len(),
        can_measure_lines(line, runs),
    ensures
        with_lines(line, runs).stack.space.used.switch(line.ctx.dirs).main == lines_extent(
            runs,
            line.ctx.line_spacing,
        ),
        with_lines(line, runs).stack.space.gap == if runs.len() == 0 {
            None
        } else {
            Some(line.ctx.line_spacing)
        },
    decreases runs.len(),
{
    if runs.len() > 0 {
        let fewer = runs.drop_last();
        lemma_with_lines_goes_on(line, fewer);
        let before = LineView { run: runs.last(), ..with_lines(line, fewer) };
        law_line_goes_on(before, BoxView::blank(Size::zero()), start_aligns(), true);
        lemma_lines_extent(line, fewer);
        let boxed = whole_line(before);
        assert(boxed.size.switch(line.ctx.dirs).main == runs.last().size.main);
        lemma_used_by_push_box(before.stack, boxed, before.run.stack_aligns());
        lemma_full_gap(before.stack, boxed.size);
        let s = line.ctx.line_spacing as int;
        let n = runs.len() as int;
        let used = before.stack.space.used.switch(line.ctx.dirs).main as int;
        let gap = gap_before(before.stack, boxed.size) as int;
        let extent = lines_extent(runs, line.ctx.line_spacing);
        if n == 1 {
            assert(extent == runs.last().size.main) by {
                assert(summed_heights(fewer) == 0);
                assert((n - 1) * s == 0) by (nonlinear_arith)
                    requires
                        n == 1,
                ;
            }
            assert(used == 0 && gap == 0);
        } else {
            assert(used == summed_heights(fewer) + (n - 2) * s);
            assert(gap == s);
            assert((n - 1) * s == (n - 2) * s + s) by (nonlinear_arith);
        }
        assert(used + gap + runs.last().size.main == extent);
        let pushed = before.stack.push_box(boxed, before.run.stack_aligns());
        assert(with_lines(line, runs).stack == pushed.push_gap(line.ctx.line_spacing));
    }
}

} // verus!
