//! What each operation does to a stack, said on sizes, indices and boxes.

use crate::boxes::BoxView;
use crate::geom::{Dir, Gen2, GenAlign, Size, SpecAxis};
use crate::laws::placement::element_count;
use crate::length::{fit, Length};
use crate::stack::{
    child_position, extent_sum, placed_elements, Child, StackContextView, StackLayouter, StackView,
};
use vstd::prelude::*;

verus! {

// Vocabulary.

/// Whether two stacks are in the same space of the same context, with the same
/// finished layouts.
pub open spec fn same_place<E>(a: StackView<E>, b: StackView<E>) -> bool {
    &&& a.ctx == b.ctx
    &&& a.layouts == b.layouts
    &&& a.space.index == b.space.index
    &&& a.space.hard == b.space.hard
    &&& a.space.size == b.space.size
}

/// Whether nothing was laid out into the in-progress space, which is the one at
/// `index`.
pub open spec fn at_new_space<E>(stack: StackView<E>, index: int, hard: bool) -> bool {
    &&& stack.space.index == index
    &&& stack.space.hard == hard
    &&& stack.space.layouts.len() == 0
    &&& stack.space.size == stack.ctx.spaces[index].size
    &&& stack.space.usable == stack.ctx.spaces[index].size
    &&& stack.space.used.width == 0
    &&& stack.space.used.height == 0
    &&& stack.space.gap is None
    &&& stack.space.allowed_align is Start
}

/// Whether a child is spacing of the given main-axis extent.
pub open spec fn is_spacing<E>(child: Child<E>, dirs: Gen2<Dir>, extent: int) -> bool {
    &&& child.0.elements.len() == 0
    &&& child.0.size.switch(dirs).main == extent
    &&& child.0.size.switch(dirs).cross == 0
    &&& child.1.main is Start
    &&& child.1.cross is Start
}

/// What is left of the in-progress space on the main axis, gaps aside.
pub open spec fn left<E>(stack: StackView<E>) -> int {
    stack.space.usable.switch(stack.ctx.dirs).main as int
}

/// What is used of the in-progress space on the main axis.
pub open spec fn taken<E>(stack: StackView<E>) -> int {
    stack.space.used.switch(stack.ctx.dirs).main as int
}

/// Whether `extent` more is used, and less left, on the main axis.
pub open spec fn takes<E>(before: StackView<E>, after: StackView<E>, extent: int) -> bool {
    &&& taken(after) == fit(taken(before) + extent)
    &&& left(after) == fit(left(before) - extent)
}

/// Whether on the cross axis the same is left, and at least `extent` used.
pub open spec fn spans<E>(before: StackView<E>, after: StackView<E>, extent: int) -> bool {
    let dirs = before.ctx.dirs;
    let old_used = before.space.used.switch(dirs).cross;
    let new_used = after.space.used.switch(dirs).cross;
    &&& after.space.usable.switch(dirs).cross == before.space.usable.switch(dirs).cross
    &&& new_used == if old_used < extent {
        extent
    } else {
        old_used as int
    }
}

// Views.

/// The view of a stack shows what is in it.
pub proof fn law_view_of_stack<E>(stack: StackLayouter<E>, i: int)
    ensures
        stack@.ctx.dirs == stack.ctx.dirs,
        stack@.ctx.spaces == stack.ctx.spaces@,
        stack@.ctx.repeat == stack.ctx.repeat,
        stack@.ctx.expand == stack.ctx.expand,
        stack@.layouts.len() == stack.layouts@.len(),
        0 <= i < stack.layouts@.len() ==> stack@.layouts[i] == stack.layouts@[i]@,
        stack@.space.index == stack.space.index,
        stack@.space.hard == stack.space.hard,
        stack@.space.size == stack.space.size,
        stack@.space.used == stack.space.used,
        stack@.space.usable == stack.space.usable,
        stack@.space.gap == stack.space.gap,
        stack@.space.allowed_align == stack.space.allowed_align,
        stack@.space.layouts.len() == stack.space.layouts@.len(),
        0 <= i < stack.space.layouts@.len() ==> stack@.space.layouts[i] == (
            stack.space.layouts@[i].0@,
            stack.space.layouts@[i].1,
        ),
{
}

// Spaces.

/// A new stack is at its first space, which is hard, and has no layouts.
pub proof fn law_new_stack_is_at_first_space<E>(ctx: StackContextView)
    ensures
        StackView::<E>::fresh(ctx).ctx == ctx,
        StackView::<E>::fresh(ctx).layouts.len() == 0,
        at_new_space(StackView::<E>::fresh(ctx), 0, true),
{
}

/// A started space is empty and changes no layouts.
pub proof fn law_started_space_is_new<E>(stack: StackView<E>, index: int, hard: bool)
    ensures
        stack.start_space(index, hard).ctx == stack.ctx,
        stack.start_space(index, hard).layouts == stack.layouts,
        at_new_space(stack.start_space(index, hard), index, hard),
{
}

/// Finishing a space adds one layout behind the finished ones and goes to the next
/// space, or to the last one again if there is no next one.
pub proof fn law_finished_space_is_followed<E>(stack: StackView<E>, hard: bool)
    requires
        stack.wf(),
    ensures
        stack.finish_space(hard).ctx == stack.ctx,
        stack.finish_space(hard).layouts == stack.layouts.push(stack.finished_box()),
        stack.space.index + 1 < stack.ctx.spaces.len() ==> stack.next_space()
            == stack.space.index + 1,
        stack.space.index + 1 == stack.ctx.spaces.len() ==> stack.next_space()
            == stack.space.index,
        at_new_space(stack.finish_space(hard), stack.next_space(), hard),
{
}

/// The layout of a space has the elements of all boxes in the space, and on each
/// axis either the full size of the space or what is used of it.
pub proof fn law_finished_box<E>(stack: StackView<E>)
    ensures
        stack.finished_box().elements.len() == element_count(
            stack.space.layouts,
            stack.space.layouts.len() as int,
        ),
        stack.finished_box().size.width == if stack.ctx.expand.horizontal {
            stack.ctx.spaces[stack.space.index].size.width
        } else {
            stack.space.used.width
        },
        stack.finished_box().size.height == if stack.ctx.expand.vertical {
            stack.ctx.spaces[stack.space.index].size.height
        } else {
            stack.space.used.height
        },
        stack.finished_size() == stack.finished_box().size,
{
    lemma_placed_count(
        stack.space.layouts,
        stack.ctx.dirs,
        stack.finished_size(),
        stack.space.layouts.len() as int,
    );
}

proof fn lemma_placed_count<E>(children: Seq<Child<E>>, dirs: Gen2<Dir>, size: Size, n: int)
    ensures
        placed_elements(children, dirs, size, n).len() == element_count(children, n),
    decreases n,
{
    if n > 0 {
        lemma_placed_count(children, dirs, size, n - 1);
    }
}

/// A stack finishes with a layout for the in-progress space if the space is hard or
/// anything was laid out into it, and with the other layouts before it.
pub proof fn law_finish<E>(stack: StackView<E>)
    ensures
        stack.space_is_empty() <==> stack.space.used.width == 0 && stack.space.used.height == 0
            && stack.space.layouts.len() == 0,
        stack.space.hard || stack.space.used.width != 0 || stack.space.used.height != 0
            || stack.space.layouts.len() > 0 ==> stack.finish() == stack.layouts.push(
            stack.finished_box(),
        ),
        !stack.space.hard && stack.space.used.width == 0 && stack.space.used.height == 0
            && stack.space.layouts.len() == 0 ==> stack.finish() == stack.layouts,
{
}

/// Skipping ends in the first of the following spaces that is wide and high enough,
/// with one more layout, or changes nothing if there is none.
pub proof fn law_skip_goes_to_first_fitting_space<E>(stack: StackView<E>, size: Size)
    requires
        stack.wf(),
    ensures
        ({
            let skipped = stack.skip_to_fitting_space(size);
            let next = if stack.space.index + 1 < stack.ctx.spaces.len() {
                stack.space.index + 1
            } else {
                stack.space.index
            };
            ||| {
                let index = skipped.space.index;
                &&& next <= index < stack.ctx.spaces.len()
                &&& size.width <= stack.ctx.spaces[index].size.width
                &&& size.height <= stack.ctx.spaces[index].size.height
                &&& forall|j: int|
                    next <= j < index ==> (#[trigger] stack.ctx.spaces[j]).size.width < size.width
                        || stack.ctx.spaces[j].size.height < size.height
                &&& at_new_space(skipped, index, true)
                &&& skipped.ctx == stack.ctx
                &&& skipped.layouts == stack.layouts.push(stack.finished_box())
            }
            ||| {
                &&& forall|j: int|
                    next <= j < stack.ctx.spaces.len() ==> (
                    #[trigger] stack.ctx.spaces[j]).size.width < size.width
                        || stack.ctx.spaces[j].size.height < size.height
                &&& skipped == stack
            }
        }),
{
    crate::laws::spaces::lemma_first_fit(stack.ctx.spaces, size, stack.next_space());
}

/// The remaining spaces are the rest of the in-progress space and all that follow
/// it; the last one is followed by itself.
pub proof fn law_remaining_spaces<E>(stack: StackView<E>, k: int)
    requires
        stack.wf(),
    ensures
        stack.remaining().len() == if stack.space.index + 1 < stack.ctx.spaces.len() {
            stack.ctx.spaces.len() - stack.space.index
        } else {
            2
        },
        stack.remaining()[0].base == stack.space.size,
        stack.remaining()[0].size == stack.usable(),
        0 < k < stack.ctx.spaces.len() - stack.space.index ==> stack.remaining()[k]
            == stack.ctx.spaces[stack.space.index + k],
        stack.space.index + 1 == stack.ctx.spaces.len() ==> stack.remaining()[1]
            == stack.ctx.spaces[stack.space.index],
{
}

// Gaps and spacing.

/// What is usable is what is left without the gap that is due. The gap takes no more
/// than there is, and nothing if nothing is left.
pub proof fn law_usable_size<E>(stack: StackView<E>)
    ensures
        stack.usable().switch(stack.ctx.dirs).cross == stack.space.usable.switch(
            stack.ctx.dirs,
        ).cross,
        stack.space.gap is None ==> stack.usable().switch(stack.ctx.dirs).main == left(stack),
        stack.space.gap matches Some(gap) ==> {
            let usable = stack.usable().switch(stack.ctx.dirs).main;
            &&& 0 <= gap <= left(stack) ==> usable == left(stack) - gap
            &&& 0 <= left(stack) < gap ==> usable == 0
            &&& left(stack) < 0 <= gap ==> usable == left(stack)
            &&& gap < 0 ==> usable == fit(left(stack) - gap)
        },
{
}

/// Making a gap due changes nothing else.
pub proof fn law_pushed_gap<E>(stack: StackView<E>, gap: Length)
    ensures
        same_place(stack, stack.push_gap(gap)),
        stack.push_gap(gap).space.gap == Some(gap),
        stack.push_gap(gap).space.layouts == stack.space.layouts,
        stack.push_gap(gap).space.used == stack.space.used,
        stack.push_gap(gap).space.usable == stack.space.usable,
        stack.push_gap(gap).space.allowed_align == stack.space.allowed_align,
{
}

/// Moving back adds negative spacing of the given extent, whatever is left, and
/// drops the gap.
pub proof fn law_moved_back<E>(stack: StackView<E>, extent: Length)
    ensures
        same_place(stack, stack.move_back(extent)),
        stack.move_back(extent).space.gap is None,
        stack.move_back(extent).space.allowed_align == stack.space.allowed_align,
        stack.move_back(extent).space.layouts.len() == stack.space.layouts.len() + 1,
        stack.move_back(extent).space.layouts.drop_last() == stack.space.layouts,
        is_spacing(
            stack.move_back(extent).space.layouts.last(),
            stack.ctx.dirs,
            fit(-extent) as int,
        ),
        takes(stack, stack.move_back(extent), fit(-extent) as int),
        spans(stack, stack.move_back(extent), 0),
{
    assert(stack.move_back(extent).space.layouts.drop_last() =~= stack.space.layouts);
}

/// Spacing is added in full if it fits and otherwise takes all that is usable. It
/// changes neither the allowed alignment nor the gap that is due.
pub proof fn law_pushed_spacing<E>(stack: StackView<E>, spacing: Length)
    ensures
        ({
            let pushed = stack.push_spacing(spacing);
            let usable = stack.usable().switch(stack.ctx.dirs).main;
            let extent = if spacing <= usable {
                spacing as int
            } else {
                usable as int
            };
            &&& same_place(stack, pushed)
            &&& pushed.space.gap == stack.space.gap
            &&& pushed.space.allowed_align == stack.space.allowed_align
            &&& pushed.space.layouts.len() == stack.space.layouts.len() + 1
            &&& pushed.space.layouts.drop_last() == stack.space.layouts
            &&& is_spacing(pushed.space.layouts.last(), stack.ctx.dirs, extent)
            &&& takes(stack, pushed, extent)
            &&& spans(stack, pushed, 0)
        }),
{
    assert(stack.push_spacing(spacing).space.layouts.drop_last() =~= stack.space.layouts);
}

// Boxes.

/// Whether a box of the given size is neither wider nor higher than what is usable.
pub open spec fn has_room<E>(stack: StackView<E>, size: Size) -> bool {
    &&& size.width <= stack.usable().width
    &&& size.height <= stack.usable().height
}

/// Whether none of the spaces after the in-progress one is wide and high enough.
pub open spec fn nothing_follows_for<E>(stack: StackView<E>, size: Size) -> bool {
    forall|j: int|
        stack.next_space() <= j < stack.ctx.spaces.len() ==> (
        #[trigger] stack.ctx.spaces[j]).size.width < size.width
            || stack.ctx.spaces[j].size.height < size.height
}

/// Whether a pushed box is added to the in-progress space: always in a
/// non-repeating stack, and in a repeating one if its alignment is not smaller than
/// the allowed one and it has room here or nowhere.
pub open spec fn belongs_here<E>(stack: StackView<E>, size: Size, aligns: Gen2<GenAlign>) -> bool {
    ||| !stack.ctx.repeat
    ||| {
        &&& stack.space.allowed_align.rank() <= aligns.main.rank()
        &&& has_room(stack, size) || nothing_follows_for(stack, size)
    }
}

/// The gap that comes before a pushed box: none if none is due, and otherwise the
/// one that is due. Before a box that has room, it takes no more than is left.
pub open spec fn gap_extent<E>(stack: StackView<E>, size: Size) -> int {
    match stack.space.gap {
        None => 0,
        Some(gap) => if has_room(stack, size) && gap > 0 && gap > left(stack) {
            if left(stack) < 0 {
                0
            } else {
                left(stack)
            }
        } else {
            gap as int
        },
    }
}

/// A box that belongs into the in-progress space is added to it, behind all other
/// boxes and the gap that was due. It takes its size, and its alignment is the
/// smallest that is allowed from then on.
pub proof fn law_pushed_box<E>(stack: StackView<E>, layout: BoxView<E>, aligns: Gen2<GenAlign>)
    requires
        stack.wf(),
        belongs_here(stack, layout.size, aligns),
    ensures
        ({
            let pushed = stack.push_box(layout, aligns);
            let size = layout.size.switch(stack.ctx.dirs);
            let gap = gap_extent(stack, layout.size);
            let n = stack.space.layouts.len() as int;
            &&& same_place(stack, pushed)
            &&& pushed.space.gap is None
            &&& pushed.space.allowed_align == aligns.main
            &&& pushed.space.layouts.len() == n + if stack.space.gap is Some {
                2int
            } else {
                1int
            }
            &&& pushed.space.layouts.take(n) == stack.space.layouts
            &&& stack.space.gap is Some ==> is_spacing(
                pushed.space.layouts[n],
                stack.ctx.dirs,
                gap,
            )
            &&& pushed.space.layouts.last() == (layout, aligns)
            &&& taken(pushed) == fit(fit(taken(stack) + gap) + size.main)
            &&& left(pushed) == fit(fit(left(stack) - gap) - size.main)
            &&& pushed.space.usable.switch(stack.ctx.dirs).cross == stack.space.usable.switch(
                stack.ctx.dirs,
            ).cross
            &&& pushed.space.used.switch(stack.ctx.dirs).cross >= size.cross
            &&& pushed.space.used.switch(stack.ctx.dirs).cross >= stack.space.used.switch(
                stack.ctx.dirs,
            ).cross
            &&& pushed.space.used.switch(stack.ctx.dirs).cross == size.cross
                || pushed.space.used.switch(stack.ctx.dirs).cross == stack.space.used.switch(
                stack.ctx.dirs,
            ).cross || (stack.space.gap is Some && pushed.space.used.switch(stack.ctx.dirs).cross
                == 0)
        }),
{
    if stack.ctx.repeat {
        crate::laws::spaces::lemma_first_fit(stack.ctx.spaces, layout.size, stack.next_space());
    }
    let ready = stack.break_for_align(aligns.main).break_for_size(layout.size);
    assert(ready == stack);
    let spaced = stack.insert_gap(layout.size);
    let pushed = stack.push_box(layout, aligns);
    assert(pushed.space.layouts == spaced.space.layouts.push((layout, aligns)));
    assert(pushed.space.layouts.take(stack.space.layouts.len() as int) =~= stack.space.layouts);
}

/// In a repeating stack, a box with an alignment that is no longer allowed starts a
/// new space first.
pub proof fn law_box_with_smaller_alignment_starts_space<E>(
    stack: StackView<E>,
    layout: BoxView<E>,
    aligns: Gen2<GenAlign>,
)
    requires
        stack.wf(),
        stack.ctx.repeat,
        aligns.main.rank() < stack.space.allowed_align.rank(),
    ensures
        stack.push_box(layout, aligns) == stack.finish_space(true).push_box(layout, aligns),
{
}

/// In a repeating stack, a box without room in the in-progress space goes to the
/// space that skipping leads to.
pub proof fn law_box_without_room_moves_on<E>(
    stack: StackView<E>,
    layout: BoxView<E>,
    aligns: Gen2<GenAlign>,
)
    requires
        stack.wf(),
        stack.ctx.repeat,
        stack.space.allowed_align.rank() <= aligns.main.rank(),
        !has_room(stack, layout.size),
    ensures
        stack.push_box(layout, aligns) == stack.skip_to_fitting_space(layout.size).push_box(
            layout,
            aligns,
        ),
{
    crate::laws::spaces::lemma_first_fit(stack.ctx.spaces, layout.size, stack.next_space());
}

/// The extent of a range of boxes is nothing for an empty range, that of the box for
/// a single one, and the sum for two adjacent ranges.
pub proof fn law_extents_add_up<E>(
    children: Seq<Child<E>>,
    axis: SpecAxis,
    from: int,
    mid: int,
    to: int,
)
    requires
        from <= mid <= to,
    ensures
        extent_sum(children, axis, from, from) == 0,
        extent_sum(children, axis, from, from + 1) == children[from].0.size.get(axis),
        extent_sum(children, axis, from, to) == extent_sum(children, axis, from, mid)
            + extent_sum(children, axis, mid, to),
{
    crate::stack::lemma_extent_sum_split(children, axis, from, mid, to);
    assert(extent_sum(children, axis, from, from) == 0);
}

/// A box in a finished space lies between what the boxes before it and those after it
/// take on the main axis, and anywhere on the cross axis, according to its alignment.
pub proof fn law_position_in_space<E>(
    children: Seq<Child<E>>,
    dirs: Gen2<Dir>,
    size: Size,
    i: int,
)
    ensures
        ({
            let pos = child_position(children, dirs, size, i);
            let (boxed, aligns) = children[i];
            let axis = dirs.main.axis();
            let before = extent_sum(children, axis, 0, i);
            let after = extent_sum(children, axis, i + 1, children.len() as int);
            &&& dirs.main is LTR ==> pos.x2 == aligns.main.spec_place(
                dirs.main,
                before,
                size.width - after,
                boxed.size.width,
            )
            &&& dirs.main is RTL ==> pos.x2 == aligns.main.spec_place(
                dirs.main,
                after,
                size.width - before,
                boxed.size.width,
            )
            &&& dirs.main is TTB ==> pos.y2 == aligns.main.spec_place(
                dirs.main,
                before,
                size.height - after,
                boxed.size.height,
            )
            &&& dirs.main is BTT ==> pos.y2 == aligns.main.spec_place(
                dirs.main,
                after,
                size.height - before,
                boxed.size.height,
            )
            &&& dirs.main is LTR || dirs.main is RTL ==> pos.y2 == aligns.cross.spec_place(
                dirs.cross,
                0,
                size.height as int,
                boxed.size.height,
            )
            &&& dirs.main is TTB || dirs.main is BTT ==> pos.x2 == aligns.cross.spec_place(
                dirs.cross,
                0,
                size.width as int,
                boxed.size.width,
            )
        }),
{
}

} // verus!
