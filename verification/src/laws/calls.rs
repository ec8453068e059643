//! What holds of a stack after any sequence of calls, and of two stacks after
//! corresponding ones.

use crate::boxes::BoxView;
use crate::geom::{start_aligns, Dir, Gen2, GenAlign, Size};
use crate::laws::placement::{
    cross_position, exact, law_main_position, main_extent, main_position, total_extent,
};
use crate::laws::spaces::{
    can_measure, can_push_box, law_new_space_is_measured, law_push_box_keeps_measures,
    law_push_spacing_keeps_measures, law_shrunk_layout_has_no_room, law_stack_yields_a_layout,
    measured, yields_a_layout,
};
use crate::length::Length;
use crate::stack::{
    child_position, extent_sum, lemma_extent_sum_split, main_bounds, placed_elements, Child,
    StackContextView, StackView,
};
use vstd::prelude::*;

verus! {

/// A call that changes a stack.
pub enum StackCall<E> {
    PushBox(BoxView<E>, Gen2<GenAlign>),
    PushSpacing(Length),
    PushGap(Length),
    SkipToFittingSpace(Size),
    FinishSpace(bool),
}

/// The stack after a call.
pub open spec fn called<E>(stack: StackView<E>, call: StackCall<E>) -> StackView<E> {
    match call {
        StackCall::PushBox(layout, aligns) => stack.push_box(layout, aligns),
        StackCall::PushSpacing(spacing) => stack.push_spacing(spacing),
        StackCall::PushGap(gap) => stack.push_gap(gap),
        StackCall::SkipToFittingSpace(size) => stack.skip_to_fitting_space(size),
        StackCall::FinishSpace(hard) => stack.finish_space(hard),
    }
}

/// The stack after a sequence of calls.
pub open spec fn after<E>(stack: StackView<E>, calls: Seq<StackCall<E>>) -> StackView<E>
    decreases calls.len(),
{
    if calls.len() == 0 {
        stack
    } else {
        called(after(stack, calls.drop_last()), calls.last())
    }
}

// Layouts come out.

/// Whatever is called, a stack finishes with at least one layout.
pub proof fn law_finish_is_never_empty<E>(ctx: StackContextView, calls: Seq<StackCall<E>>)
    ensures
        after(StackView::<E>::fresh(ctx), calls).finish().len() > 0,
{
    lemma_yields_a_layout(ctx, calls);
}

proof fn lemma_yields_a_layout<E>(ctx: StackContextView, calls: Seq<StackCall<E>>)
    ensures
        yields_a_layout(after(StackView::<E>::fresh(ctx), calls)),
    decreases calls.len(),
{
    if calls.len() > 0 {
        lemma_yields_a_layout(ctx, calls.drop_last());
        let before = after(StackView::<E>::fresh(ctx), calls.drop_last());
        match calls.last() {
            StackCall::PushBox(layout, aligns) => {
                law_stack_yields_a_layout(before, ctx, layout, aligns, 0, true);
            },
            _ => {},
        }
    }
}

// Mirroring.

/// Whether two contexts differ only in the direction of the main axis, which is
/// reversed.
pub open spec fn mirrored(a: StackContextView, b: StackContextView) -> bool {
    &&& b == StackContextView { dirs: b.dirs, ..a }
    &&& b.dirs.cross == a.dirs.cross
    &&& b.dirs.main.axis() == a.dirs.main.axis()
    &&& b.dirs.main.is_positive() != a.dirs.main.is_positive()
}

/// Whether two stacks in mirrored contexts are equal up to the positions in their
/// finished layouts.
pub open spec fn alike<E>(a: StackView<E>, b: StackView<E>) -> bool {
    &&& mirrored(a.ctx, b.ctx)
    &&& a.space == b.space
    &&& a.layouts.len() == b.layouts.len()
    &&& forall|k: int|
        0 <= k < a.layouts.len() ==> (#[trigger] a.layouts[k]).size == b.layouts[k].size
}

proof fn lemma_finish_space_alike<E>(a: StackView<E>, b: StackView<E>, hard: bool)
    requires
        alike(a, b),
    ensures
        a.finished_size() == b.finished_size(),
        alike(a.finish_space(hard), b.finish_space(hard)),
{
    assert(a.finished_box().size == b.finished_box().size);
}

proof fn lemma_skip_alike<E>(a: StackView<E>, b: StackView<E>, size: Size)
    requires
        alike(a, b),
    ensures
        alike(a.skip_to_fitting_space(size), b.skip_to_fitting_space(size)),
{
    lemma_finish_space_alike(a, b, true);
}

proof fn lemma_append_alike<E>(
    a: StackView<E>,
    b: StackView<E>,
    layout: BoxView<E>,
    aligns: Gen2<GenAlign>,
)
    requires
        alike(a, b),
    ensures
        alike(a.append(layout, aligns), b.append(layout, aligns)),
{
}

proof fn lemma_push_box_alike<E>(
    a: StackView<E>,
    b: StackView<E>,
    layout: BoxView<E>,
    aligns: Gen2<GenAlign>,
)
    requires
        alike(a, b),
    ensures
        alike(a.push_box(layout, aligns), b.push_box(layout, aligns)),
{
    lemma_finish_space_alike(a, b, true);
    let a1 = a.break_for_align(aligns.main);
    let b1 = b.break_for_align(aligns.main);
    assert(alike(a1, b1));
    lemma_skip_alike(a1, b1, layout.size);
    let a2 = a1.break_for_size(layout.size);
    let b2 = b1.break_for_size(layout.size);
    assert(alike(a2, b2));
    if let Some(gap) = a2.space.gap {
        assert(alike(a2.with_gap(None), b2.with_gap(None)));
        let reduced = a2.reduced_gap(gap);
        lemma_append_alike(
            a2.with_gap(None),
            b2.with_gap(None),
            a2.blank_box(reduced),
            start_aligns(),
        );
        lemma_append_alike(
            a2.with_gap(None),
            b2.with_gap(None),
            a2.blank_box(gap),
            start_aligns(),
        );
    }
    let a3 = a2.insert_gap(layout.size);
    let b3 = b2.insert_gap(layout.size);
    assert(alike(a3, b3));
    lemma_append_alike(a3, b3, layout, aligns);
}

/// Two stacks in mirrored contexts go through the same spaces with the same boxes
/// when they get the same calls.
pub proof fn law_mirrored_stacks_stay_alike<E>(
    a: StackContextView,
    b: StackContextView,
    calls: Seq<StackCall<E>>,
)
    requires
        mirrored(a, b),
    ensures
        alike(after(StackView::<E>::fresh(a), calls), after(StackView::<E>::fresh(b), calls)),
    decreases calls.len(),
{
    if calls.len() > 0 {
        law_mirrored_stacks_stay_alike(a, b, calls.drop_last());
        let x = after(StackView::<E>::fresh(a), calls.drop_last());
        let y = after(StackView::<E>::fresh(b), calls.drop_last());
        match calls.last() {
            StackCall::PushBox(layout, aligns) => lemma_push_box_alike(x, y, layout, aligns),
            StackCall::PushSpacing(spacing) => {
                let blank = x.blank_box(x.fitting_spacing(spacing));
                lemma_append_alike(x, y, blank, start_aligns());
            },
            StackCall::PushGap(_) => {},
            StackCall::SkipToFittingSpace(size) => lemma_skip_alike(x, y, size),
            StackCall::FinishSpace(hard) => lemma_finish_space_alike(x, y, hard),
        }
    }
}

/// Reversing the main direction mirrors the layout: after the same calls, the
/// layouts of both stacks have the same size, and a box lies as far from the end
/// of the main axis in the one as from its start in the other, at the same place
/// on the cross axis.
pub proof fn law_reversed_main_direction_mirrors<E>(
    a: StackContextView,
    b: StackContextView,
    calls: Seq<StackCall<E>>,
    i: int,
)
    requires
        mirrored(a, b),
        ({
            let x = after(StackView::<E>::fresh(a), calls);
            let y = after(StackView::<E>::fresh(b), calls);
            &&& 0 <= i < x.space.layouts.len()
            &&& exact(x.space.layouts, a.dirs, x.finished_size(), i)
            &&& exact(y.space.layouts, b.dirs, y.finished_size(), i)
        }),
    ensures
        ({
            let x = after(StackView::<E>::fresh(a), calls);
            let y = after(StackView::<E>::fresh(b), calls);
            let size = x.finished_size();
            let children = x.space.layouts;
            let axis = a.dirs.main.axis();
            &&& y.finished_size() == size
            &&& y.space.layouts == children
            &&& child_position(children, b.dirs, size, i).along(axis) == 2 * size.get(axis)
                - child_position(children, a.dirs, size, i).along(axis) - 2
                * children[i].0.size.get(axis)
            &&& cross_position(children, b.dirs, size, i) == cross_position(
                children,
                a.dirs,
                size,
                i,
            )
        }),
{
    law_mirrored_stacks_stay_alike(a, b, calls);
    let x = after(StackView::<E>::fresh(a), calls);
    let y = after(StackView::<E>::fresh(b), calls);
    lemma_after_keeps_ctx(StackView::<E>::fresh(a), calls);
    lemma_after_keeps_ctx(StackView::<E>::fresh(b), calls);
    lemma_finish_space_alike(x, y, true);
    let size = x.finished_size();
    law_main_position(x.space.layouts, a.dirs, size, i);
    law_main_position(x.space.layouts, b.dirs, size, i);
    assert(main_position(x.space.layouts, a.dirs, size, i) == main_position(
        x.space.layouts,
        b.dirs,
        size,
        i,
    ));
}

proof fn lemma_after_keeps_ctx<E>(stack: StackView<E>, calls: Seq<StackCall<E>>)
    ensures
        after(stack, calls).ctx == stack.ctx,
    decreases calls.len(),
{
    if calls.len() > 0 {
        lemma_after_keeps_ctx(stack, calls.drop_last());
    }
}

// Shrinking.

/// Whether two calls push the same, except that a box may have another main-axis
/// alignment.
pub open spec fn pushes_the_same<E>(a: StackCall<E>, b: StackCall<E>) -> bool {
    match a {
        StackCall::PushBox(layout, aligns) => {
            &&& b matches StackCall::PushBox(other_layout, other_aligns)
            &&& other_layout == layout
            &&& other_aligns.cross == aligns.cross
        },
        StackCall::PushSpacing(_) | StackCall::PushGap(_) => a == b,
        _ => false,
    }
}

/// Whether the sizes in the stack stay representable during the calls, all of
/// which push something.
pub open spec fn can_measure_calls<E>(stack: StackView<E>, calls: Seq<StackCall<E>>) -> bool
    decreases calls.len(),
{
    calls.len() > 0 ==> {
        let before = after(stack, calls.drop_last());
        &&& can_measure_calls(stack, calls.drop_last())
        &&& match calls.last() {
            StackCall::PushBox(layout, aligns) => can_push_box(before, layout, aligns),
            StackCall::PushSpacing(spacing) => can_measure(
                before,
                before.fitting_spacing(spacing),
            ),
            _ => true,
        }
    }
}

/// Whether two stacks are equal up to main-axis alignments.
pub open spec fn same_but_aligns<E>(a: StackView<E>, b: StackView<E>) -> bool {
    &&& a.ctx == b.ctx
    &&& a.layouts == b.layouts
    &&& a.space.index == b.space.index
    &&& a.space.hard == b.space.hard
    &&& a.space.size == b.space.size
    &&& a.space.used == b.space.used
    &&& a.space.usable == b.space.usable
    &&& a.space.gap == b.space.gap
    &&& same_children(a.space.layouts, b.space.layouts)
}

/// Whether children are equal up to main-axis alignments.
pub open spec fn same_children<E>(a: Seq<Child<E>>, b: Seq<Child<E>>) -> bool {
    &&& a.len() == b.len()
    &&& forall|i: int|
        #![trigger a[i]]
        #![trigger b[i]]
        0 <= i < a.len() ==> a[i].0 == b[i].0 && a[i].1.cross == b[i].1.cross
}

proof fn lemma_append_same<E>(
    a: StackView<E>,
    b: StackView<E>,
    layout: BoxView<E>,
    x: Gen2<GenAlign>,
    y: Gen2<GenAlign>,
)
    requires
        same_but_aligns(a, b),
        x.cross == y.cross,
    ensures
        same_but_aligns(a.append(layout, x), b.append(layout, y)),
{
    let c = a.append(layout, x).space.layouts;
    let d = b.append(layout, y).space.layouts;
    assert forall|i: int|
        #![trigger c[i]]
        #![trigger d[i]]
        0 <= i < c.len() implies c[i].0 == d[i].0 && c[i].1.cross == d[i].1.cross by {
        if i < a.space.layouts.len() {
            assert(c[i] == a.space.layouts[i]);
            assert(d[i] == b.space.layouts[i]);
        }
    }
}

proof fn lemma_push_box_same<E>(
    a: StackView<E>,
    b: StackView<E>,
    layout: BoxView<E>,
    x: Gen2<GenAlign>,
    y: Gen2<GenAlign>,
)
    requires
        !a.ctx.repeat,
        same_but_aligns(a, b),
        x.cross == y.cross,
    ensures
        same_but_aligns(a.push_box(layout, x), b.push_box(layout, y)),
{
    if let Some(gap) = a.space.gap {
        let (bare, other) = (a.with_gap(None), b.with_gap(None));
        let reduced = a.blank_box(a.reduced_gap(gap));
        lemma_append_same(bare, other, reduced, start_aligns(), start_aligns());
        lemma_append_same(bare, other, a.blank_box(gap), start_aligns(), start_aligns());
    }
    let (spaced, other) = (a.insert_gap(layout.size), b.insert_gap(layout.size));
    assert(same_but_aligns(spaced, other));
    lemma_append_same(spaced, other, layout, x, y);
}

proof fn lemma_pushes_same<E>(
    ctx: StackContextView,
    a: Seq<StackCall<E>>,
    b: Seq<StackCall<E>>,
)
    requires
        !ctx.repeat,
        a.len() == b.len(),
        forall|i: int| 0 <= i < a.len() ==> pushes_the_same(#[trigger] a[i], b[i]),
        can_measure_calls(StackView::<E>::fresh(ctx), a),
    ensures
        after(StackView::<E>::fresh(ctx), a).ctx == ctx,
        measured(after(StackView::<E>::fresh(ctx), a)),
        same_but_aligns(after(StackView::<E>::fresh(ctx), a), after(StackView::<E>::fresh(ctx), b)),
    decreases a.len(),
{
    let new = StackView::<E>::fresh(ctx);
    if a.len() == 0 {
        law_new_space_is_measured(new, 0, true);
    } else {
        assert forall|i: int| 0 <= i < a.len() - 1 implies pushes_the_same(
            #[trigger] a.drop_last()[i],
            b.drop_last()[i],
        ) by {
            assert(pushes_the_same(a[i], b[i]));
        }
        lemma_pushes_same(ctx, a.drop_last(), b.drop_last());
        let (x, y) = (after(new, a.drop_last()), after(new, b.drop_last()));
        assert(pushes_the_same(a[a.len() - 1], b[a.len() - 1]));
        match a.last() {
            StackCall::PushBox(layout, aligns) => {
                law_push_box_keeps_measures(x, layout, aligns);
                lemma_push_box_same(x, y, layout, aligns, b.last()->PushBox_1);
            },
            StackCall::PushSpacing(spacing) => {
                law_push_spacing_keeps_measures(x, spacing);
                let blank = x.blank_box(x.fitting_spacing(spacing));
                lemma_append_same(x, y, blank, start_aligns(), start_aligns());
            },
            _ => {
                assert(measured(x.push_gap(0)) == measured(x));
            },
        }
    }
}

proof fn lemma_same_extents<E>(a: Seq<Child<E>>, b: Seq<Child<E>>, dir: Dir, from: int, to: int)
    requires
        same_children(a, b),
        0 <= from <= to <= a.len(),
    ensures
        extent_sum(a, dir.axis(), from, to) == extent_sum(b, dir.axis(), from, to),
    decreases to - from,
{
    if from < to {
        lemma_same_extents(a, b, dir, from, to - 1);
        assert(a[to - 1].0 == b[to - 1].0);
    }
}

proof fn lemma_same_positions<E>(
    a: Seq<Child<E>>,
    b: Seq<Child<E>>,
    dirs: Gen2<Dir>,
    size: Size,
    i: int,
)
    requires
        same_children(a, b),
        0 <= i < a.len(),
        size.switch(dirs).main == total_extent(a, dirs),
    ensures
        child_position(a, dirs, size, i) == child_position(b, dirs, size, i),
{
    let axis = dirs.main.axis();
    let n = a.len() as int;
    lemma_same_extents(a, b, dirs.main, 0, i);
    lemma_same_extents(a, b, dirs.main, i + 1, n);
    lemma_extent_sum_split(a, axis, 0, i + 1, n);
    assert(a[i].0 == b[i].0 && a[i].1.cross == b[i].1.cross);
    let (low, high) = main_bounds(a, dirs.main, size, i);
    assert(high - low - main_extent(a, dirs, i) == 0);
    assert(main_bounds(b, dirs.main, size, i) == (low, high));
}

proof fn lemma_same_elements<E>(
    a: Seq<Child<E>>,
    b: Seq<Child<E>>,
    dirs: Gen2<Dir>,
    size: Size,
    n: int,
)
    requires
        same_children(a, b),
        0 <= n <= a.len(),
        size.switch(dirs).main == total_extent(a, dirs),
    ensures
        placed_elements(a, dirs, size, n) == placed_elements(b, dirs, size, n),
    decreases n,
{
    if n > 0 {
        lemma_same_elements(a, b, dirs, size, n - 1);
        lemma_same_positions(a, b, dirs, size, n - 1);
        assert(a[n - 1].0 == b[n - 1].0);
    }
}

/// In a non-repeating stack that shrinks on the main axis, main-axis alignments
/// move nothing: two stacks that get the same boxes and spacing finish with equal
/// layouts, however the boxes are aligned on the main axis.
pub proof fn law_shrinking_ignores_main_alignments<E>(
    ctx: StackContextView,
    a: Seq<StackCall<E>>,
    b: Seq<StackCall<E>>,
    hard: bool,
)
    requires
        !ctx.repeat,
        ctx.dirs.main.axis() is Horizontal ==> !ctx.expand.horizontal,
        ctx.dirs.main.axis() is Vertical ==> !ctx.expand.vertical,
        a.len() == b.len(),
        forall|i: int| 0 <= i < a.len() ==> pushes_the_same(#[trigger] a[i], b[i]),
        can_measure_calls(StackView::<E>::fresh(ctx), a),
    ensures
        after(StackView::<E>::fresh(ctx), a).finish_space(hard).layouts == after(
            StackView::<E>::fresh(ctx),
            b,
        ).finish_space(hard).layouts,
        after(StackView::<E>::fresh(ctx), a).finish() == after(
            StackView::<E>::fresh(ctx),
            b,
        ).finish(),
{
    lemma_pushes_same(ctx, a, b);
    let x = after(StackView::<E>::fresh(ctx), a);
    let y = after(StackView::<E>::fresh(ctx), b);
    law_shrunk_layout_has_no_room(x);
    lemma_same_elements(
        x.space.layouts,
        y.space.layouts,
        ctx.dirs,
        x.finished_size(),
        x.space.layouts.len() as int,
    );
    assert(x.finished_box() == y.finished_box());
}

} // verus!
