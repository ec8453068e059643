//! How spaces are filled, left and finished.

use crate::boxes::{BoxView, LayoutSpace};
use crate::geom::{start_aligns, Dir, Gen2, GenAlign, Size};
use crate::laws::placement::{
    exact, law_children_do_not_overlap, main_extent, main_position, total_extent,
};
use crate::length::{fit, longer, representable, Length};
use crate::stack::{extent_sum, first_fit, Child, SpaceView, StackContextView, StackView};
use vstd::prelude::*;

verus! {

// Progress from space to space.

/// Whether `later` goes on from `earlier`: in the same context, in the same space
/// or one that follows, and with all layouts that were finished.
pub open spec fn goes_on<E>(earlier: StackView<E>, later: StackView<E>) -> bool {
    &&& later.ctx == earlier.ctx
    &&& earlier.space.index <= later.space.index < earlier.ctx.spaces.len()
    &&& earlier.layouts.len() <= later.layouts.len()
    &&& earlier.layouts =~= later.layouts.take(earlier.layouts.len() as int)
}

/// No operation goes back to an earlier space, leaves the context or touches a
/// finished layout.
pub proof fn law_stack_goes_on<E>(
    stack: StackView<E>,
    layout: BoxView<E>,
    aligns: Gen2<GenAlign>,
    spacing: Length,
    hard: bool,
)
    requires
        stack.wf(),
    ensures
        goes_on(stack, stack.finish_space(hard)),
        goes_on(stack, stack.skip_to_fitting_space(layout.size)),
        goes_on(stack, stack.push_spacing(spacing)),
        goes_on(stack, stack.push_gap(spacing)),
        goes_on(stack, stack.move_back(spacing)),
        goes_on(stack, stack.push_box(layout, aligns)),
{
    lemma_skip_goes_on(stack, layout.size);
    let aligned = stack.break_for_align(aligns.main);
    assert(goes_on(stack, aligned));
    lemma_skip_goes_on(aligned, layout.size);
    let ready = aligned.break_for_size(layout.size);
    assert(goes_on(aligned, ready));
    lemma_goes_on_transitive(stack, aligned, ready);
}

proof fn lemma_skip_goes_on<E>(stack: StackView<E>, size: Size)
    requires
        stack.wf(),
    ensures
        goes_on(stack, stack.skip_to_fitting_space(size)),
{
    lemma_first_fit(stack.ctx.spaces, size, stack.next_space());
}

/// Going on twice is going on.
pub proof fn lemma_goes_on_transitive<E>(a: StackView<E>, b: StackView<E>, c: StackView<E>)
    requires
        goes_on(a, b),
        goes_on(b, c),
    ensures
        goes_on(a, c),
{
    assert(a.layouts =~= c.layouts.take(a.layouts.len() as int)) by {
        assert forall|i: int| 0 <= i < a.layouts.len() implies a.layouts[i] == c.layouts[i] by {
            assert(a.layouts[i] == b.layouts.take(a.layouts.len() as int)[i]);
            assert(b.layouts[i] == c.layouts.take(b.layouts.len() as int)[i]);
        }
    }
}

/// The last space is followed by copies of itself.
pub proof fn law_last_space_repeats<E>(stack: StackView<E>, hard: bool)
    requires
        stack.wf(),
        stack.space.index == stack.ctx.spaces.len() - 1,
    ensures
        stack.finish_space(hard).space == SpaceView::<E>::fresh(
            stack.space.index,
            hard,
            stack.ctx.spaces.last().size,
        ),
{
}

/// Every other space is followed by the next one.
pub proof fn law_spaces_follow_each_other<E>(stack: StackView<E>, hard: bool)
    requires
        stack.wf(),
        stack.space.index < stack.ctx.spaces.len() - 1,
    ensures
        stack.finish_space(hard).space == SpaceView::<E>::fresh(
            stack.space.index + 1,
            hard,
            stack.ctx.spaces[stack.space.index + 1].size,
        ),
{
}

/// A stack that nothing was pushed into finishes with one layout without
/// elements.
pub proof fn law_empty_stack_has_one_layout<E>(ctx: StackContextView)
    ensures
        StackView::<E>::fresh(ctx).finish() == seq![
            BoxView::<E>::blank(
                Size {
                    width: if ctx.expand.horizontal {
                        ctx.spaces[0].size.width
                    } else {
                        0
                    },
                    height: if ctx.expand.vertical {
                        ctx.spaces[0].size.height
                    } else {
                        0
                    },
                },
            ),
        ],
{
}

/// Whether a layout is sure to come out of the stack: there is one already, or
/// the in-progress space will get one.
pub open spec fn yields_a_layout<E>(stack: StackView<E>) -> bool {
    stack.space.hard || stack.layouts.len() > 0
}

/// A stack never finishes without a layout: a new stack yields one, whatever is
/// done with it.
pub proof fn law_stack_yields_a_layout<E>(
    stack: StackView<E>,
    ctx: StackContextView,
    layout: BoxView<E>,
    aligns: Gen2<GenAlign>,
    spacing: Length,
    hard: bool,
)
    requires
        yields_a_layout(stack),
    ensures
        stack.finish().len() > 0,
        yields_a_layout(StackView::<E>::fresh(ctx)),
        yields_a_layout(stack.push_box(layout, aligns)),
        yields_a_layout(stack.push_spacing(spacing)),
        yields_a_layout(stack.push_gap(spacing)),
        yields_a_layout(stack.move_back(spacing)),
        yields_a_layout(stack.skip_to_fitting_space(layout.size)),
        yields_a_layout(stack.finish_space(hard)),
{
}

/// After a hard space break there is a layout for the new space even if nothing
/// follows; after a soft one there is none.
pub proof fn law_hard_space_is_kept<E>(stack: StackView<E>)
    requires
        stack.wf(),
    ensures
        stack.finish_space(true).finish().len() == stack.layouts.len() + 2,
        stack.finish_space(false).finish() == stack.layouts.push(stack.finished_box()),
{
}

// Fitting.

/// The stack as it is when a pushed box is added to the in-progress space.
pub open spec fn ready_for<E>(
    stack: StackView<E>,
    layout: BoxView<E>,
    aligns: Gen2<GenAlign>,
) -> StackView<E> {
    stack.break_for_align(aligns.main).break_for_size(layout.size)
}

/// What the first fitting space is.
pub proof fn lemma_first_fit(spaces: Seq<LayoutSpace>, size: Size, from: int)
    requires
        0 <= from <= spaces.len(),
    ensures
        match first_fit(spaces, size, from) {
            Some(index) => {
                &&& from <= index < spaces.len()
                &&& spaces[index].size.fits(size)
                &&& forall|j: int| from <= j < index ==> !(#[trigger] spaces[j]).size.fits(size)
            },
            None => forall|j: int|
                from <= j < spaces.len() ==> !(#[trigger] spaces[j]).size.fits(size),
        },
    decreases spaces.len() - from,
{
    if from < spaces.len() && !spaces[from].size.fits(size) {
        lemma_first_fit(spaces, size, from + 1);
    }
}

/// Skipping goes to the first following space that can fit the size.
pub proof fn law_skip_finds_first_fit<E>(stack: StackView<E>, size: Size, index: int)
    requires
        stack.wf(),
        stack.next_space() <= index < stack.ctx.spaces.len(),
        stack.ctx.spaces[index].size.fits(size),
        forall|j: int|
            stack.next_space() <= j < index ==> !(#[trigger] stack.ctx.spaces[j]).size.fits(size),
    ensures
        stack.skip_to_fitting_space(size) == stack.finish_space(true).start_space(index, true),
{
    lemma_first_fit(stack.ctx.spaces, size, stack.next_space());
    let found = first_fit(stack.ctx.spaces, size, stack.next_space());
    assert(found == Some(index)) by {
        if found is Some && found->0 < index {
            assert(!stack.ctx.spaces[found->0].size.fits(size));
        }
    }
}

/// Skipping does nothing if no following space can fit the size.
pub proof fn law_skip_does_nothing_without_fit<E>(stack: StackView<E>, size: Size)
    requires
        stack.wf(),
        forall|j: int|
            stack.next_space() <= j < stack.ctx.spaces.len()
                ==> !(#[trigger] stack.ctx.spaces[j]).size.fits(size),
    ensures
        stack.skip_to_fitting_space(size) == stack,
{
    lemma_first_fit(stack.ctx.spaces, size, stack.next_space());
}

/// A box that fits into the rest of the in-progress space is added to it,
/// unless its alignment is no longer allowed there.
pub proof fn law_fitting_box_stays_in_space<E>(
    stack: StackView<E>,
    layout: BoxView<E>,
    aligns: Gen2<GenAlign>,
)
    requires
        stack.wf(),
        stack.remaining()[0].size.fits(layout.size),
        stack.ctx.repeat ==> stack.space.allowed_align.rank() <= aligns.main.rank(),
    ensures
        ready_for(stack, layout, aligns) == stack,
        stack.push_box(layout, aligns).layouts == stack.layouts,
        stack.push_box(layout, aligns).space.index == stack.space.index,
        stack.push_box(layout, aligns).space.layouts == stack.insert_gap(
            layout.size,
        ).space.layouts.push((layout, aligns)),
        0 <= stack.push_box(layout, aligns).space.usable.get(stack.ctx.dirs.main.axis()),
{
}

/// What fits into one of the remaining spaces fits into the stack: it is added to
/// a space that it fits into. A non-repeating stack has only the in-progress
/// space for it, and a repeating one has that only if the alignment is still
/// allowed there.
pub proof fn law_box_fits_if_laid_out_into_remaining<E>(
    stack: StackView<E>,
    layout: BoxView<E>,
    aligns: Gen2<GenAlign>,
    k: int,
)
    requires
        stack.wf(),
        0 <= k < stack.remaining().len(),
        stack.remaining()[k].size.fits(layout.size),
        k == 0 ==> !stack.ctx.repeat || stack.space.allowed_align.rank() <= aligns.main.rank(),
        k > 0 ==> stack.ctx.repeat,
    ensures
        ready_for(stack, layout, aligns).usable().fits(layout.size),
        0 <= stack.push_box(layout, aligns).space.usable.get(stack.ctx.dirs.main.axis()),
{
    if k > 0 {
        let to = stack.next_space() + k - 1;
        assert(stack.remaining()[k] == stack.ctx.spaces[to]);
        let aligned = stack.break_for_align(aligns.main);
        lemma_first_fit(stack.ctx.spaces, layout.size, aligned.next_space());
        if !aligned.usable().fits(layout.size) {
            assert(aligned.next_space() <= to);
        }
    }
}

/// A repeating stack lets a box overflow only if neither the space that it is
/// added to nor any following space can fit it.
pub proof fn law_overflow_only_without_fit<E>(
    stack: StackView<E>,
    layout: BoxView<E>,
    aligns: Gen2<GenAlign>,
    j: int,
)
    requires
        stack.wf(),
        stack.ctx.repeat,
        !ready_for(stack, layout, aligns).usable().fits(layout.size),
        ready_for(stack, layout, aligns).next_space() <= j < stack.ctx.spaces.len(),
    ensures
        !stack.ctx.spaces[j].size.fits(layout.size),
{
    let aligned = stack.break_for_align(aligns.main);
    lemma_first_fit(stack.ctx.spaces, layout.size, aligned.next_space());
}

/// A non-repeating stack adds every box to the in-progress space.
pub proof fn law_non_repeating_stack_stays_in_space<E>(
    stack: StackView<E>,
    layout: BoxView<E>,
    aligns: Gen2<GenAlign>,
)
    requires
        !stack.ctx.repeat,
    ensures
        ready_for(stack, layout, aligns) == stack,
        stack.push_box(layout, aligns).layouts == stack.layouts,
        stack.push_box(layout, aligns).space.index == stack.space.index,
        stack.push_box(layout, aligns).space.layouts == stack.insert_gap(
            layout.size,
        ).space.layouts.push((layout, aligns)),
{
}

/// Spacing never uses up more than what is usable.
pub proof fn law_spacing_fits<E>(stack: StackView<E>, spacing: Length)
    ensures
        0 <= stack.usable().get(stack.ctx.dirs.main.axis()) ==> 0 <= stack.push_spacing(
            spacing,
        ).usable().get(stack.ctx.dirs.main.axis()),
        stack.push_spacing(spacing).space.index == stack.space.index,
        stack.push_spacing(spacing).space.allowed_align == stack.space.allowed_align,
{
}

// Alignment.

/// Whether the alignments in the in-progress space only increase. Boxes without
/// elements, such as spacing, do not count.
pub open spec fn aligned_in_order<E>(stack: StackView<E>) -> bool {
    let children = stack.space.layouts;
    &&& forall|i: int|
        0 <= i < children.len() ==> (#[trigger] children[i]).1.main.rank()
            <= stack.space.allowed_align.rank()
    &&& forall|i: int, j: int|
        #![trigger children[i], children[j]]
        0 <= i < j < children.len() && children[j].0.elements.len() > 0
            ==> children[i].1.main.rank() <= children[j].1.main.rank()
}

/// In a repeating stack the alignments in a space only increase, whatever is
/// pushed.
pub proof fn law_alignments_increase<E>(
    stack: StackView<E>,
    layout: BoxView<E>,
    aligns: Gen2<GenAlign>,
    spacing: Length,
    hard: bool,
)
    requires
        stack.ctx.repeat,
        aligned_in_order(stack),
    ensures
        aligned_in_order(stack.push_box(layout, aligns)),
        aligned_in_order(stack.push_spacing(spacing)),
        aligned_in_order(stack.push_gap(spacing)),
        aligned_in_order(stack.move_back(spacing)),
        aligned_in_order(stack.finish_space(hard)),
        aligned_in_order(stack.skip_to_fitting_space(layout.size)),
{
    let ready = ready_for(stack, layout, aligns);
    assert(aligned_in_order(ready));
    assert(ready.space.allowed_align.rank() <= aligns.main.rank());
    let spaced = ready.insert_gap(layout.size);
    if let Some(gap) = ready.space.gap {
        let bare = ready.with_gap(None);
        lemma_blank_in_order(bare, ready.reduced_gap(gap));
        lemma_blank_in_order(bare, gap);
    }
    lemma_append_in_order(spaced, layout, aligns, aligns.main);
    assert(stack.push_box(layout, aligns).space.layouts == spaced.append(
        layout,
        aligns,
    ).space.layouts);
    lemma_blank_in_order(stack, stack.fitting_spacing(spacing));
    lemma_blank_in_order(stack.with_gap(None), fit(-spacing));
}

proof fn lemma_blank_in_order<E>(stack: StackView<E>, extent: Length)
    requires
        aligned_in_order(stack),
    ensures
        aligned_in_order(stack.push_blank(extent)),
{
    lemma_append_in_order(
        stack,
        stack.blank_box(extent),
        start_aligns(),
        stack.space.allowed_align,
    );
}

proof fn lemma_append_in_order<E>(
    stack: StackView<E>,
    layout: BoxView<E>,
    aligns: Gen2<GenAlign>,
    allowed: GenAlign,
)
    requires
        aligned_in_order(stack),
        stack.space.allowed_align.rank() <= allowed.rank(),
        aligns.main.rank() <= allowed.rank(),
        layout.elements.len() > 0 ==> aligns.main == allowed,
    ensures
        ({
            let added = stack.append(layout, aligns);
            aligned_in_order(
                StackView {
                    space: SpaceView { allowed_align: allowed, ..added.space },
                    ..added
                },
            )
        }),
{
    let before = stack.space.layouts;
    let after = stack.append(layout, aligns).space.layouts;
    assert(after == before.push((layout, aligns)));
    assert forall|i: int| 0 <= i < after.len() implies (#[trigger] after[i]).1.main.rank()
        <= allowed.rank() by {
        if i < before.len() {
            assert(after[i] == before[i]);
        }
    }
    assert forall|i: int, j: int|
        #![trigger after[i], after[j]]
        0 <= i < j < after.len() && after[j].0.elements.len() > 0 implies after[i].1.main.rank()
        <= after[j].1.main.rank() by {
        assert(after[i] == before[i]);
        if j < before.len() {
            assert(after[j] == before[j]);
        }
    }
}

/// If everything in a space of a repeating stack fits, then in its layout no box
/// overlaps an earlier one.
pub proof fn law_boxes_in_a_space_do_not_overlap<E>(stack: StackView<E>, i: int, j: int)
    requires
        aligned_in_order(stack),
        0 <= i < j < stack.space.layouts.len(),
        stack.space.layouts[j].0.elements.len() > 0,
        total_extent(stack.space.layouts, stack.ctx.dirs) <= stack.finished_size().switch(
            stack.ctx.dirs,
        ).main,
        0 <= extent_sum(stack.space.layouts, stack.ctx.dirs.main.axis(), i + 1, j),
        exact(stack.space.layouts, stack.ctx.dirs, stack.finished_size(), i),
        exact(stack.space.layouts, stack.ctx.dirs, stack.finished_size(), j),
    ensures
        ({
            let children = stack.space.layouts;
            let dirs = stack.ctx.dirs;
            let size = stack.finished_size();
            main_position(children, dirs, size, i) + 2 * main_extent(children, dirs, i)
                <= main_position(children, dirs, size, j)
        }),
{
    assert(stack.space.layouts[i].1.main.rank() <= stack.space.layouts[j].1.main.rank());
    law_children_do_not_overlap(
        stack.space.layouts,
        stack.ctx.dirs,
        stack.finished_size(),
        i,
        j,
    );
}

// Metrics.

/// The largest cross-axis extent among the first `n` children, at least zero.
pub open spec fn widest<E>(children: Seq<Child<E>>, dirs: Gen2<Dir>, n: int) -> Length
    decreases n,
{
    if n <= 0 {
        0
    } else {
        longer(widest(children, dirs, n - 1), children[n - 1].0.size.switch(dirs).cross)
    }
}

/// Whether the sizes that the in-progress space keeps track of are right: its
/// full size, the size that its children take up, and on the main axis the rest.
pub open spec fn measured<E>(stack: StackView<E>) -> bool {
    let dirs = stack.ctx.dirs;
    let children = stack.space.layouts;
    let used = stack.space.used.switch(dirs);
    let usable = stack.space.usable.switch(dirs);
    let full = stack.ctx.spaces[stack.space.index].size;
    &&& stack.space.size == full
    &&& used.main == total_extent(children, dirs)
    &&& used.cross == widest(children, dirs, children.len() as int)
    &&& usable.main == full.switch(dirs).main - used.main
    &&& usable.cross == full.switch(dirs).cross
}

/// Whether the sizes stay representable when something with the given main-axis
/// extent is added.
pub open spec fn can_measure<E>(stack: StackView<E>, extent: Length) -> bool {
    &&& representable(stack.space.used.switch(stack.ctx.dirs).main + extent)
    &&& representable(stack.space.usable.switch(stack.ctx.dirs).main - extent)
}

proof fn lemma_sums_of_push<E>(children: Seq<Child<E>>, child: Child<E>, dirs: Gen2<Dir>, n: int)
    requires
        0 <= n <= children.len(),
    ensures
        extent_sum(children.push(child), dirs.main.axis(), 0, n) == extent_sum(
            children,
            dirs.main.axis(),
            0,
            n,
        ),
        widest(children.push(child), dirs, n) == widest(children, dirs, n),
    decreases n,
{
    if n > 0 {
        lemma_sums_of_push(children, child, dirs, n - 1);
    }
}

proof fn lemma_append_measured<E>(stack: StackView<E>, layout: BoxView<E>, aligns: Gen2<GenAlign>)
    requires
        measured(stack),
        can_measure(stack, layout.size.switch(stack.ctx.dirs).main),
    ensures
        measured(stack.append(layout, aligns)),
{
    let children = stack.space.layouts;
    lemma_sums_of_push(children, (layout, aligns), stack.ctx.dirs, children.len() as int);
}

/// A new space is measured rightly.
pub proof fn law_new_space_is_measured<E>(stack: StackView<E>, index: int, hard: bool)
    ensures
        measured(stack.start_space(index, hard)),
        measured(stack.finish_space(hard)),
        measured(StackView::<E>::fresh(stack.ctx)),
{
}

/// The gap that is inserted before a box of the given size: the one that is due,
/// reduced if the box then fits, or none.
pub open spec fn gap_before<E>(stack: StackView<E>, size: Size) -> Length {
    match stack.space.gap {
        None => 0,
        Some(gap) => if stack.usable().fits(size) {
            stack.reduced_gap(gap)
        } else {
            gap
        },
    }
}

/// Whether the sizes stay representable when a box is pushed.
pub open spec fn can_push_box<E>(
    stack: StackView<E>,
    layout: BoxView<E>,
    aligns: Gen2<GenAlign>,
) -> bool {
    let ready = ready_for(stack, layout, aligns);
    &&& can_measure(ready, gap_before(ready, layout.size))
    &&& can_measure(
        ready.insert_gap(layout.size),
        layout.size.switch(stack.ctx.dirs).main,
    )
}

/// Pushing a box keeps the measures right.
pub proof fn law_push_box_keeps_measures<E>(
    stack: StackView<E>,
    layout: BoxView<E>,
    aligns: Gen2<GenAlign>,
)
    requires
        measured(stack),
        can_push_box(stack, layout, aligns),
    ensures
        measured(stack.push_box(layout, aligns)),
{
    let ready = ready_for(stack, layout, aligns);
    assert(measured(ready));
    let spaced = ready.insert_gap(layout.size);
    if ready.space.gap is Some {
        let bare = ready.with_gap(None);
        let blank = ready.blank_box(gap_before(ready, layout.size));
        lemma_append_measured(bare, blank, start_aligns());
    }
    lemma_append_measured(spaced, layout, aligns);
    assert(measured(spaced.append(layout, aligns)));
}

/// Pushing spacing keeps the measures right.
pub proof fn law_push_spacing_keeps_measures<E>(stack: StackView<E>, spacing: Length)
    requires
        measured(stack),
        can_measure(stack, stack.fitting_spacing(spacing)),
    ensures
        measured(stack.push_spacing(spacing)),
{
    lemma_append_measured(stack, stack.blank_box(stack.fitting_spacing(spacing)), start_aligns());
}

/// A gap is due only before a box that follows, and changes no measures. Moving
/// back keeps the measures right.
pub proof fn law_gap_and_move_back_keep_measures<E>(stack: StackView<E>, extent: Length)
    requires
        measured(stack),
        representable(-extent),
        can_measure(stack, (-extent) as Length),
    ensures
        measured(stack.push_gap(extent)),
        stack.push_gap(extent).finished_box() == stack.finished_box(),
        measured(stack.move_back(extent)),
{
    lemma_append_measured(
        stack.with_gap(None),
        stack.blank_box((-extent) as Length),
        start_aligns(),
    );
}

/// A layout that is shrunk on the main axis leaves no room, so that its children
/// follow each other whatever their alignments are.
pub proof fn law_shrunk_layout_has_no_room<E>(stack: StackView<E>)
    requires
        measured(stack),
        stack.ctx.dirs.main.axis() is Horizontal ==> !stack.ctx.expand.horizontal,
        stack.ctx.dirs.main.axis() is Vertical ==> !stack.ctx.expand.vertical,
    ensures
        stack.finished_size().switch(stack.ctx.dirs).main == total_extent(
            stack.space.layouts,
            stack.ctx.dirs,
        ),
{
}

} // verus!
