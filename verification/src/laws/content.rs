//! No element is lost, doubled or reordered: what was pushed into a layouter
//! comes out of it, in the order in which it was pushed.

use crate::boxes::{moved_elements, BoxView, ItemView};
use crate::geom::{start_aligns, Dir, Gen2, GenAlign, Point, Size};
use crate::length::{fit, Length};
use crate::line::{LineContextView, LineView, RunItem, RunView};
use crate::par::ParView;
use crate::stack::{child_position, placed_elements, Child, StackContextView, StackView};
use vstd::prelude::*;

verus! {

/// The elements without their positions.
pub open spec fn content<E>(elements: Seq<(Point, E)>) -> Seq<E> {
    Seq::new(elements.len(), |i: int| elements[i].1)
}

/// The elements of all boxes, one box after the other.
pub open spec fn content_of<E>(boxes: Seq<BoxView<E>>) -> Seq<E>
    decreases boxes.len(),
{
    if boxes.len() == 0 {
        Seq::empty()
    } else {
        content_of(boxes.drop_last()) + content(boxes.last().elements)
    }
}

/// The elements of an item.
pub open spec fn content_of_item<E>(item: ItemView<E>) -> Seq<E> {
    match item {
        ItemView::Spacing(_) => Seq::empty(),
        ItemView::Box(boxed, _) => content(boxed.elements),
    }
}

/// The elements of all boxes among the items, one after the other.
pub open spec fn item_content<E>(items: Seq<ItemView<E>>) -> Seq<E>
    decreases items.len(),
{
    if items.len() == 0 {
        Seq::empty()
    } else {
        item_content(items.drop_last()) + content_of_item(items.last())
    }
}

/// The boxes of aligned children.
pub open spec fn child_boxes<E>(children: Seq<Child<E>>) -> Seq<BoxView<E>> {
    Seq::new(children.len(), |i: int| children[i].0)
}

/// The boxes of a run.
pub open spec fn run_boxes<E>(items: Seq<RunItem<E>>) -> Seq<BoxView<E>> {
    Seq::new(items.len(), |i: int| items[i].1)
}

impl<E> StackView<E> {
    /// All elements in the stack: those of the finished spaces, then those of
    /// the in-progress one.
    pub open spec fn content(self) -> Seq<E> {
        content_of(self.layouts) + content_of(child_boxes(self.space.layouts))
    }
}

impl<E> LineView<E> {
    /// All elements in the layouter: those in the stack, then those in the line.
    pub open spec fn content(self) -> Seq<E> {
        self.stack.content() + content_of(run_boxes(self.run.layouts))
    }
}

proof fn lemma_content_of_push<E>(boxes: Seq<BoxView<E>>, boxed: BoxView<E>)
    ensures
        content_of(boxes.push(boxed)) == content_of(boxes) + content(boxed.elements),
{
    assert(boxes.push(boxed).drop_last() =~= boxes);
}

proof fn lemma_added_content<E>(elements: Seq<(Point, E)>, more: Seq<(Point, E)>, pos: Point)
    ensures
        content(elements + moved_elements(more, pos)) == content(elements) + content(more),
{
    assert(content(elements + moved_elements(more, pos)) =~= content(elements) + content(more));
}

proof fn lemma_placed_content<E>(children: Seq<Child<E>>, dirs: Gen2<Dir>, size: Size, n: int)
    requires
        0 <= n <= children.len(),
    ensures
        content(placed_elements(children, dirs, size, n)) == content_of(
            child_boxes(children).take(n),
        ),
    decreases n,
{
    let boxes = child_boxes(children);
    if n == 0 {
        assert(content(placed_elements(children, dirs, size, n)) =~= Seq::<E>::empty());
        assert(boxes.take(0) =~= Seq::<BoxView<E>>::empty());
    } else {
        lemma_placed_content(children, dirs, size, n - 1);
        lemma_added_content(
            placed_elements(children, dirs, size, n - 1),
            children[n - 1].0.elements,
            child_position(children, dirs, size, n - 1),
        );
        assert(boxes.take(n) =~= boxes.take(n - 1).push(boxes[n - 1]));
        lemma_content_of_push(boxes.take(n - 1), boxes[n - 1]);
    }
}

proof fn lemma_line_content<E>(run: RunView<E>, dirs: Gen2<Dir>, n: int)
    requires
        0 <= n <= run.layouts.len(),
    ensures
        content(run.line_elements(dirs, n)) == content_of(run_boxes(run.layouts).take(n)),
    decreases n,
{
    let boxes = run_boxes(run.layouts);
    if n == 0 {
        assert(content(run.line_elements(dirs, n)) =~= Seq::<E>::empty());
        assert(boxes.take(0) =~= Seq::<BoxView<E>>::empty());
    } else {
        lemma_line_content(run, dirs, n - 1);
        lemma_added_content(
            run.line_elements(dirs, n - 1),
            run.layouts[n - 1].1.elements,
            run.item_position(dirs, n - 1),
        );
        assert(boxes.take(n) =~= boxes.take(n - 1).push(boxes[n - 1]));
        lemma_content_of_push(boxes.take(n - 1), boxes[n - 1]);
    }
}

proof fn lemma_finished_box_content<E>(stack: StackView<E>)
    ensures
        content(stack.finished_box().elements) == content_of(child_boxes(stack.space.layouts)),
{
    let n = stack.space.layouts.len() as int;
    lemma_placed_content(stack.space.layouts, stack.ctx.dirs, stack.finished_size(), n);
    assert(child_boxes(stack.space.layouts).take(n) =~= child_boxes(stack.space.layouts));
}

/// A new stack holds no elements.
pub proof fn law_new_stack_is_empty<E>(ctx: StackContextView)
    ensures
        StackView::<E>::fresh(ctx).content() == Seq::<E>::empty(),
{
    assert(child_boxes(Seq::<Child<E>>::empty()) =~= Seq::<BoxView<E>>::empty());
    assert(StackView::<E>::fresh(ctx).content() =~= Seq::<E>::empty());
}

/// Finishing a space keeps all elements in their order.
pub proof fn law_finish_space_keeps_content<E>(stack: StackView<E>, hard: bool)
    ensures
        stack.finish_space(hard).content() == stack.content(),
{
    lemma_finished_box_content(stack);
    lemma_content_of_push(stack.layouts, stack.finished_box());
    assert(child_boxes(Seq::<Child<E>>::empty()) =~= Seq::<BoxView<E>>::empty());
    assert(stack.finish_space(hard).content() =~= stack.content());
}

/// Skipping to a fitting space keeps all elements in their order.
pub proof fn law_skip_keeps_content<E>(stack: StackView<E>, size: Size)
    ensures
        stack.skip_to_fitting_space(size).content() == stack.content(),
{
    law_finish_space_keeps_content(stack, true);
}

proof fn lemma_append_content<E>(stack: StackView<E>, layout: BoxView<E>, aligns: Gen2<GenAlign>)
    ensures
        stack.append(layout, aligns).content() == stack.content() + content(layout.elements),
{
    let boxes = child_boxes(stack.space.layouts);
    assert(child_boxes(stack.append(layout, aligns).space.layouts) =~= boxes.push(layout));
    lemma_content_of_push(boxes, layout);
    assert(stack.append(layout, aligns).content() =~= stack.content() + content(layout.elements));
}

proof fn lemma_push_blank_content<E>(stack: StackView<E>, extent: Length)
    ensures
        stack.push_blank(extent).content() == stack.content(),
{
    let blank = stack.blank_box(extent);
    lemma_append_content(stack, blank, start_aligns());
    assert(stack.content() + content(blank.elements) =~= stack.content());
}

/// Pushing a box adds its elements behind all others.
pub proof fn law_push_box_adds_content<E>(
    stack: StackView<E>,
    layout: BoxView<E>,
    aligns: Gen2<GenAlign>,
)
    ensures
        stack.push_box(layout, aligns).content() == stack.content() + content(layout.elements),
{
    law_finish_space_keeps_content(stack, true);
    let aligned = stack.break_for_align(aligns.main);
    law_skip_keeps_content(aligned, layout.size);
    let ready = aligned.break_for_size(layout.size);
    let spaced = ready.insert_gap(layout.size);
    if let Some(gap) = ready.space.gap {
        let bare = ready.with_gap(None);
        assert(bare.content() == ready.content());
        lemma_push_blank_content(bare, ready.reduced_gap(gap));
        lemma_push_blank_content(bare, gap);
    }
    lemma_append_content(spaced, layout, aligns);
    assert(stack.push_box(layout, aligns).content() == spaced.append(layout, aligns).content());
}

/// Pushing spacing or a gap and moving back keep all elements in their order.
pub proof fn law_push_spacing_keeps_content<E>(stack: StackView<E>, spacing: Length)
    ensures
        stack.push_spacing(spacing).content() == stack.content(),
        stack.push_gap(spacing).content() == stack.content(),
        stack.move_back(spacing).content() == stack.content(),
{
    lemma_push_blank_content(stack, stack.fitting_spacing(spacing));
    lemma_push_blank_content(stack.with_gap(None), fit(-spacing));
}

/// The boxes that a stack finishes with hold all its elements in their order.
pub proof fn law_finish_yields_content<E>(stack: StackView<E>)
    ensures
        content_of(stack.finish()) == stack.content(),
{
    if stack.space.hard || !stack.space_is_empty() {
        lemma_finished_box_content(stack);
        lemma_content_of_push(stack.layouts, stack.finished_box());
    } else {
        assert(child_boxes(stack.space.layouts) =~= Seq::<BoxView<E>>::empty());
        assert(stack.content() =~= content_of(stack.layouts));
    }
}

/// A new line layouter holds no elements.
pub proof fn law_new_line_layouter_is_empty<E>(ctx: LineContextView)
    ensures
        LineView::<E>::fresh(ctx).content() == Seq::<E>::empty(),
{
    law_new_stack_is_empty::<E>(ctx.for_stack());
    assert(run_boxes(Seq::<RunItem<E>>::empty()) =~= Seq::<BoxView<E>>::empty());
    assert(LineView::<E>::fresh(ctx).content() =~= Seq::<E>::empty());
}

/// Finishing a line keeps all elements in their order.
pub proof fn law_finish_line_keeps_content<E>(line: LineView<E>)
    ensures
        line.finish_line().content() == line.content(),
        line.finish_line_if_not_empty().content() == line.content(),
{
    let n = line.run.layouts.len() as int;
    let boxed = line.run.line_box(line.ctx.dirs);
    lemma_line_content(line.run, line.ctx.dirs, n);
    assert(run_boxes(line.run.layouts).take(n) =~= run_boxes(line.run.layouts));
    let aligns = line.run.stack_aligns();
    law_push_box_adds_content(line.stack, boxed, aligns);
    law_push_spacing_keeps_content(line.stack.push_box(boxed, aligns), line.ctx.line_spacing);
    assert(run_boxes(Seq::<RunItem<E>>::empty()) =~= Seq::<BoxView<E>>::empty());
    assert(line.finish_line().content() =~= line.content());
}

/// Finishing a line and its space keeps all elements in their order.
pub proof fn law_line_finish_space_keeps_content<E>(line: LineView<E>, hard: bool)
    ensures
        line.finish_space(hard).content() == line.content(),
{
    law_finish_line_keeps_content(line);
    law_finish_space_keeps_content(line.finish_line_if_not_empty().stack, hard);
}

proof fn lemma_start_run_content<E>(line: LineView<E>, align: GenAlign)
    ensures
        line.start_run(align).content() == line.content(),
{
    law_finish_line_keeps_content(line);
    law_push_spacing_keeps_content(line.finish_line().stack, line.run.size.main);
}

proof fn lemma_breaks_content<E>(line: LineView<E>, aligns: Gen2<GenAlign>, size: Size)
    ensures
        line.break_for_aligns(aligns).content() == line.content(),
        line.break_for_size(size).content() == line.content(),
{
    law_finish_line_keeps_content(line);
    law_line_finish_space_keeps_content(line, true);
    lemma_start_run_content(line, aligns.cross);
    law_skip_keeps_content(line.finish_line_if_not_empty().stack, size);
}

/// Pushing a box into a line adds its elements behind all others.
pub proof fn law_line_push_box_adds_content<E>(
    line: LineView<E>,
    layout: BoxView<E>,
    aligns: Gen2<GenAlign>,
)
    ensures
        line.push_box(layout, aligns).content() == line.content() + content(layout.elements),
{
    lemma_breaks_content(line, aligns, layout.size);
    let aligned = line.break_for_aligns(aligns);
    lemma_breaks_content(aligned, aligns, layout.size);
    let ready = aligned.break_for_size(layout.size);
    let pushed = line.push_box(layout, aligns);
    assert(run_boxes(pushed.run.layouts) =~= run_boxes(ready.run.layouts).push(layout));
    lemma_content_of_push(run_boxes(ready.run.layouts), layout);
    assert(pushed.content() =~= line.content() + content(layout.elements));
}

/// Pushing spacing into a line keeps all elements in their order.
pub proof fn law_line_push_spacing_keeps_content<E>(line: LineView<E>, spacing: Length)
    ensures
        line.push_spacing(spacing).content() == line.content(),
{
}

proof fn lemma_push_item_content<E>(line: LineView<E>, item: ItemView<E>)
    ensures
        line.push_item(item).content() == line.content() + content_of_item(item),
{
    reveal(LineView::push_item);
    match item {
        ItemView::Spacing(amount) => {
            law_line_push_spacing_keeps_content(line, amount);
            assert(line.content() + Seq::<E>::empty() =~= line.content());
        },
        ItemView::Box(boxed, aligns) => law_line_push_box_adds_content(line, boxed, aligns),
    }
}

proof fn lemma_concat_associative<E>(a: Seq<E>, b: Seq<E>, c: Seq<E>)
    ensures
        (a + b) + c == a + (b + c),
{
    assert((a + b) + c =~= a + (b + c));
}

/// Pushing items into a line adds the elements of their boxes behind all others.
pub proof fn law_push_items_adds_content<E>(line: LineView<E>, items: Seq<ItemView<E>>)
    ensures
        line.push_items(items).content() == line.content() + item_content(items),
    decreases items.len(),
{
    if items.len() == 0 {
        assert(line.content() + item_content(items) =~= line.content());
    } else {
        let before = line.push_items(items.drop_last());
        law_push_items_adds_content(line, items.drop_last());
        lemma_push_item_content(before, items.last());
        lemma_concat_associative(
            line.content(),
            item_content(items.drop_last()),
            content_of_item(items.last()),
        );
    }
}

/// The boxes that a line layouter finishes with hold all its elements in their
/// order.
pub proof fn law_line_finish_yields_content<E>(line: LineView<E>)
    ensures
        content_of(line.finish()) == line.content(),
{
    law_finish_line_keeps_content(line);
    let finished = line.finish_line_if_not_empty();
    law_finish_yields_content(finished.stack);
    assert(run_boxes(finished.run.layouts) =~= Seq::<BoxView<E>>::empty());
    assert(finished.content() =~= finished.stack.content());
}

proof fn lemma_boxes_as_items<E>(boxes: Seq<BoxView<E>>, aligns: Gen2<GenAlign>)
    ensures
        item_content(Seq::new(boxes.len(), |i: int| ItemView::Box(boxes[i], aligns)))
            == content_of(boxes),
    decreases boxes.len(),
{
    let items = Seq::new(boxes.len(), |i: int| ItemView::Box(boxes[i], aligns));
    if boxes.len() > 0 {
        let fewer = boxes.drop_last();
        lemma_boxes_as_items(fewer, aligns);
        assert(items.drop_last() =~= Seq::new(
            fewer.len(),
            |i: int| ItemView::Box(fewer[i], aligns),
        ));
    }
}

/// The items of a paragraph hold the elements of all boxes that its children
/// yielded, in the order in which they were yielded.
pub proof fn law_paragraph_keeps_content<E>(
    ctx: LineContextView,
    items: Seq<ItemView<E>>,
    par: ParView<E>,
)
    requires
        par.line == LineView::<E>::fresh(ctx).push_items(items),
    ensures
        item_content(par.finish()) == item_content(items),
{
    law_new_line_layouter_is_empty::<E>(ctx);
    law_push_items_adds_content(LineView::<E>::fresh(ctx), items);
    law_line_finish_yields_content(par.line);
    lemma_boxes_as_items(par.line.finish(), par.aligns);
    assert(Seq::<E>::empty() + item_content(items) =~= item_content(items));
}

/// Taking the items of two children one after the other is the same as taking
/// them all at once.
pub proof fn law_items_can_be_pushed_in_parts<E>(
    line: LineView<E>,
    first: Seq<ItemView<E>>,
    second: Seq<ItemView<E>>,
)
    ensures
        line.push_items(first + second) == line.push_items(first).push_items(second),
{
    let f = |line: LineView<E>, item: ItemView<E>| line.push_item(item);
    let all = first + second;
    all.lemma_fold_left_split(line, f, first.len() as int);
    assert(all.subrange(0, first.len() as int) =~= first);
    assert(all.subrange(first.len() as int, all.len() as int) =~= second);
}

} // verus!
