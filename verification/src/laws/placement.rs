//! Where the children of a finished space come to lie.
//!
//! Positions are doubled coordinates, so extents are doubled where they meet a
//! position.

use crate::geom::{Dir, Gen2, GenAlign, Size};
use crate::length::{representable, Length};
use crate::stack::{
    child_position, extent_sum, lemma_extent_sum_split, main_bounds, placed_elements, Child,
    StackView,
};
use vstd::prelude::*;

verus! {

/// The main-axis extent of a child.
pub open spec fn main_extent<E>(children: Seq<Child<E>>, dirs: Gen2<Dir>, i: int) -> Length {
    children[i].0.size.switch(dirs).main
}

/// The cross-axis extent of a child.
pub open spec fn cross_extent<E>(children: Seq<Child<E>>, dirs: Gen2<Dir>, i: int) -> Length {
    children[i].0.size.switch(dirs).cross
}

/// The main-axis extent of all children.
pub open spec fn total_extent<E>(children: Seq<Child<E>>, dirs: Gen2<Dir>) -> int {
    extent_sum(children, dirs.main.axis(), 0, children.len() as int)
}

/// The main-axis position of a child, in the direction of the main axis: the
/// doubled distance of its start from the start of the layout.
pub open spec fn main_position<E>(
    children: Seq<Child<E>>,
    dirs: Gen2<Dir>,
    size: Size,
    i: int,
) -> int {
    let at = child_position(children, dirs, size, i).along(dirs.main.axis());
    if dirs.main.is_positive() {
        at as int
    } else {
        2 * size.switch(dirs).main - at - 2 * main_extent(children, dirs, i)
    }
}

/// The doubled left or top coordinate of a child on the cross axis.
pub open spec fn cross_position<E>(
    children: Seq<Child<E>>,
    dirs: Gen2<Dir>,
    size: Size,
    i: int,
) -> Length {
    if dirs.main.axis() is Horizontal {
        child_position(children, dirs, size, i).y2
    } else {
        child_position(children, dirs, size, i).x2
    }
}

/// Whether the lengths that the main-axis position of a child is computed from
/// and the position itself are all representable.
pub open spec fn exact<E>(children: Seq<Child<E>>, dirs: Gen2<Dir>, size: Size, i: int) -> bool {
    let (low, high) = main_bounds(children, dirs.main, size, i);
    let room = high - low - main_extent(children, dirs, i);
    let align = children[i].1.main;
    &&& representable(low)
    &&& representable(room)
    &&& representable(2 * low + align.twice_room_before(dirs.main, room))
}

/// A child starts behind the children before it and behind that part of the
/// free room that its alignment asks for: none, half or all of it.
pub proof fn law_main_position<E>(children: Seq<Child<E>>, dirs: Gen2<Dir>, size: Size, i: int)
    requires
        0 <= i < children.len(),
        exact(children, dirs, size, i),
    ensures
        main_position(children, dirs, size, i) == 2 * extent_sum(
            children,
            dirs.main.axis(),
            0,
            i,
        ) + match children[i].1.main {
            GenAlign::Start => 0,
            GenAlign::Center => size.switch(dirs).main - total_extent(children, dirs),
            GenAlign::End => 2 * (size.switch(dirs).main - total_extent(children, dirs)),
        },
{
    let axis = dirs.main.axis();
    let n = children.len() as int;
    lemma_extent_sum_split(children, axis, 0, i + 1, n);
    assert(extent_sum(children, axis, 0, i + 1) == extent_sum(children, axis, 0, i) + main_extent(
        children,
        dirs,
        i,
    ));
}

/// Children with the same alignment follow each other without a gap: the later
/// one is offset by the extents of those from the earlier one on.
pub proof fn law_same_alignment_offset<E>(
    children: Seq<Child<E>>,
    dirs: Gen2<Dir>,
    size: Size,
    i: int,
    j: int,
)
    requires
        0 <= i <= j < children.len(),
        children[i].1.main == children[j].1.main,
        exact(children, dirs, size, i),
        exact(children, dirs, size, j),
    ensures
        main_position(children, dirs, size, j) == main_position(children, dirs, size, i) + 2
            * extent_sum(children, dirs.main.axis(), i, j),
{
    law_main_position(children, dirs, size, i);
    law_main_position(children, dirs, size, j);
    lemma_extent_sum_split(children, dirs.main.axis(), 0, i, j);
}

/// If the children fit into the layout, a child does not overlap an earlier one
/// whose alignment is not larger than its own.
pub proof fn law_children_do_not_overlap<E>(
    children: Seq<Child<E>>,
    dirs: Gen2<Dir>,
    size: Size,
    i: int,
    j: int,
)
    requires
        0 <= i < j < children.len(),
        total_extent(children, dirs) <= size.switch(dirs).main,
        0 <= extent_sum(children, dirs.main.axis(), i + 1, j),
        children[i].1.main.rank() <= children[j].1.main.rank(),
        exact(children, dirs, size, i),
        exact(children, dirs, size, j),
    ensures
        main_position(children, dirs, size, i) + 2 * main_extent(children, dirs, i)
            <= main_position(children, dirs, size, j),
{
    let axis = dirs.main.axis();
    law_main_position(children, dirs, size, i);
    law_main_position(children, dirs, size, j);
    lemma_extent_sum_split(children, axis, 0, i + 1, j);
}

/// If the children fit into the layout, each of them lies inside of it on the
/// main axis.
pub proof fn law_children_stay_inside<E>(
    children: Seq<Child<E>>,
    dirs: Gen2<Dir>,
    size: Size,
    i: int,
)
    requires
        0 <= i < children.len(),
        total_extent(children, dirs) <= size.switch(dirs).main,
        0 <= extent_sum(children, dirs.main.axis(), 0, i),
        0 <= extent_sum(children, dirs.main.axis(), i + 1, children.len() as int),
        exact(children, dirs, size, i),
    ensures
        0 <= main_position(children, dirs, size, i),
        main_position(children, dirs, size, i) + 2 * main_extent(children, dirs, i) <= 2
            * size.switch(dirs).main,
{
    let axis = dirs.main.axis();
    law_main_position(children, dirs, size, i);
    lemma_extent_sum_split(children, axis, 0, i + 1, children.len() as int);
}

/// On the cross axis, a child lies at the start of the layout, in its middle or
/// at its end. It stays inside if it is not larger than the layout.
pub proof fn law_cross_position<E>(children: Seq<Child<E>>, dirs: Gen2<Dir>, size: Size, i: int)
    requires
        0 <= i < children.len(),
        representable(2 * (size.switch(dirs).cross - cross_extent(children, dirs, i))),
    ensures
        ({
            let room = size.switch(dirs).cross - cross_extent(children, dirs, i);
            let at = cross_position(children, dirs, size, i);
            &&& children[i].1.cross is Center ==> at == room
            &&& children[i].1.cross is Start ==> at == if dirs.cross.is_positive() {
                0
            } else {
                2 * room
            }
            &&& children[i].1.cross is End ==> at == if dirs.cross.is_positive() {
                2 * room
            } else {
                0
            }
            &&& room >= 0 ==> 0 <= at <= 2 * room
        }),
{
}

/// The number of elements in the first `n` children.
pub open spec fn element_count<E>(children: Seq<Child<E>>, n: int) -> int
    decreases n,
{
    if n <= 0 {
        0
    } else {
        element_count(children, n - 1) + children[n - 1].0.elements.len()
    }
}

proof fn lemma_placed_len<E>(children: Seq<Child<E>>, dirs: Gen2<Dir>, size: Size, n: int)
    ensures
        placed_elements(children, dirs, size, n).len() == element_count(children, n),
    decreases n,
{
    if n > 0 {
        lemma_placed_len(children, dirs, size, n - 1);
    }
}

proof fn lemma_placed_element<E>(
    children: Seq<Child<E>>,
    dirs: Gen2<Dir>,
    size: Size,
    n: int,
    i: int,
    k: int,
)
    requires
        0 <= i < n <= children.len(),
        0 <= k < children[i].0.elements.len(),
    ensures
        0 <= element_count(children, i),
        element_count(children, i) + k < element_count(children, n),
        placed_elements(children, dirs, size, n)[element_count(children, i) + k] == (
            children[i].0.elements[k].0.moved(child_position(children, dirs, size, i)),
            children[i].0.elements[k].1,
        ),
    decreases n,
{
    lemma_placed_len(children, dirs, size, i);
    lemma_placed_len(children, dirs, size, n - 1);
    if i < n - 1 {
        lemma_placed_element(children, dirs, size, n - 1, i, k);
    }
}

/// In the layout of a finished space, each element of each child lies where it
/// lay in the child, seen from the position of the child.
pub proof fn law_elements_move_with_their_box<E>(stack: StackView<E>, i: int, k: int)
    requires
        0 <= i < stack.space.layouts.len(),
        0 <= k < stack.space.layouts[i].0.elements.len(),
    ensures
        ({
            let children = stack.space.layouts;
            let index = element_count(children, i) + k;
            &&& 0 <= index < stack.finished_box().elements.len()
            &&& stack.finished_box().elements[index] == (
                children[i].0.elements[k].0.moved(
                    child_position(children, stack.ctx.dirs, stack.finished_size(), i),
                ),
                children[i].0.elements[k].1,
            )
        }),
{
    let children = stack.space.layouts;
    let n = children.len() as int;
    lemma_placed_element(children, stack.ctx.dirs, stack.finished_size(), n, i, k);
    lemma_placed_len(children, stack.ctx.dirs, stack.finished_size(), n);
}

/// The layout of a finished space has the full size of the space on the axes on
/// which to expand and the used size on the others.
pub proof fn law_finished_size<E>(stack: StackView<E>, hard: bool)
    ensures
        stack.finish_space(hard).layouts.last().size == stack.finished_size(),
        stack.ctx.expand.horizontal ==> stack.finish_space(hard).layouts.last().size.width
            == stack.ctx.spaces[stack.space.index].size.width,
        stack.ctx.expand.vertical ==> stack.finish_space(hard).layouts.last().size.height
            == stack.ctx.spaces[stack.space.index].size.height,
        !stack.ctx.expand.horizontal ==> stack.finish_space(hard).layouts.last().size.width
            == stack.space.used.width,
        !stack.ctx.expand.vertical ==> stack.finish_space(hard).layouts.last().size.height
            == stack.space.used.height,
{
}

} // verus!
