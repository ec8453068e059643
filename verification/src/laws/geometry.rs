//! What lengths, directions, alignments, sizes, points and boxes are, said without
//! one another as far as possible.

use crate::boxes::{
    box_views, item_views, moved_elements, BoxLayout, BoxView, ItemView, LayoutItem,
};
use crate::geom::{
    start_aligns, Dir, Gen2, GenAlign, Point, Rect, Side, Size, Spec2, SpecAxis,
};
use crate::length::{fit, longer, representable, shorter, Length};
use vstd::prelude::*;

verus! {

/// A length holds an exact result if it can, and otherwise the end of the range
/// that is closest.
pub proof fn law_fitted_lengths(x: int)
    ensures
        representable(x) <==> i64::MIN <= x <= i64::MAX,
        i64::MIN <= x <= i64::MAX ==> fit(x) == x,
        x < i64::MIN ==> fit(x) == i64::MIN,
        x > i64::MAX ==> fit(x) == i64::MAX,
{
}

/// The shorter of two lengths is one of them and not above either; the longer one
/// is one of them and not below either.
pub proof fn law_shorter_and_longer(a: Length, b: Length)
    ensures
        shorter(a, b) == a || shorter(a, b) == b,
        shorter(a, b) <= a && shorter(a, b) <= b,
        longer(a, b) == a || longer(a, b) == b,
        longer(a, b) >= a && longer(a, b) >= b,
{
}

/// Text runs along the axis between the side where it starts and the side where it
/// ends, and positive directions go to the right and to the bottom.
pub proof fn law_directions(dir: Dir)
    ensures
        dir.axis() is Horizontal <==> dir is LTR || dir is RTL,
        dir.is_positive() <==> dir is LTR || dir is TTB,
        dir is LTR ==> dir.start() is Left && dir.end() is Right,
        dir is RTL ==> dir.start() is Right && dir.end() is Left,
        dir is TTB ==> dir.start() is Top && dir.end() is Bottom,
        dir is BTT ==> dir.start() is Bottom && dir.end() is Top,
{
}

/// The start comes before the center, which comes before the end. By default,
/// everything is aligned at the start.
pub proof fn law_alignments_are_ordered(a: GenAlign, b: GenAlign)
    ensures
        a.rank() == b.rank() <==> a == b,
        a is Start ==> a.rank() == 0,
        a is Center ==> a.rank() == 1,
        a is End ==> a.rank() == 2,
        a is Start && b is Center ==> a.rank() < b.rank(),
        a is Start && b is End ==> a.rank() < b.rank(),
        a is Center && b is End ==> a.rank() < b.rank(),
        start_aligns().main is Start,
        start_aligns().cross is Start,
{
}

/// Something between two bounds touches the bound that its direction starts at or
/// the one that it ends at, or is as far from the one as from the other. This holds
/// whether or not it is larger than the room between the bounds.
pub proof fn law_alignment_places_between_bounds(
    align: GenAlign,
    dir: Dir,
    low: int,
    high: int,
    extent: Length,
)
    requires
        representable(low),
        representable(high - low - extent),
        representable(2 * low),
        representable(2 * low + (high - low - extent)),
        representable(2 * low + 2 * (high - low - extent)),
    ensures
        ({
            let at = align.spec_place(dir, low, high, extent);
            let before = at - 2 * low;
            let behind = 2 * high - (at + 2 * extent);
            &&& align is Start && (dir is LTR || dir is TTB) ==> before == 0
            &&& align is Start && (dir is RTL || dir is BTT) ==> behind == 0
            &&& align is End && (dir is LTR || dir is TTB) ==> behind == 0
            &&& align is End && (dir is RTL || dir is BTT) ==> before == 0
            &&& align is Center ==> before == behind
        }),
{
}

/// Where the room between two bounds lies: all of it behind something at the start,
/// all of it before something at the end, and half of it on either side of something
/// in the center. Before means to the left or at the top.
pub proof fn law_alignment_divides_room(
    align: GenAlign,
    dir: Dir,
    low: int,
    high: int,
    extent: Length,
)
    ensures
        ({
            let at = align.spec_place(dir, low, high, extent);
            let room = fit(high - low - extent);
            let forward = dir is LTR || dir is TTB;
            &&& align is Start && forward || align is End && !forward ==> at == fit(2 * fit(low))
            &&& align is End && forward || align is Start && !forward ==> at == fit(
                2 * fit(low) + 2 * room,
            )
            &&& align is Center ==> at == fit(2 * fit(low) + room)
        }),
{
}

/// The extents of a size are its width and its height, and each can be replaced on
/// its own.
pub proof fn law_extents(size: Size, extent: Length)
    ensures
        size.get(SpecAxis::Horizontal) == size.width,
        size.get(SpecAxis::Vertical) == size.height,
        size.with(SpecAxis::Horizontal, extent).width == extent,
        size.with(SpecAxis::Horizontal, extent).height == size.height,
        size.with(SpecAxis::Vertical, extent).width == size.width,
        size.with(SpecAxis::Vertical, extent).height == extent,
        Size::zero().width == 0 && Size::zero().height == 0,
{
}

/// One size fits into another if it is neither wider nor higher.
pub proof fn law_fitting_sizes(outer: Size, inner: Size)
    ensures
        outer.fits(inner) <==> inner.width <= outer.width && inner.height <= outer.height,
{
}

/// The main axis is the one of the main direction: horizontal text has its main
/// extent in the width, vertical text in the height. Going to generic axes and back
/// changes nothing.
pub proof fn law_generic_axes(size: Size, pair: Gen2<Length>, dirs: Gen2<Dir>)
    ensures
        dirs.main is LTR || dirs.main is RTL ==> size.switch(dirs).main == size.width
            && size.switch(dirs).cross == size.height,
        dirs.main is TTB || dirs.main is BTT ==> size.switch(dirs).main == size.height
            && size.switch(dirs).cross == size.width,
        pair.switch(dirs).to_size().switch(dirs) == pair,
        size.switch(dirs).switch(dirs).to_size() == size,
{
}

/// Values of any kind are given to the axes as extents are.
pub proof fn law_generic_pairs<T>(pair: Gen2<T>, dirs: Gen2<Dir>)
    ensures
        dirs.main is LTR || dirs.main is RTL ==> pair.switch(dirs).horizontal == pair.main
            && pair.switch(dirs).vertical == pair.cross,
        dirs.main is TTB || dirs.main is BTT ==> pair.switch(dirs).vertical == pair.main
            && pair.switch(dirs).horizontal == pair.cross,
{
}

/// Points have doubled coordinates. Moving a point by the way to another one adds
/// their coordinates.
pub proof fn law_points(pair: Spec2<Length>, a: Point, b: Point)
    ensures
        pair.to_point().x2 == fit(2 * pair.horizontal),
        pair.to_point().y2 == fit(2 * pair.vertical),
        pair.to_size().width == pair.horizontal,
        pair.to_size().height == pair.vertical,
        a.moved(b).x2 == fit(a.x2 + b.x2),
        a.moved(b).y2 == fit(a.y2 + b.y2),
        a.along(SpecAxis::Horizontal) == a.x2,
        a.along(SpecAxis::Vertical) == a.y2,
{
}

/// The sides of a rectangle are at the coordinates of its two corners.
pub proof fn law_sides_of_rectangles(rect: Rect)
    ensures
        rect.side(Side::Left) == rect.x0,
        rect.side(Side::Top) == rect.y0,
        rect.side(Side::Right) == rect.x1,
        rect.side(Side::Bottom) == rect.y1,
{
}

/// A box that another one is pushed into keeps its size and its elements, and gets
/// those of the other one behind them, all moved by the same way.
pub proof fn law_pushed_layouts<E>(boxed: BoxView<E>, pos: Point, more: BoxView<E>, i: int)
    ensures
        boxed.push_layout(pos, more).size == boxed.size,
        boxed.push_layout(pos, more).elements.len() == boxed.elements.len() + more.elements.len(),
        0 <= i < boxed.elements.len() ==> boxed.push_layout(pos, more).elements[i]
            == boxed.elements[i],
        0 <= i < more.elements.len() ==> boxed.push_layout(pos, more).elements[(
        boxed.elements.len() + i)] == (more.elements[i].0.moved(pos), more.elements[i].1),
        moved_elements(more.elements, pos).len() == more.elements.len(),
        0 <= i < more.elements.len() ==> moved_elements(more.elements, pos)[i] == (
            more.elements[i].0.moved(pos),
            more.elements[i].1,
        ),
        BoxView::<E>::blank(boxed.size).size == boxed.size,
        BoxView::<E>::blank(boxed.size).elements.len() == 0,
{
}

/// The views of boxes and items show what is in them, each in its place.
pub proof fn law_views_of_boxes<E>(
    boxes: Seq<BoxLayout<E>>,
    items: Seq<LayoutItem<E>>,
    i: int,
)
    ensures
        box_views(boxes).len() == boxes.len(),
        item_views(items).len() == items.len(),
        0 <= i < boxes.len() ==> {
            &&& box_views(boxes)[i] == boxes[i]@
            &&& boxes[i]@.size == boxes[i].size
            &&& boxes[i]@.elements == boxes[i].elements@
        },
        0 <= i < items.len() ==> {
            &&& item_views(items)[i] == items[i]@
            &&& items[i] matches LayoutItem::Spacing(amount) ==> items[i]@ == ItemView::<
                E,
            >::Spacing(amount)
            &&& items[i] matches LayoutItem::Box(boxed, aligns) ==> items[i]@ == ItemView::Box(
                boxed@,
                aligns,
            )
        },
{
}

} // verus!
