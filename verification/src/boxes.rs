//! Finished boxes, the spaces they are laid out into and the items that nodes
//! exchange.

use crate::geom::{Gen2, GenAlign, Point, Size};
use crate::length::Length;
use vstd::prelude::*;

verus! {

/// A finished layout with elements at fixed positions.
///
/// What an element is does not matter for layouting: elements are carried along
/// and only their positions change.
#[derive(Debug, Clone, PartialEq)]
pub struct BoxLayout<E> {
    /// The size of the box.
    pub size: Size,
    /// The elements of the box and where they are.
    pub elements: Vec<(Point, E)>,
}

/// What a [`BoxLayout`] holds.
#[verifier::ext_equal]
pub struct BoxView<E> {
    pub size: Size,
    pub elements: Seq<(Point, E)>,
}

impl<E> View for BoxLayout<E> {
    type V = BoxView<E>;

    open spec fn view(&self) -> BoxView<E> {
        BoxView { size: self.size, elements: self.elements@ }
    }
}

/// The elements, all moved by the way from the origin to `pos`.
pub open spec fn moved_elements<E>(elements: Seq<(Point, E)>, pos: Point) -> Seq<(Point, E)> {
    Seq::new(elements.len(), |i: int| (elements[i].0.moved(pos), elements[i].1))
}

impl<E> BoxView<E> {
    /// A box without elements.
    pub open spec fn blank(size: Size) -> BoxView<E> {
        BoxView { size, elements: Seq::empty() }
    }

    /// The box with the elements of `more` behind its own, placed relative to
    /// `pos`.
    pub open spec fn push_layout(self, pos: Point, more: BoxView<E>) -> BoxView<E> {
        BoxView {
            size: self.size,
            elements: self.elements + moved_elements(more.elements, pos),
        }
    }
}

impl<E> BoxLayout<E> {
    /// Create a new box without elements.
    pub fn new(size: Size) -> (r: Self)
        ensures
            r@ == BoxView::<E>::blank(size),
    {
        BoxLayout { size, elements: Vec::new() }
    }

    /// Add all elements of another layout, placing them relative to the given
    /// position.
    pub fn push_layout(&mut self, pos: Point, more: Self)
        ensures
            final(self)@ == old(self)@.push_layout(pos, more@),
    {
        let ghost before = self.elements@;
        let ghost added = moved_elements(more.elements@, pos);
        let ghost rest = more.elements@;
        for item in it: more.elements.into_iter()
            invariant
                it.seq() == rest,
                added == moved_elements(rest, pos),
                self.size == old(self).size,
                self.elements@ == before + added.take(it.index() as int),
        {
            let (sub, element) = item;
            self.elements.push((sub.moved(pos), element));
            assert(added.take(it.index() + 1) =~= added.take(it.index() as int).push(
                added[it.index() as int],
            ));
        }
        assert(added.take(added.len() as int) =~= added);
    }
}

/// The layouts of a sequence of boxes.
pub open spec fn box_views<E>(boxes: Seq<BoxLayout<E>>) -> Seq<BoxView<E>> {
    Seq::new(boxes.len(), |i: int| boxes[i]@)
}

/// The layout of each box, in its place.
pub proof fn lemma_box_views<E>(boxes: Seq<BoxLayout<E>>)
    ensures
        box_views(boxes).len() == boxes.len(),
        forall|i: int| 0 <= i < boxes.len() ==> box_views(boxes)[i] == (#[trigger] boxes[i])@,
{
}

/// A space that boxes are laid out into.
#[derive(Debug, Clone, Copy, PartialEq, Eq, Structural)]
pub struct LayoutSpace {
    /// The full size of the space.
    pub base: Size,
    /// The size of the space that is still usable.
    pub size: Size,
}

/// The spaces that a node may lay itself out into.
#[derive(Debug, Clone, PartialEq)]
pub struct LayoutConstraints {
    /// The spaces to layout into.
    pub spaces: Vec<LayoutSpace>,
    /// Whether to spill over into copies of the last space or finish layouting
    /// when the last space is used up.
    pub repeat: bool,
}

/// What the layout of a node yields: boxes and the spacing between them.
#[derive(Debug, Clone, PartialEq)]
pub enum LayoutItem<E> {
    /// Spacing that should be added to the parent.
    Spacing(Length),
    /// A box that should be added to the parent and how it is aligned there.
    Box(BoxLayout<E>, Gen2<GenAlign>),
}

/// What a [`LayoutItem`] holds.
#[verifier::ext_equal]
pub enum ItemView<E> {
    Spacing(Length),
    Box(BoxView<E>, Gen2<GenAlign>),
}

impl<E> View for LayoutItem<E> {
    type V = ItemView<E>;

    open spec fn view(&self) -> ItemView<E> {
        match *self {
            LayoutItem::Spacing(amount) => ItemView::Spacing(amount),
            LayoutItem::Box(boxed, aligns) => ItemView::Box(boxed@, aligns),
        }
    }
}

/// What a sequence of items holds.
pub open spec fn item_views<E>(items: Seq<LayoutItem<E>>) -> Seq<ItemView<E>> {
    Seq::new(items.len(), |i: int| items[i]@)
}

} // verus!
