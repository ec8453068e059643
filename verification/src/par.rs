//! Paragraphs.
//!
//! The children of a paragraph lay themselves out, which may take any amount of
//! outside work. A [`ParLayouter`] says which child is next and what spaces are
//! left for it, takes the items that the child yields and in the end hands out
//! the boxes of the paragraph.

use crate::boxes::{
    box_views, item_views, ItemView, LayoutConstraints, LayoutItem, LayoutSpace,
};
use crate::geom::{Dir, Gen2, GenAlign, Spec2};
use crate::length::Length;
use crate::line::{LineContext, LineContextView, LineLayouter, LineView};
use vstd::prelude::*;

verus! {

/// A node that arranges its children into a paragraph.
///
/// Boxes are laid out along the cross axis as long as they fit into a line.
/// When necessary, a line break is inserted and the new line is offset along
/// the main axis by the height of the previous line plus extra line spacing.
#[derive(Debug, Clone, PartialEq)]
pub struct Par<N> {
    /// The layout directions.
    pub dirs: Gen2<Dir>,
    /// The spacing between lines.
    pub line_spacing: Length,
    /// The nodes that are arranged.
    pub children: Vec<N>,
    /// How the boxes of the paragraph are aligned in its parent.
    pub aligns: Gen2<GenAlign>,
    /// Whether to expand the boxes of the paragraph to the full size of their
    /// spaces.
    pub expand: Spec2<bool>,
}

impl<N> Par<N> {
    /// The context for layouting the lines of the paragraph.
    pub open spec fn line_context(self, spaces: Seq<LayoutSpace>, repeat: bool) -> LineContextView {
        LineContextView {
            dirs: self.dirs,
            spaces,
            repeat,
            line_spacing: self.line_spacing,
            expand: self.expand,
        }
    }

    /// Start to lay out the paragraph.
    pub fn start<E>(&self, constraints: LayoutConstraints) -> (r: ParLayouter<E>)
        requires
            constraints.spaces@.len() > 0,
        ensures
            r@ == (ParView {
                line: LineView::<E>::fresh(
                    self.line_context(constraints.spaces@, constraints.repeat),
                ),
                aligns: self.aligns,
                next: 0,
                count: self.children@.len() as int,
            }),
            r@.wf(),
            r.line.ctx.dirs == self.dirs,
            r.line.ctx.line_spacing == self.line_spacing,
            r.line.ctx.expand == self.expand,
            r.line.ctx.spaces@ == constraints.spaces@,
            r.line.ctx.repeat == constraints.repeat,
            r.line.stack.ctx.dirs == self.dirs,
            r.line.stack.ctx.expand == self.expand,
            r.line.stack.ctx.spaces@ == constraints.spaces@,
            r.line.stack.ctx.repeat == constraints.repeat,
            r.aligns == self.aligns,
            r.next == 0,
            r.count == self.children@.len(),
    {
        let ctx = LineContext {
            dirs: self.dirs,
            spaces: constraints.spaces,
            repeat: constraints.repeat,
            line_spacing: self.line_spacing,
            expand: self.expand,
        };
        ParLayouter {
            line: LineLayouter::new(ctx),
            aligns: self.aligns,
            next: 0,
            count: self.children.len(),
        }
    }
}

/// A paragraph that is being laid out.
pub struct ParLayouter<E> {
    /// Sets the boxes of the children into lines.
    pub line: LineLayouter<E>,
    /// How the boxes of the paragraph are aligned in its parent.
    pub aligns: Gen2<GenAlign>,
    /// The index of the child whose layout is awaited.
    pub next: usize,
    /// The number of children.
    pub count: usize,
}

/// What a [`ParLayouter`] holds.
#[verifier::ext_equal]
pub struct ParView<E> {
    pub line: LineView<E>,
    pub aligns: Gen2<GenAlign>,
    pub next: int,
    pub count: int,
}

impl<E> View for ParLayouter<E> {
    type V = ParView<E>;

    open spec fn view(&self) -> ParView<E> {
        ParView {
            line: self.line@,
            aligns: self.aligns,
            next: self.next as int,
            count: self.count as int,
        }
    }
}

impl<E> ParView<E> {
    /// The line layouter is well-formed and there are as many children left as
    /// were not taken yet.
    pub open spec fn wf(self) -> bool {
        self.line.wf() && 0 <= self.next <= self.count
    }

    /// The layouter with the items of the next child taken.
    pub open spec fn accept(self, items: Seq<ItemView<E>>) -> ParView<E> {
        ParView { line: self.line.push_items(items), next: self.next + 1, ..self }
    }

    /// The items of the paragraph: its boxes, each with the alignment of the
    /// paragraph.
    pub open spec fn finish(self) -> Seq<ItemView<E>> {
        let boxes = self.line.finish();
        Seq::new(boxes.len(), |i: int| ItemView::Box(boxes[i], self.aligns))
    }
}

impl<E> ParLayouter<E> {
    /// The child to lay out next and the constraints for it, or `None` when all
    /// children were laid out.
    pub fn request(&self) -> (r: Option<(usize, LayoutConstraints)>)
        requires
            self@.wf(),
        ensures
            r is Some <==> self@.next < self@.count,
            r matches Some((index, constraints)) ==> {
                &&& index == self@.next
                &&& constraints.spaces@ == self@.line.remaining()
                &&& constraints.spaces@.len() > 0
                &&& constraints.repeat == self@.line.ctx.repeat
            },
    {
        if self.next < self.count {
            let constraints = LayoutConstraints {
                spaces: self.line.remaining(),
                repeat: self.line.ctx.repeat,
            };
            Some((self.next, constraints))
        } else {
            None
        }
    }

    /// Take the items of the child that was laid out last.
    pub fn accept(&mut self, items: Vec<LayoutItem<E>>)
        requires
            old(self)@.wf(),
            old(self)@.next < old(self)@.count,
        ensures
            final(self)@ == old(self)@.accept(item_views(items@)),
            final(self)@.wf(),
    {
        let ghost taken = items@;
        let ghost views = item_views(taken);
        for item in it: items.into_iter()
            invariant
                it.seq() == taken,
                views == item_views(taken),
                self.line@.wf(),
                self.line@ == old(self).line@.push_items(views.take(it.index() as int)),
                self.aligns == old(self).aligns,
                self.next == old(self).next,
                self.count == old(self).count,
        {
            proof {
                let upto = views.take(it.index() + 1);
                assert(upto.drop_last() =~= views.take(it.index() as int));
                assert(upto.last() == item@);
            }
            self.line.push_item(item);
        }
        assert(views.take(views.len() as int) =~= views);
        self.next = self.next + 1;
    }

    /// Finish the paragraph and return its boxes.
    pub fn finish(self) -> (r: Vec<LayoutItem<E>>)
        requires
            self@.wf(),
            self@.next == self@.count,
        ensures
            item_views(r@) == self@.finish(),
            r@.len() == self@.finish().len(),
            forall|i: int| 0 <= i < r@.len() ==> (#[trigger] r@[i])@ == self@.finish()[i],
    {
        let aligns = self.aligns;
        let boxes = self.line.finish();
        let ghost taken = boxes@;
        let mut items: Vec<LayoutItem<E>> = Vec::new();
        for boxed in it: boxes.into_iter()
            invariant
                it.seq() == taken,
                items@.len() == it.index(),
                forall|i: int|
                    0 <= i < it.index() ==> (#[trigger] items@[i])@ == ItemView::Box(
                        taken[i]@,
                        aligns,
                    ),
        {
            items.push(LayoutItem::Box(boxed, aligns));
        }
        assert(item_views(items@) =~= self@.finish()) by {
            assert(box_views(taken) == self@.line.finish());
            assert forall|i: int| 0 <= i < taken.len() implies box_views(taken)[i]
                == #[trigger] taken[i]@ by {}
        }
        items
    }
}

} // verus!
