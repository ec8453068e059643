//! Stacking of boxes along the main axis.

use crate::boxes::{box_views, lemma_box_views, moved_elements, BoxLayout, BoxView, LayoutSpace};
use crate::geom::{start_aligns, Dir, Gen2, GenAlign, Point, Rect, Size, Spec2, SpecAxis};
use crate::length::{difference, fit, longer, max_length, min_length, shorter, sum, Length};
use vstd::prelude::*;

verus! {

/// The context for stack layouting.
#[derive(Debug, Clone)]
pub struct StackContext {
    /// The layouting directions.
    pub dirs: Gen2<Dir>,
    /// The spaces to layout into.
    pub spaces: Vec<LayoutSpace>,
    /// Whether to spill over into copies of the last space or finish layouting
    /// when the last space is used up.
    pub repeat: bool,
    /// Whether to expand the size of the resulting layout to the full size of
    /// this space or to shrink it to fit the content.
    pub expand: Spec2<bool>,
}

/// What a [`StackContext`] holds.
#[verifier::ext_equal]
pub struct StackContextView {
    pub dirs: Gen2<Dir>,
    pub spaces: Seq<LayoutSpace>,
    pub repeat: bool,
    pub expand: Spec2<bool>,
}

impl View for StackContext {
    type V = StackContextView;

    open spec fn view(&self) -> StackContextView {
        StackContextView {
            dirs: self.dirs,
            spaces: self.spaces@,
            repeat: self.repeat,
            expand: self.expand,
        }
    }
}

/// A layout space that boxes are being stacked in.
#[derive(Debug)]
pub struct Space<E> {
    /// The index of this space in `ctx.spaces`.
    pub index: usize,
    /// Whether to produce a layout for this space even if it would be empty.
    pub hard: bool,
    /// The so-far accumulated layouts.
    pub layouts: Vec<(BoxLayout<E>, Gen2<GenAlign>)>,
    /// The full size of this space.
    pub size: Size,
    /// The used size of this space.
    pub used: Size,
    /// The remaining space.
    pub usable: Size,
    /// The spacing that is due before the next box, if one follows in this space.
    pub gap: Option<Length>,
    /// Which alignments for new boxes are still allowed.
    pub allowed_align: GenAlign,
}

/// A box together with its alignment in the stack.
pub type Child<E> = (BoxView<E>, Gen2<GenAlign>);

/// What a [`Space`] holds.
#[verifier::ext_equal]
pub struct SpaceView<E> {
    pub index: int,
    pub hard: bool,
    pub layouts: Seq<Child<E>>,
    pub size: Size,
    pub used: Size,
    pub usable: Size,
    pub gap: Option<Length>,
    pub allowed_align: GenAlign,
}

/// What a sequence of aligned boxes holds.
pub open spec fn children_of<E>(layouts: Seq<(BoxLayout<E>, Gen2<GenAlign>)>) -> Seq<Child<E>> {
    Seq::new(layouts.len(), |i: int| (layouts[i].0@, layouts[i].1))
}

impl<E> View for Space<E> {
    type V = SpaceView<E>;

    open spec fn view(&self) -> SpaceView<E> {
        SpaceView {
            index: self.index as int,
            hard: self.hard,
            layouts: children_of(self.layouts@),
            size: self.size,
            used: self.used,
            usable: self.usable,
            gap: self.gap,
            allowed_align: self.allowed_align,
        }
    }
}

impl<E> SpaceView<E> {
    /// A space that nothing was stacked in yet.
    pub open spec fn fresh(index: int, hard: bool, size: Size) -> SpaceView<E> {
        SpaceView {
            index,
            hard,
            layouts: Seq::empty(),
            size,
            used: Size::zero(),
            usable: size,
            gap: None,
            allowed_align: GenAlign::Start,
        }
    }
}

impl<E> Space<E> {
    /// Create a new space that nothing was stacked in yet.
    pub fn new(index: usize, hard: bool, size: Size) -> (r: Self)
        ensures
            r@ == SpaceView::<E>::fresh(index as int, hard, size),
    {
        let r = Space {
            index,
            hard,
            layouts: Vec::new(),
            size,
            used: Size::zero(),
            usable: size,
            gap: None,
            allowed_align: GenAlign::Start,
        };
        assert(children_of(r.layouts@) =~= Seq::<Child<E>>::empty());
        r
    }
}

/// The summed extents along an axis of the children `from .. to`.
pub open spec fn extent_sum<E>(
    children: Seq<Child<E>>,
    axis: SpecAxis,
    from: int,
    to: int,
) -> int
    decreases to - from,
{
    if from >= to {
        0
    } else {
        extent_sum(children, axis, from, to - 1) + children[to - 1].0.size.get(axis)
    }
}

/// Extents can be summed up in two parts.
pub proof fn lemma_extent_sum_split<E>(
    children: Seq<Child<E>>,
    axis: SpecAxis,
    from: int,
    mid: int,
    to: int,
)
    requires
        from <= mid <= to,
    ensures
        extent_sum(children, axis, from, to) == extent_sum(children, axis, from, mid)
            + extent_sum(children, axis, mid, to),
    decreases to - mid,
{
    if mid < to {
        lemma_extent_sum_split(children, axis, from, mid, to - 1);
    }
}

/// The sum of `n` extents is at most `n` times as large as a length can be.
pub proof fn lemma_extent_sum_bound<E>(
    children: Seq<Child<E>>,
    axis: SpecAxis,
    from: int,
    to: int,
)
    requires
        from <= to,
    ensures
        (to - from) * i64::MIN <= extent_sum(children, axis, from, to) <= (to - from) * i64::MAX,
    decreases to - from,
{
    if from < to {
        lemma_extent_sum_bound(children, axis, from, to - 1);
    }
}

/// The bounds along the main axis of a child in a layout of the given size: what
/// is left when the extents of the children before it are taken away at the
/// start of the layout and those of the children after it at the end. The first
/// bound is that to the left (or at the top).
pub open spec fn main_bounds<E>(
    children: Seq<Child<E>>,
    dir: Dir,
    size: Size,
    i: int,
) -> (int, int) {
    let before = extent_sum(children, dir.axis(), 0, i);
    let after = extent_sum(children, dir.axis(), i + 1, children.len() as int);
    if dir.is_positive() {
        (before, size.get(dir.axis()) - after)
    } else {
        (after, size.get(dir.axis()) - before)
    }
}

/// Where a child comes to lie in a layout of the given size: aligned in its
/// bounds on the main axis and in the whole layout on the cross axis.
pub open spec fn child_position<E>(
    children: Seq<Child<E>>,
    dirs: Gen2<Dir>,
    size: Size,
    i: int,
) -> Point {
    let own = children[i].0.size.switch(dirs);
    let aligns = children[i].1;
    let bounds = main_bounds(children, dirs.main, size, i);
    let main = aligns.main.spec_place(dirs.main, bounds.0, bounds.1, own.main);
    let cross = aligns.cross.spec_place(dirs.cross, 0, size.switch(dirs).cross as int, own.cross);
    let by_axis = Gen2 { main, cross }.switch(dirs);
    Point { x2: by_axis.horizontal, y2: by_axis.vertical }
}

/// The elements of the first `n` children in a layout of the given size, each
/// child at its position.
pub open spec fn placed_elements<E>(
    children: Seq<Child<E>>,
    dirs: Gen2<Dir>,
    size: Size,
    n: int,
) -> Seq<(Point, E)>
    decreases n,
{
    if n <= 0 {
        Seq::empty()
    } else {
        placed_elements(children, dirs, size, n - 1) + moved_elements(
            children[n - 1].0.elements,
            child_position(children, dirs, size, n - 1),
        )
    }
}

/// The first index from `from` on of a space that can fit the size.
pub open spec fn first_fit(spaces: Seq<LayoutSpace>, size: Size, from: int) -> Option<int>
    decreases spaces.len() - from,
{
    if from >= spaces.len() {
        None
    } else if spaces[from].size.fits(size) {
        Some(from)
    } else {
        first_fit(spaces, size, from + 1)
    }
}

/// Performs the stack layouting.
pub struct StackLayouter<E> {
    /// The context used for stack layouting.
    pub ctx: StackContext,
    /// The finished layouts.
    pub layouts: Vec<BoxLayout<E>>,
    /// The in-progress space.
    pub space: Space<E>,
}

/// What a [`StackLayouter`] holds.
#[verifier::ext_equal]
pub struct StackView<E> {
    pub ctx: StackContextView,
    pub layouts: Seq<BoxView<E>>,
    pub space: SpaceView<E>,
}

impl<E> View for StackLayouter<E> {
    type V = StackView<E>;

    open spec fn view(&self) -> StackView<E> {
        StackView {
            ctx: self.ctx@,
            layouts: box_views(self.layouts@),
            space: self.space@,
        }
    }
}

impl<E> StackView<E> {
    /// The in-progress space is one of the spaces to layout into.
    pub open spec fn wf(self) -> bool {
        0 <= self.space.index < self.ctx.spaces.len()
    }

    /// A stack in which nothing was laid out yet.
    pub open spec fn fresh(ctx: StackContextView) -> StackView<E> {
        StackView {
            ctx,
            layouts: Seq::empty(),
            space: SpaceView::fresh(0, true, ctx.spaces[0].size),
        }
    }

    /// The index of the space that follows the in-progress one: the next one or
    /// again the last one.
    pub open spec fn next_space(self) -> int {
        if self.space.index + 1 < self.ctx.spaces.len() {
            self.space.index + 1
        } else {
            self.ctx.spaces.len() - 1
        }
    }

    /// The stack with a fresh in-progress space.
    pub open spec fn start_space(self, index: int, hard: bool) -> StackView<E> {
        StackView { space: SpaceView::fresh(index, hard, self.ctx.spaces[index].size), ..self }
    }

    /// The size of the layout for the in-progress space: the used size, with the
    /// full size of the space on the axes on which to expand.
    pub open spec fn finished_size(self) -> Size {
        let full = self.ctx.spaces[self.space.index].size;
        Size {
            width: if self.ctx.expand.horizontal {
                full.width
            } else {
                self.space.used.width
            },
            height: if self.ctx.expand.vertical {
                full.height
            } else {
                self.space.used.height
            },
        }
    }

    /// The layout for the in-progress space.
    pub open spec fn finished_box(self) -> BoxView<E> {
        BoxView {
            size: self.finished_size(),
            elements: placed_elements(
                self.space.layouts,
                self.ctx.dirs,
                self.finished_size(),
                self.space.layouts.len() as int,
            ),
        }
    }

    /// The stack with the in-progress space finished and the following one
    /// started.
    pub open spec fn finish_space(self, hard: bool) -> StackView<E> {
        StackView { layouts: self.layouts.push(self.finished_box()), ..self }.start_space(
            self.next_space(),
            hard,
        )
    }

    /// The stack moved on to the first following space that can fit the size, or
    /// as it is if there is none.
    pub open spec fn skip_to_fitting_space(self, size: Size) -> StackView<E> {
        match first_fit(self.ctx.spaces, size, self.next_space()) {
            Some(index) => self.finish_space(true).start_space(index, true),
            None => self,
        }
    }

    /// The stack with the used and the usable size changed by something of the
    /// given size.
    pub open spec fn update_metrics(self, added: Gen2<Length>) -> StackView<E> {
        let used = self.space.used.switch(self.ctx.dirs);
        let axis = self.ctx.dirs.main.axis();
        StackView {
            space: SpaceView {
                used: Gen2 {
                    main: fit(used.main + added.main),
                    cross: longer(used.cross, added.cross),
                }.switch(self.ctx.dirs).to_size(),
                usable: self.space.usable.with(
                    axis,
                    fit(self.space.usable.get(axis) - added.main),
                ),
                ..self.space
            },
            ..self
        }
    }

    /// The stack with a box added to the in-progress space.
    pub open spec fn append(self, layout: BoxView<E>, aligns: Gen2<GenAlign>) -> StackView<E> {
        let updated = self.update_metrics(layout.size.switch(self.ctx.dirs));
        StackView {
            space: SpaceView {
                layouts: updated.space.layouts.push((layout, aligns)),
                ..updated.space
            },
            ..updated
        }
    }

    /// The stack after a space break, if the alignment makes one necessary: in a
    /// repeating context the alignments in a space may only increase.
    pub open spec fn break_for_align(self, align: GenAlign) -> StackView<E> {
        if align.rank() < self.space.allowed_align.rank() && self.ctx.repeat {
            self.finish_space(true)
        } else {
            self
        }
    }

    /// The stack moved on to a fitting space, if it is repeating and the size
    /// does not fit into the in-progress space.
    pub open spec fn break_for_size(self, size: Size) -> StackView<E> {
        if !self.usable().fits(size) && self.ctx.repeat {
            self.skip_to_fitting_space(size)
        } else {
            self
        }
    }

    /// A gap, reduced to what is left on the main axis.
    pub open spec fn reduced_gap(self, gap: Length) -> Length {
        shorter(gap, longer(self.space.usable.get(self.ctx.dirs.main.axis()), 0))
    }

    /// The size that is left for the next box: what is left of the space, without
    /// the gap that is due before the box.
    pub open spec fn usable(self) -> Size {
        let axis = self.ctx.dirs.main.axis();
        match self.space.gap {
            None => self.space.usable,
            Some(gap) => self.space.usable.with(
                axis,
                fit(self.space.usable.get(axis) - self.reduced_gap(gap)),
            ),
        }
    }

    /// The stack with the gap inserted that is due before a box of the given size.
    /// The gap is reduced only before a box that then fits, that is one that takes
    /// up no room on the main axis.
    pub open spec fn insert_gap(self, size: Size) -> StackView<E> {
        match self.space.gap {
            None => self,
            Some(gap) => self.with_gap(None).push_blank(
                if self.usable().fits(size) {
                    self.reduced_gap(gap)
                } else {
                    gap
                },
            ),
        }
    }

    /// The stack with a box pushed.
    pub open spec fn push_box(self, layout: BoxView<E>, aligns: Gen2<GenAlign>) -> StackView<E> {
        let ready = self.break_for_align(aligns.main).break_for_size(layout.size);
        let added = ready.insert_gap(layout.size).append(layout, aligns);
        StackView { space: SpaceView { allowed_align: aligns.main, ..added.space }, ..added }
    }

    /// The spacing, reduced to what is usable on the main axis.
    pub open spec fn fitting_spacing(self, spacing: Length) -> Length {
        shorter(spacing, self.usable().get(self.ctx.dirs.main.axis()))
    }

    /// The empty box that stands for spacing of the given extent.
    pub open spec fn blank_box(self, extent: Length) -> BoxView<E> {
        BoxView::blank(
            Gen2 { main: extent, cross: 0 as Length }.switch(self.ctx.dirs).to_size(),
        )
    }

    /// The stack with spacing of exactly the given extent added.
    pub open spec fn push_blank(self, extent: Length) -> StackView<E> {
        self.append(self.blank_box(extent), start_aligns())
    }

    /// The stack with spacing pushed.
    pub open spec fn push_spacing(self, spacing: Length) -> StackView<E> {
        self.push_blank(self.fitting_spacing(spacing))
    }

    /// The stack with another gap due before the next box.
    pub open spec fn with_gap(self, gap: Option<Length>) -> StackView<E> {
        StackView { space: SpaceView { gap, ..self.space }, ..self }
    }

    /// The stack with a gap due before the next box.
    pub open spec fn push_gap(self, gap: Length) -> StackView<E> {
        self.with_gap(Some(gap))
    }

    /// The stack moved back by the given extent, with no gap due.
    pub open spec fn move_back(self, extent: Length) -> StackView<E> {
        self.with_gap(None).push_blank(fit(-extent))
    }

    /// The rest of the in-progress space and the spaces that follow it.
    pub open spec fn remaining(self) -> Seq<LayoutSpace> {
        seq![LayoutSpace { base: self.space.size, size: self.usable() }]
            + self.ctx.spaces.skip(self.next_space())
    }

    /// Whether nothing was laid out into the in-progress space.
    pub open spec fn space_is_empty(self) -> bool {
        self.space.used == Size::zero() && self.space.layouts.len() == 0
    }

    /// The layouts of all spaces. There is none for the in-progress space if it
    /// is empty and not hard.
    pub open spec fn finish(self) -> Seq<BoxView<E>> {
        if self.space.hard || !self.space_is_empty() {
            self.layouts.push(self.finished_box())
        } else {
            self.layouts
        }
    }
}

/// Whether `bound` is a rectangle at the origin, of the given size, without
/// `before` at the start and `after` at the end of the direction.
spec fn is_bound(bound: Rect, size: Size, dir: Dir, before: int, after: int) -> bool {
    &&& bound.x0 == if dir is LTR {
        before
    } else if dir is RTL {
        after
    } else {
        0
    }
    &&& bound.y0 == if dir is TTB {
        before
    } else if dir is BTT {
        after
    } else {
        0
    }
    &&& bound.x1 == size.width - if dir is LTR {
        after
    } else if dir is RTL {
        before
    } else {
        0
    }
    &&& bound.y1 == size.height - if dir is TTB {
        after
    } else if dir is BTT {
        before
    } else {
        0
    }
}

impl<E> StackLayouter<E> {
    /// Create a new stack layouter.
    pub fn new(ctx: StackContext) -> (r: Self)
        requires
            ctx.spaces@.len() > 0,
        ensures
            r@ == StackView::<E>::fresh(ctx@),
            r@.wf(),
    {
        let space = ctx.spaces[0];
        let r = StackLayouter {
            ctx,
            layouts: Vec::new(),
            space: Space::new(0, true, space.size),
        };
        assert(box_views(r.layouts@) =~= Seq::<BoxView<E>>::empty());
        r
    }

    /// Add a layout to the stack.
    pub fn push_box(&mut self, layout: BoxLayout<E>, aligns: Gen2<GenAlign>)
        requires
            old(self)@.wf(),
        ensures
            final(self)@ == old(self)@.push_box(layout@, aligns),
            final(self)@.wf(),
            final(self)@.ctx == old(self)@.ctx,
    {
        // If the alignment cannot be fitted in this space, finish it.
        if aligns.main.rank() < self.space.allowed_align.rank() && self.ctx.repeat {
            self.finish_space(true);
        }
        if !self.usable().fits(layout.size) && self.ctx.repeat {
            self.skip_to_fitting_space(layout.size);
        }
        self.insert_gap(layout.size);

        // Change the usable space and size of the space.
        self.update_metrics(layout.size.switch(self.ctx.dirs));

        // Add the box and remember which alignments are allowed from now on.
        let ghost children = self.space.layouts@;
        self.space.layouts.push((layout, aligns));
        self.space.allowed_align = aligns.main;
        assert(children_of(self.space.layouts@) =~= children_of(children).push((layout@, aligns)));
    }

    /// Add spacing to the stack.
    pub fn push_spacing(&mut self, spacing: Length)
        requires
            old(self)@.wf(),
        ensures
            final(self)@ == old(self)@.push_spacing(spacing),
            final(self)@.wf(),
            final(self)@.ctx == old(self)@.ctx,
    {
        // Reduce the spacing such that it definitely fits.
        let axis = self.ctx.dirs.main.axis();
        let spacing = min_length(spacing, self.usable().get(axis));
        self.push_blank(spacing);
    }

    /// Make a gap due between the last box and the next one. If no box follows in
    /// this space, there is no gap.
    pub fn push_gap(&mut self, gap: Length)
        requires
            old(self)@.wf(),
        ensures
            final(self)@ == old(self)@.push_gap(gap),
            final(self)@.wf(),
            final(self)@.ctx == old(self)@.ctx,
    {
        self.space.gap = Some(gap);
    }

    /// Move back by the given extent, such that the next box lies beside what was
    /// stacked last instead of behind it. No gap is due any more.
    pub fn move_back(&mut self, extent: Length)
        requires
            old(self)@.wf(),
        ensures
            final(self)@ == old(self)@.move_back(extent),
            final(self)@.wf(),
            final(self)@.ctx == old(self)@.ctx,
    {
        self.space.gap = None;
        self.push_blank(difference(0, extent));
    }

    /// Insert the gap that is due before a box of the given size.
    fn insert_gap(&mut self, size: Size)
        ensures
            final(self)@ == old(self)@.insert_gap(size),
    {
        if let Some(gap) = self.space.gap {
            let extent = if self.usable().fits(size) {
                self.reduced_gap(gap)
            } else {
                gap
            };
            self.space.gap = None;
            self.push_blank(extent);
        }
    }

    /// A gap, reduced to what is left on the main axis.
    fn reduced_gap(&self, gap: Length) -> (r: Length)
        ensures
            r == self@.reduced_gap(gap),
    {
        min_length(gap, max_length(self.space.usable.get(self.ctx.dirs.main.axis()), 0))
    }

    /// Add spacing of exactly the given extent.
    fn push_blank(&mut self, extent: Length)
        ensures
            final(self)@ == old(self)@.push_blank(extent),
    {
        let size = Gen2::new(extent, 0);
        self.update_metrics(size);
        let boxed = BoxLayout::new(size.switch(self.ctx.dirs).to_size());
        let aligns: Gen2<GenAlign> = Default::default();
        let ghost children = self.space.layouts@;
        let ghost view = boxed@;
        self.space.layouts.push((boxed, aligns));
        assert(children_of(self.space.layouts@) =~= children_of(children).push((view, aligns)));
    }

    fn update_metrics(&mut self, added: Gen2<Length>)
        ensures
            final(self)@ == old(self)@.update_metrics(added),
    {
        let dirs = self.ctx.dirs;
        let mut used = self.space.used.switch(dirs);
        used.cross = max_length(used.cross, added.cross);
        used.main = sum(used.main, added.main);
        self.space.used = used.switch(dirs).to_size();

        let axis = dirs.main.axis();
        let usable = self.space.usable;
        self.space.usable = usable.with(axis, difference(usable.get(axis), added.main));
    }

    /// Move to the first space that can fit the given size or do nothing
    /// if no space is capable of that.
    pub fn skip_to_fitting_space(&mut self, size: Size)
        requires
            old(self)@.wf(),
        ensures
            final(self)@ == old(self)@.skip_to_fitting_space(size),
            final(self)@.wf(),
            final(self)@.ctx == old(self)@.ctx,
    {
        let start = self.next_space();
        let mut index = start;
        while index < self.ctx.spaces.len()
            invariant
                *self == *old(self),
                self@.wf(),
                start == self@.next_space(),
                start <= index <= self.ctx.spaces@.len(),
                first_fit(self.ctx.spaces@, size, start as int) == first_fit(
                    self.ctx.spaces@,
                    size,
                    index as int,
                ),
            decreases self.ctx.spaces@.len() - index,
        {
            if self.ctx.spaces[index].size.fits(size) {
                self.finish_space(true);
                self.start_space(index, true);
                return;
            }
            index += 1;
        }
    }

    /// The remaining inner spaces. If something is laid out into these spaces,
    /// it will fit into this stack, unless its alignment is no longer allowed in
    /// the current space. In a non-repeating context only the current space is
    /// there for it, and what does not fit overflows.
    pub fn remaining(&self) -> (r: Vec<LayoutSpace>)
        requires
            self@.wf(),
        ensures
            r@ == self@.remaining(),
    {
        let mut spaces: Vec<LayoutSpace> = Vec::new();
        let usable = self.usable();
        spaces.push(LayoutSpace { base: self.space.size, size: usable });
        let start = self.next_space();
        let mut index = start;
        while index < self.ctx.spaces.len()
            invariant
                start <= index <= self.ctx.spaces@.len(),
                spaces@ == seq![LayoutSpace { base: self.space.size, size: usable }]
                    + self.ctx.spaces@.subrange(start as int, index as int),
            decreases self.ctx.spaces@.len() - index,
        {
            spaces.push(self.ctx.spaces[index]);
            index += 1;
        }
        spaces
    }

    /// The remaining usable size.
    pub fn usable(&self) -> (r: Size)
        ensures
            r == self@.usable(),
    {
        let usable = self.space.usable;
        match self.space.gap {
            None => usable,
            Some(gap) => {
                let axis = self.ctx.dirs.main.axis();
                usable.with(axis, difference(usable.get(axis), self.reduced_gap(gap)))
            },
        }
    }

    /// Whether the current layout space is empty.
    pub fn space_is_empty(&self) -> (r: bool)
        ensures
            r == self@.space_is_empty(),
    {
        self.space.used == Size::zero() && self.space.layouts.len() == 0
    }

    /// Finish everything up and return the final collection of boxes.
    pub fn finish(self) -> (r: Vec<BoxLayout<E>>)
        requires
            self@.wf(),
        ensures
            box_views(r@) == self@.finish(),
            r@.len() == self@.finish().len(),
            forall|i: int| 0 <= i < r@.len() ==> (#[trigger] r@[i])@ == self@.finish()[i],
    {
        let mut stack = self;
        if stack.space.hard || !stack.space_is_empty() {
            stack.finish_space(false);
        }
        proof {
            lemma_box_views(stack.layouts@);
        }
        stack.layouts
    }

    /// Finish active current space and start a new one.
    pub fn finish_space(&mut self, hard: bool)
        requires
            old(self)@.wf(),
        ensures
            final(self)@ == old(self)@.finish_space(hard),
            final(self)@.wf(),
            final(self)@.ctx == old(self)@.ctx,
    {
        let dirs = self.ctx.dirs;
        let axis = dirs.main.axis();
        let ghost children = self@.space.layouts;
        let count = self.space.layouts.len();

        // Determine the full size of the space. (Mostly done already while
        // collecting the boxes, but here we expand if necessary.)
        let space = self.ctx.spaces[self.space.index];
        let mut layout_size = self.space.used;
        if self.ctx.expand.horizontal {
            layout_size.width = space.size.width;
        }
        if self.ctx.expand.vertical {
            layout_size.height = space.size.height;
        }
        let mut layout: BoxLayout<E> = BoxLayout::new(layout_size);

        // Forward pass. Create a bounding box for each layout in which it will
        // be aligned, reduced by what is taken by the layouts before it.
        let mut bounds: Vec<Rect> = Vec::new();
        let mut bound = Rect {
            x0: 0,
            y0: 0,
            x1: layout_size.width as i128,
            y1: layout_size.height as i128,
        };
        for i in 0..count
            invariant
                count == self.space.layouts@.len(),
                children == self@.space.layouts,
                axis == dirs.main.axis(),
                bounds@.len() == i,
                is_bound(bound, layout_size, dirs.main, extent_sum(children, axis, 0, i as int), 0),
                forall|k: int|
                    0 <= k < i ==> is_bound(
                        #[trigger] bounds@[k],
                        layout_size,
                        dirs.main,
                        extent_sum(children, axis, 0, k),
                        0,
                    ),
        {
            bounds.push(bound);
            proof {
                lemma_extent_sum_bound(children, axis, 0, i as int);
                lemma_extent_sum_bound(children, axis, 0, i + 1);
            }
            let extent: i128 = self.space.layouts[i].0.size.get(axis) as i128;
            bound.shift_side(dirs.main.start(), dirs.main.signed(extent));
        }

        // Backward pass. Reduce the bounding boxes by what is taken by the
        // layouts after them.
        let mut main_extent: i128 = 0;
        let mut i = count;
        while i > 0
            invariant
                count == self.space.layouts@.len(),
                children == self@.space.layouts,
                axis == dirs.main.axis(),
                bounds@.len() == count,
                0 <= i <= count,
                main_extent == extent_sum(children, axis, i as int, count as int),
                forall|k: int|
                    0 <= k < count ==> is_bound(
                        #[trigger] bounds@[k],
                        layout_size,
                        dirs.main,
                        extent_sum(children, axis, 0, k),
                        if k < i {
                            0
                        } else {
                            extent_sum(children, axis, k + 1, count as int)
                        },
                    ),
            decreases i,
        {
            i -= 1;
            proof {
                lemma_extent_sum_bound(children, axis, i + 1, count as int);
                lemma_extent_sum_bound(children, axis, i as int, count as int);
                lemma_extent_sum_split(children, axis, i as int, i + 1, count as int);
                assert(extent_sum(children, axis, i as int, i as int) == 0);
            }
            let mut reduced = bounds[i];
            reduced.shift_side(dirs.main.end(), -dirs.main.signed(main_extent));
            bounds.set(i, reduced);
            main_extent = main_extent + self.space.layouts[i].0.size.get(axis) as i128;
        }

        // Align each layout in its bounding box and collect everything into a
        // single finished layout.
        let mut layouts: Vec<(BoxLayout<E>, Gen2<GenAlign>)> = Vec::new();
        std::mem::swap(&mut layouts, &mut self.space.layouts);
        let ghost taken = layouts@;
        let mut k: usize = 0;
        for child in it: layouts.into_iter()
            invariant
                it.seq() == taken,
                children == children_of(taken),
                count == taken.len(),
                axis == dirs.main.axis(),
                k == it.index(),
                bounds@.len() == count,
                forall|k: int|
                    0 <= k < count ==> is_bound(
                        #[trigger] bounds@[k],
                        layout_size,
                        dirs.main,
                        extent_sum(children, axis, 0, k),
                        extent_sum(children, axis, k + 1, count as int),
                    ),
                layout.size == layout_size,
                layout.elements@ == placed_elements(children, dirs, layout_size, k as int),
        {
            let (child, aligns) = child;
            let bound = bounds[k];
            proof {
                lemma_extent_sum_bound(children, axis, 0, k as int);
                lemma_extent_sum_bound(children, axis, k + 1, count as int);
            }
            let (x_align, x_dir, y_align, y_dir) = match axis {
                SpecAxis::Horizontal => (aligns.main, dirs.main, aligns.cross, dirs.cross),
                SpecAxis::Vertical => (aligns.cross, dirs.cross, aligns.main, dirs.main),
            };
            let pos = Point {
                x2: x_align.place(x_dir, bound.x0, bound.x1, child.size.width),
                y2: y_align.place(y_dir, bound.y0, bound.y1, child.size.height),
            };
            assert(pos == child_position(children, dirs, layout_size, k as int));
            layout.push_layout(pos, child);
            k += 1;
        }

        let ghost finished = self.layouts@;
        let ghost view = layout@;
        self.layouts.push(layout);
        assert(box_views(self.layouts@) =~= box_views(finished).push(view));

        // Start the next space.
        let next = self.next_space();
        self.start_space(next, hard);
    }

    /// Start a fresh space.
    pub fn start_space(&mut self, index: usize, hard: bool)
        requires
            index < old(self)@.ctx.spaces.len(),
        ensures
            final(self)@ == old(self)@.start_space(index as int, hard),
    {
        let space = self.ctx.spaces[index];
        self.space = Space::new(index, hard, space.size);
    }

    /// The index of the space that follows the current one. The last space is
    /// followed by itself.
    pub fn next_space(&self) -> (r: usize)
        requires
            self@.wf(),
        ensures
            r == self@.next_space(),
    {
        let last = self.ctx.spaces.len() - 1;
        if self.space.index < last {
            self.space.index + 1
        } else {
            last
        }
    }
}

} // verus!
