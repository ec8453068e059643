//! Setting of boxes into lines.

use crate::boxes::{box_views, moved_elements, BoxLayout, BoxView, ItemView, LayoutItem, LayoutSpace};
use crate::geom::{start_aligns, Dir, Gen2, GenAlign, Point, Size, Spec2};
use crate::length::{difference, fit, fitted, longer, max_length, min_length, shorter, sum, Length};
use crate::stack::{StackContext, StackContextView, StackLayouter, StackView};
use vstd::prelude::*;

verus! {

/// The context for line layouting.
#[derive(Debug, Clone)]
pub struct LineContext {
    /// The layout directions.
    pub dirs: Gen2<Dir>,
    /// The spaces to layout into.
    pub spaces: Vec<LayoutSpace>,
    /// Whether to spill over into copies of the last space or finish layouting
    /// when the last space is used up.
    pub repeat: bool,
    /// The spacing to be inserted between each pair of lines.
    pub line_spacing: Length,
    /// Whether to expand the size of the resulting layout to the full size of
    /// this space or to shrink it to fit the content.
    pub expand: Spec2<bool>,
}

/// What a [`LineContext`] holds.
#[verifier::ext_equal]
pub struct LineContextView {
    pub dirs: Gen2<Dir>,
    pub spaces: Seq<LayoutSpace>,
    pub repeat: bool,
    pub line_spacing: Length,
    pub expand: Spec2<bool>,
}

impl View for LineContext {
    type V = LineContextView;

    open spec fn view(&self) -> LineContextView {
        LineContextView {
            dirs: self.dirs,
            spaces: self.spaces@,
            repeat: self.repeat,
            line_spacing: self.line_spacing,
            expand: self.expand,
        }
    }
}

impl LineContextView {
    /// The context for stacking the lines.
    pub open spec fn for_stack(self) -> StackContextView {
        StackContextView {
            dirs: self.dirs,
            spaces: self.spaces,
            repeat: self.repeat,
            expand: self.expand,
        }
    }
}

/// A sequence of boxes with the same alignment. A real line can consist of
/// multiple runs with different alignments.
pub struct LineRun<E> {
    /// The so-far accumulated items of the run and their distances from the
    /// start of the run.
    pub layouts: Vec<(Length, BoxLayout<E>)>,
    /// The summed width and maximal height of the run.
    pub size: Gen2<Length>,
    /// The alignment of all layouts in the line.
    ///
    /// When a new run is created the alignment is yet to be determined and
    /// `None` as such. Once a layout is added, its alignment decides the
    /// alignment for the whole run. A run that is finished without a layout is
    /// aligned at the start.
    pub aligns: Option<Gen2<GenAlign>>,
    /// The amount of cross-space left by another run on the same line or `None`
    /// if this is the only run so far.
    pub usable: Option<Length>,
}

/// A box in a run and its distance from the start of the run.
pub type RunItem<E> = (Length, BoxView<E>);

/// What a [`LineRun`] holds.
#[verifier::ext_equal]
pub struct RunView<E> {
    pub layouts: Seq<RunItem<E>>,
    pub size: Gen2<Length>,
    pub aligns: Option<Gen2<GenAlign>>,
    pub usable: Option<Length>,
}

/// What a sequence of boxes in a run holds.
pub open spec fn run_items<E>(layouts: Seq<(Length, BoxLayout<E>)>) -> Seq<RunItem<E>> {
    Seq::new(layouts.len(), |i: int| (layouts[i].0, layouts[i].1@))
}

impl<E> View for LineRun<E> {
    type V = RunView<E>;

    open spec fn view(&self) -> RunView<E> {
        RunView {
            layouts: run_items(self.layouts@),
            size: self.size,
            aligns: self.aligns,
            usable: self.usable,
        }
    }
}

impl<E> RunView<E> {
    /// A run without boxes.
    pub open spec fn fresh() -> RunView<E> {
        RunView {
            layouts: Seq::empty(),
            size: Gen2 { main: 0, cross: 0 },
            aligns: None,
            usable: None,
        }
    }

    /// The alignment of the run in the stack: that of its boxes or, if there are
    /// none, that at the start.
    pub open spec fn stack_aligns(self) -> Gen2<GenAlign> {
        match self.aligns {
            Some(aligns) => aligns,
            None => start_aligns(),
        }
    }

    /// Where a box of the run comes to lie in the box for the whole run.
    pub open spec fn item_position(self, dirs: Gen2<Dir>, i: int) -> Point {
        let (offset, child) = self.layouts[i];
        let cross = if dirs.cross.is_positive() {
            offset
        } else {
            fit(self.size.cross - offset - child.size.get(dirs.cross.axis()))
        };
        Gen2 { main: 0 as Length, cross }.switch(dirs).to_point()
    }

    /// The elements of the first `n` boxes of the run in the box for the whole
    /// run.
    pub open spec fn line_elements(self, dirs: Gen2<Dir>, n: int) -> Seq<(Point, E)>
        decreases n,
    {
        if n <= 0 {
            Seq::empty()
        } else {
            self.line_elements(dirs, n - 1) + moved_elements(
                self.layouts[n - 1].1.elements,
                self.item_position(dirs, n - 1),
            )
        }
    }

    /// The box for the whole run.
    pub open spec fn line_box(self, dirs: Gen2<Dir>) -> BoxView<E> {
        BoxView {
            size: self.size.switch(dirs).to_size(),
            elements: self.line_elements(dirs, self.layouts.len() as int),
        }
    }

    /// The run with a box added at its end.
    pub open spec fn append(self, layout: BoxView<E>, dirs: Gen2<Dir>, aligns: Gen2<GenAlign>) -> RunView<E> {
        let size = layout.size.switch(dirs);
        RunView {
            layouts: self.layouts.push((self.size.cross, layout)),
            size: Gen2 {
                main: longer(self.size.main, size.main),
                cross: fit(self.size.cross + size.cross),
            },
            aligns: Some(aligns),
            ..self
        }
    }

    /// The run that shares its line with this one and is aligned further to the
    /// end. Of the cross-space `usable`, a centered run may not use what this
    /// run takes at the start, nor as much at the end.
    pub open spec fn following(self, usable: Length, align: GenAlign) -> RunView<E> {
        RunView {
            size: Gen2 { main: self.size.main, cross: 0 },
            usable: Some(
                if align is Center {
                    fit(usable - 2 * self.size.cross)
                } else {
                    fit(usable - self.size.cross)
                },
            ),
            ..RunView::fresh()
        }
    }
}

impl<E> LineRun<E> {
    /// Create a new run without boxes.
    pub fn new() -> (r: Self)
        ensures
            r@ == RunView::<E>::fresh(),
    {
        let r = LineRun {
            layouts: Vec::new(),
            size: Gen2::new(0, 0),
            aligns: None,
            usable: None,
        };
        assert(run_items(r.layouts@) =~= Seq::<RunItem<E>>::empty());
        r
    }
}

/// Performs the line layouting.
pub struct LineLayouter<E> {
    /// The context used for line layouting.
    pub ctx: LineContext,
    /// The underlying layouter that stacks the finished lines.
    pub stack: StackLayouter<E>,
    /// The in-progress line.
    pub run: LineRun<E>,
}

/// What a [`LineLayouter`] holds.
#[verifier::ext_equal]
pub struct LineView<E> {
    pub ctx: LineContextView,
    pub stack: StackView<E>,
    pub run: RunView<E>,
}

impl<E> View for LineLayouter<E> {
    type V = LineView<E>;

    open spec fn view(&self) -> LineView<E> {
        LineView { ctx: self.ctx@, stack: self.stack@, run: self.run@ }
    }
}

impl<E> LineView<E> {
    /// The stack is well-formed and lays out in the same context.
    pub open spec fn wf(self) -> bool {
        self.stack.wf() && self.stack.ctx == self.ctx.for_stack()
    }

    /// A line layouter that nothing was pushed into yet.
    pub open spec fn fresh(ctx: LineContextView) -> LineView<E> {
        LineView { ctx, stack: StackView::fresh(ctx.for_stack()), run: RunView::fresh() }
    }

    /// The size that is left for the line: that of the stack, with the
    /// cross-space that other runs and the boxes of this run leave.
    pub open spec fn usable(self) -> Gen2<Length> {
        let of_stack = self.stack.usable().switch(self.ctx.dirs);
        let cross = match self.run.usable {
            Some(cross) => cross,
            None => of_stack.cross,
        };
        Gen2 { main: of_stack.main, cross: fit(cross - self.run.size.cross) }
    }

    /// The remaining spaces of the stack, without the main-axis extent of the
    /// line.
    pub open spec fn remaining(self) -> Seq<LayoutSpace> {
        let spaces = self.stack.remaining();
        let axis = self.ctx.dirs.main.axis();
        let size = spaces[0].size;
        spaces.update(
            0,
            LayoutSpace {
                size: size.with(axis, fit(size.get(axis) - self.run.size.main)),
                ..spaces[0]
            },
        )
    }

    /// Whether there is nothing in the line.
    pub open spec fn line_is_empty(self) -> bool {
        self.run.size == (Gen2 { main: 0 as Length, cross: 0 as Length })
            && self.run.layouts.len() == 0
    }

    /// The layouter with the line put on the stack, line spacing due before the
    /// next one, and a new line started.
    pub open spec fn finish_line(self) -> LineView<E> {
        let line = self.run.line_box(self.ctx.dirs);
        LineView {
            stack: self.stack.push_box(line, self.run.stack_aligns()).push_gap(
                self.ctx.line_spacing,
            ),
            run: RunView::fresh(),
            ..self
        }
    }

    /// The layouter with the line finished, if there is anything in it.
    pub open spec fn finish_line_if_not_empty(self) -> LineView<E> {
        if self.line_is_empty() {
            self
        } else {
            self.finish_line()
        }
    }

    /// The layouter with the line and the in-progress space finished.
    pub open spec fn finish_space(self, hard: bool) -> LineView<E> {
        let finished = self.finish_line_if_not_empty();
        LineView { stack: finished.stack.finish_space(hard), ..finished }
    }

    /// The layouts of all spaces.
    pub open spec fn finish(self) -> Seq<BoxView<E>> {
        self.finish_line_if_not_empty().stack.finish()
    }

    /// The layouter with a new run started on the same line.
    pub open spec fn start_run(self, align: GenAlign) -> LineView<E> {
        let usable = self.stack.usable().get(self.ctx.dirs.cross.axis());
        let finished = self.finish_line();
        LineView {
            stack: finished.stack.move_back(self.run.size.main),
            run: self.run.following(usable, align),
            ..finished
        }
    }

    /// The layouter ready for a box with the given alignment.
    ///
    /// Another main-axis alignment needs a new line, and a new space if it is no
    /// longer allowed in this one. With the same main-axis alignment, a smaller
    /// cross-axis alignment needs a new line and a larger one a new run.
    pub open spec fn break_for_aligns(self, aligns: Gen2<GenAlign>) -> LineView<E> {
        match self.run.aligns {
            None => self,
            Some(prev) => if aligns.main != prev.main {
                if aligns.main.rank() < self.stack.space.allowed_align.rank() && self.ctx.repeat {
                    self.finish_space(true)
                } else {
                    self.finish_line()
                }
            } else if aligns.cross.rank() < prev.cross.rank() {
                self.finish_line()
            } else if aligns.cross.rank() > prev.cross.rank() {
                self.start_run(aligns.cross)
            } else {
                self
            },
        }
    }

    /// Whether something of the given size fits into the line.
    pub open spec fn fits(self, size: Size) -> bool {
        let size = size.switch(self.ctx.dirs);
        size.main <= self.usable().main && size.cross <= self.usable().cross
    }

    /// Whether there is a space after the in-progress one. In a repeating context
    /// there always is.
    pub open spec fn has_next_space(self) -> bool {
        self.ctx.repeat || self.stack.space.index + 1 < self.ctx.spaces.len()
    }

    /// The layouter ready for a box of the given size: as it is if the size
    /// fits, otherwise on a new line and, if it does not fit there either, in
    /// the first following space that can fit it. If there is no such space, the
    /// box overflows.
    pub open spec fn break_for_size(self, size: Size) -> LineView<E> {
        if self.fits(size) {
            self
        } else {
            let finished = self.finish_line_if_not_empty();
            if finished.fits(size) || !finished.has_next_space() {
                finished
            } else {
                LineView { stack: finished.stack.skip_to_fitting_space(size), ..finished }
            }
        }
    }

    /// The layouter with a box pushed.
    pub open spec fn push_box(self, layout: BoxView<E>, aligns: Gen2<GenAlign>) -> LineView<E> {
        let ready = self.break_for_aligns(aligns).break_for_size(layout.size);
        LineView { run: ready.run.append(layout, self.ctx.dirs, aligns), ..ready }
    }

    /// The layouter with an item pushed.
    #[verifier::opaque]
    pub open spec fn push_item(self, item: ItemView<E>) -> LineView<E> {
        match item {
            ItemView::Spacing(amount) => self.push_spacing(amount),
            ItemView::Box(boxed, aligns) => self.push_box(boxed, aligns),
        }
    }

    /// The layouter with items pushed one after the other.
    pub open spec fn push_items(self, items: Seq<ItemView<E>>) -> LineView<E> {
        items.fold_left(self, |line: LineView<E>, item: ItemView<E>| line.push_item(item))
    }

    /// The layouter with spacing pushed, reduced to what is usable.
    pub open spec fn push_spacing(self, spacing: Length) -> LineView<E> {
        let added = shorter(spacing, self.usable().cross);
        LineView {
            run: RunView {
                size: Gen2 { cross: fit(self.run.size.cross + added), ..self.run.size },
                ..self.run
            },
            ..self
        }
    }
}

impl<E> LineLayouter<E> {
    /// Create a new line layouter.
    pub fn new(ctx: LineContext) -> (r: Self)
        requires
            ctx.spaces@.len() > 0,
        ensures
            r@ == LineView::<E>::fresh(ctx@),
            r@.wf(),
    {
        let spaces = ctx.spaces.clone();
        assert(spaces@ =~= ctx.spaces@);
        let stack = StackLayouter::new(
            StackContext { dirs: ctx.dirs, spaces, repeat: ctx.repeat, expand: ctx.expand },
        );
        LineLayouter { ctx, stack, run: LineRun::new() }
    }

    /// Add a layout.
    pub fn push_box(&mut self, layout: BoxLayout<E>, aligns: Gen2<GenAlign>)
        requires
            old(self)@.wf(),
        ensures
            final(self)@ == old(self)@.push_box(layout@, aligns),
            final(self)@.wf(),
    {
        let size = layout.size.switch(self.ctx.dirs);
        self.break_for_aligns(aligns);
        self.break_for_size(layout.size);

        self.run.aligns = Some(aligns);
        let ghost items = self.run.layouts@;
        self.run.layouts.push((self.run.size.cross, layout));
        assert(run_items(self.run.layouts@) =~= run_items(items).push(
            (self.run.size.cross, layout@),
        ));

        self.run.size.cross = sum(self.run.size.cross, size.cross);
        self.run.size.main = max_length(self.run.size.main, size.main);
    }

    /// Add an item: a layout or spacing.
    pub fn push_item(&mut self, item: LayoutItem<E>)
        requires
            old(self)@.wf(),
        ensures
            final(self)@ == old(self)@.push_item(item@),
            final(self)@.wf(),
    {
        reveal(LineView::push_item);
        match item {
            LayoutItem::Spacing(amount) => self.push_spacing(amount),
            LayoutItem::Box(boxed, aligns) => self.push_box(boxed, aligns),
        }
    }

    /// Start a new line, run or space if a box with the given alignment needs
    /// one.
    fn break_for_aligns(&mut self, aligns: Gen2<GenAlign>)
        requires
            old(self)@.wf(),
        ensures
            final(self)@ == old(self)@.break_for_aligns(aligns),
            final(self)@.wf(),
    {
        if let Some(prev) = self.run.aligns {
            if aligns.main != prev.main {
                let fitting = aligns.main.rank() >= self.stack.space.allowed_align.rank();
                if !fitting && self.ctx.repeat {
                    self.finish_space(true);
                } else {
                    self.finish_line();
                }
            } else if aligns.cross.rank() < prev.cross.rank() {
                self.finish_line();
            } else if aligns.cross.rank() > prev.cross.rank() {
                self.start_run(aligns.cross);
            }
        }
    }

    /// Start a new run on the same line for boxes with a larger cross-axis
    /// alignment than that of the current run.
    fn start_run(&mut self, align: GenAlign)
        requires
            old(self)@.wf(),
            !(align is Start),
        ensures
            final(self)@ == old(self)@.start_run(align),
            final(self)@.wf(),
    {
        let usable = self.stack.usable().get(self.ctx.dirs.cross.axis());

        let mut rest_run: LineRun<E> = LineRun::new();
        rest_run.size.main = self.run.size.main;
        rest_run.usable = Some(
            match align {
                GenAlign::Center => fitted(usable as i128 - 2 * self.run.size.cross as i128),
                _ => difference(usable, self.run.size.cross),
            },
        );

        self.finish_line();

        // Move back up in the stack layouter.
        self.stack.move_back(rest_run.size.main);
        self.run = rest_run;
    }

    /// Start a new line or space if a box of the given size needs one.
    fn break_for_size(&mut self, layout_size: Size)
        requires
            old(self)@.wf(),
        ensures
            final(self)@ == old(self)@.break_for_size(layout_size),
            final(self)@.wf(),
    {
        let size = layout_size.switch(self.ctx.dirs);
        let usable = self.usable();
        if usable.main < size.main || usable.cross < size.cross {
            if !self.line_is_empty() {
                self.finish_line();
            }
            let usable = self.usable();
            let has_next_space = self.ctx.repeat || self.stack.space.index
                < self.ctx.spaces.len() - 1;
            if (usable.main < size.main || usable.cross < size.cross) && has_next_space {
                self.stack.skip_to_fitting_space(layout_size);
            }
        }
    }

    /// Add spacing to the line.
    pub fn push_spacing(&mut self, spacing: Length)
        requires
            old(self)@.wf(),
        ensures
            final(self)@ == old(self)@.push_spacing(spacing),
            final(self)@.wf(),
    {
        let spacing = min_length(spacing, self.usable().cross);
        self.run.size.cross = sum(self.run.size.cross, spacing);
    }

    /// The remaining usable size of the line.
    ///
    /// This specifies how much more would fit before a line break would be
    /// needed.
    pub fn usable(&self) -> (r: Gen2<Length>)
        ensures
            r == self@.usable(),
    {
        // The base is the usable space of the stack layouter.
        let mut usable = self.stack.usable().switch(self.ctx.dirs);

        // If there was another run already, override the stack's size.
        if let Some(cross) = self.run.usable {
            usable.cross = cross;
        }

        usable.cross = difference(usable.cross, self.run.size.cross);
        usable
    }

    /// The remaining inner spaces. If something is laid out into these spaces,
    /// it will fit into this layouter's underlying stack, with two exceptions. The
    /// first space is all that is left below the line, and what does not go onto
    /// the line fits there only if it leaves room for the line spacing. And the
    /// last space is followed by itself in a non-repeating context, too, where
    /// nothing is laid out into such a copy.
    pub fn remaining(&self) -> (r: Vec<LayoutSpace>)
        requires
            self@.wf(),
        ensures
            r@ == self@.remaining(),
    {
        let mut spaces = self.stack.remaining();
        let axis = self.ctx.dirs.main.axis();
        let mut first = spaces[0];
        let extent = difference(first.size.get(axis), self.run.size.main);
        first.size = first.size.with(axis, extent);
        spaces.set(0, first);
        spaces
    }

    /// Whether the currently set line is empty.
    pub fn line_is_empty(&self) -> (r: bool)
        ensures
            r == self@.line_is_empty(),
    {
        self.run.size.main == 0 && self.run.size.cross == 0 && self.run.layouts.len() == 0
    }

    /// Finish everything up and return the final collection of boxes.
    pub fn finish(self) -> (r: Vec<BoxLayout<E>>)
        requires
            self@.wf(),
        ensures
            box_views(r@) == self@.finish(),
            r@.len() == self@.finish().len(),
            forall|i: int| 0 <= i < r@.len() ==> (#[trigger] r@[i])@ == self@.finish()[i],
    {
        let mut layouter = self;
        layouter.finish_line_if_not_empty();
        layouter.stack.finish()
    }

    /// Finish the active space and start a new one.
    ///
    /// At the top level, this is a page break.
    pub fn finish_space(&mut self, hard: bool)
        requires
            old(self)@.wf(),
        ensures
            final(self)@ == old(self)@.finish_space(hard),
            final(self)@.wf(),
    {
        self.finish_line_if_not_empty();
        self.stack.finish_space(hard);
    }

    /// Finish the active line and start a new one.
    pub fn finish_line(&mut self)
        requires
            old(self)@.wf(),
        ensures
            final(self)@ == old(self)@.finish_line(),
            final(self)@.wf(),
    {
        let dirs = self.ctx.dirs;
        let ghost run = self.run@;

        let mut layout: BoxLayout<E> = BoxLayout::new(self.run.size.switch(dirs).to_size());
        let aligns = match self.run.aligns {
            Some(aligns) => aligns,
            None => Default::default(),
        };

        let mut children: Vec<(Length, BoxLayout<E>)> = Vec::new();
        std::mem::swap(&mut children, &mut self.run.layouts);
        let ghost taken = children@;
        for item in it: children.into_iter()
            invariant
                it.seq() == taken,
                run.layouts == run_items(taken),
                run.size == self.run.size,
                layout.size == run.size.switch(dirs).to_size(),
                layout.elements@ == run.line_elements(dirs, it.index() as int),
        {
            let (offset, child) = item;
            let cross = if dirs.cross.is_positive() {
                offset
            } else {
                fitted(
                    self.run.size.cross as i128 - offset as i128 - child.size.get(
                        dirs.cross.axis(),
                    ) as i128,
                )
            };
            let pos = Gen2::new(0, cross).switch(dirs).to_point();
            assert(pos == run.item_position(dirs, it.index() as int));
            layout.push_layout(pos, child);
        }

        self.stack.push_box(layout, aligns);
        self.stack.push_gap(self.ctx.line_spacing);
        self.run = LineRun::new();
    }

    /// Finish the active line if there is anything in it.
    pub fn finish_line_if_not_empty(&mut self)
        requires
            old(self)@.wf(),
        ensures
            final(self)@ == old(self)@.finish_line_if_not_empty(),
            final(self)@.wf(),
    {
        if !self.line_is_empty() {
            self.finish_line();
        }
    }
}

} // verus!
