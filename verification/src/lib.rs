//! Paragraph layout: boxes are set side by side into lines, and the lines are
//! stacked into a sequence of spaces such as the columns and pages of a
//! document.
//!
//! * [`length`]: the integer lengths that everything is measured in.
//! * [`geom`]: sizes, points, rectangles, directions and alignments.
//! * [`boxes`]: finished boxes, the spaces they are laid out into and the items
//!   that nodes exchange.
//! * [`stack`]: stacks boxes along the main axis and fills space after space.
//! * [`line`]: sets boxes into lines and hands the lines to a stack.
//! * [`par`]: runs a paragraph over the layouts of its children.
//! * [`laws`]: what holds of the layouters as a whole.

pub mod boxes;
pub mod geom;
pub mod laws;
pub mod length;
pub mod line;
pub mod par;
pub mod stack;
