//! What holds of the layouters as a whole.
//!
//! * [`geometry`]: lengths, directions, alignments, sizes and boxes.
//! * [`stacking`]: what each operation does to a stack.
//! * [`setting`]: what each operation does to a line.
//! * [`calls`]: stacks after any calls, and two stacks side by side.
//! * [`content`]: no element is lost, doubled or reordered.
//! * [`placement`]: where the children of a finished space come to lie.
//! * [`spaces`]: how spaces are filled, left and finished.
//! * [`lines`]: how lines are broken, joined and offset.
//! * [`paragraphs`]: what a paragraph hands on, and line layouters after any items.

pub mod calls;
pub mod content;
pub mod geometry;
pub mod lines;
pub mod paragraphs;
pub mod placement;
pub mod setting;
pub mod spaces;
pub mod stacking;
