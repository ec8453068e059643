# par_layout

Paragraph layout, verified with Verus.

A paragraph sets the boxes of its children side by side into lines and stacks the
lines into a sequence of spaces, such as columns or pages. When a line is full, a
new one is started below it, with line spacing between the two; when a space is
full, layouting goes on in the next space. After the last space it goes on in
copies of it if the context repeats; otherwise what is left overflows the last
space.

* `src/` is the library. Every function states what it computes, and the modules
  under `src/laws/` prove what holds of the layouters as a whole: elements come
  out complete and in order, boxes that fit do not overlap, lines are offset by
  their height and the line spacing, and so on.
* `app/` runs paragraphs over trees of nodes that lay themselves out
  asynchronously, and converts lengths from and to floating point numbers.
* `tests/` runs the library on concrete paragraphs.

Lengths are whole numbers of a small unit. Arithmetic on them is exact wherever
the result is representable and otherwise stays at the end of the range. Points
have doubled coordinates, so that the middle of every length is a point.
