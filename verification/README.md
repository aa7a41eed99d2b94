# wasm_goban

A Go board for the browser. The library (`src/`) holds what can be proved:

- `grid`: the node table of a board (which intersections a grid line joins)
  and the list of line segments drawn for it;
- `stars`: the star points of a board;
- `game`: a game of Go on the board, kept by the `goban` crate;
- `events`: what pointer events over the board lead to.

`app/` is the browser side: canvases, mouse events, pixel coordinates
(floating point) and drawing, built on the library.
