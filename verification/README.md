# bracket_terminal

The hardware abstraction layer of the bracket-terminal roguelike toolkit, with
its logic proved by Verus.

- `src/` is the verified library: console backings and their rebuild and
  render plans, the crossterm and curses screen mirrors and the commands that
  redraw them, key and mouse bookkeeping, frame timing, the builder and its
  build plan, font textures, glyph and screen grids, vertex layouts and quad
  index buffers, and z-ordering of sprites.
- `app/` holds what Verus does not see: terminal, image and OpenGL calls,
  floating-point colour and screen arithmetic, the crossterm frame loop, and
  the steps that carry out the library's build plan and draw list. There is no
  window, WebGPU or curses back-end here.
- `tests/` exercises the library on concrete values.
