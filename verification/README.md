# firmware

Display logic of a split-keyboard dongle running rmk: a Bongo Cat animation
state machine, the peripheral status header, battery labels and the decoding
of page-format (SSD1306) bitmaps, verified with Verus.

- `src/` is the verified library. `renderer.rs` holds the animation state
  machine and the render plan (a list of drawing commands), `laws.rs` the
  properties proved of runs of renders, `battery.rs` the battery label and
  icon, `bitmap.rs` the page-format decoding, `text.rs` the fixed-capacity
  labels (`heapless::String`) and decimal digits.
- `app/` runs the drawing commands on an embedded-graphics display and plugs
  the renderer into rmk's `DisplayRenderer`.
- `tests/` runs the library on concrete inputs.
