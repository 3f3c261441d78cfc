# rp_spi_tft

Drawing for an ST7735 SPI panel on an RP2040 board.

- `src/` is the verified library. `color` holds the 5-6-5 color type and its
  packing; `display` the frame buffer, pen and cursor of a `W` x `H` panel and
  the pixel operations; `text` fonts as glyph tables and text output;
  `_2d` rectangles and sprites; `bus` the controller commands and the bus
  steps (data/command line, reset line, bytes, waits) that bring the panel up,
  set windows and send the frame. Every operation has a contract over the
  frame as rows of pixel words, and the laws (packing round trips, blending
  bounds, text composition, the byte layout of a sent frame) are proof
  functions beside them.
- `app/` drives the hardware: it holds the SPI bus and pins, carries out the
  bus steps the library computes, and keeps the operations that take
  floating-point factors (blending and darkening by a fraction, sprite
  animation).
- `tests/` runs the library on concrete values.
