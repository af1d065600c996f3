# lcd_graphics

Drawing logic for the ESP323248S035 board's 480x320 ST7796 SPI display, verified with Verus.

- `src/color.rs`: 8-bit RGB colors, their RGB565 packing (each channel rounded to the
  nearest level) and `#RRGGBB` color literals.
- `src/geometry.rs`: positions and sizes tagged as checked (`Valid`) or not (`Unchecked`).
- `src/screen.rs`: draw commands and the `Screen` trait, whose default methods check
  positions, sizes and commands against the screen.
- `src/shape.rs`: rounded rectangles and the row-by-row commands that draw them.
- `src/lcd.rs`: the panel protocol: command bus steps, window commands, the power-up
  sequence, solid fills and pixel streams in chunks, and the backlight level;
  `src/lcd/transfer.rs` hands out a whole draw, fill or repeated-color memory write one
  bus step at a time, in the order the panel needs.
- `app/`: the firmware: drives the SPI bus, pins and backlight PWM with `esp-hal`, and runs
  the bouncing-square demo.
