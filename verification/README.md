# ws-esp32-s3-touch-lcd-2-8c

Board-support package for the Waveshare ESP32-S3-Touch-LCD-2.8C: a round
480x480 panel behind an ST7701 controller, a GT911 touch overlay, a PCA9554
I/O expander with a piezo on it, and PSRAM-backed double buffering.

- `src/` is the core, verified with Verus. It works on plain values and
  memory only: it decides what to do on pins, buses and the DMA engine, and
  hands those decisions out as actions.
- `app/` is the firmware side. It owns the peripherals, performs the actions
  and reports back what came of them.
- `tests/` runs the core on the host.

## What is proved

- The ST7701 driver puts exactly the given init sequence on the wires, and a
  controller that samples SDA on rising SCK edges receives it unchanged
  (`st7701::receiver`).
- Drawing changes the pixels it names and no others, drops what lies outside
  the image, and reports a cache write-back for everything it changed
  (`framebuffer`).
- The descriptor ring covers one frame exactly, and the EOF handler keeps both
  bounce halves in step with it, also when interrupts coalesce
  (`bounce_buffer`, `scanout`).
- A frame with no refill missed is fed from one framebuffer only. A queued swap
  takes effect at the start of a frame, within one frame. When a flip completes, drawing goes
  to the buffer that the interrupt handler does not read, however many flips
  are under way at once (`scanout`).
- Updates of one expander pin leave the other pins alone (`pca9554`,
  `buzzer`).
- The board is brought up in an order in which each step finds what it needs,
  the panel is told its own init table, and the touch controller ends up at
  its expected bus address (`board`).

## What is assumed

The hardware performs actions as they are named, and `embassy_time::Duration`
is an opaque value that is passed through to the timer.
