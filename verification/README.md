# pre

Previews images, GIF animations and videos in the terminal, drawn with
characters and 24-bit ANSI colours.

- `src/` is the verified library (Verus): picture size on the terminal
  (`dimensions`), command-line reading (`args`), choice of player and stream
  facts (`media`), the terminal's state and escape sequences (`models`),
  frames as text (`render`), decoding pictures and GIFs from their bytes and
  scaling them through the `image` crate (`decode`, `scale`), and
  the text and number helpers they use (`text`, `parse`).
- `app/` is the program around it: reading files, `ffmpeg`/`ffprobe`/`ffplay`,
  Ctrl+C, timing, writing to the terminal, and the floating-point pixel work
  (alpha, brightness, contrast, luminance, frame rates).
- `tests/` runs the library on concrete inputs.
