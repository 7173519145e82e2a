# appreels (verified core)

`appreels` records desktop and terminal demos and renders them into polished
videos: a framed window on a gradient backdrop, rounded corners and a soft
shadow, title and outro cards, captions, eased zooms and a cursor ring.

This crate is its core, proved with Verus:

- `text`, `number` — lines, trimming, `key=value` splitting and integer
  parsing with the meaning of `str::lines`, `str::trim`, `str::split_once` and
  `str::parse`; decimal writing.
- `capture` — xdotool output, window choice, ffmpeg x11grab arguments, cursor
  track lines.
- `render` — ffprobe/ffmpeg arguments, ffprobe's stream report, cards, and
  the caption and zoom cue in force at a moment, and whether zoom cues
  overlap.
- `style` — the seeded presentation style (splitmix64).
- `raster` — rounded window corners, the shadow mask, alpha compositing.
- `terminal`, `perform` — terminal demo timing, its render cues, and the
  replay plan.
- `cli`, `doctor`, `script` — flag parsing, default paths, where a cue file's
  cursor track lies, the dependency report, the script format's types.

`app/` is the command itself: argument parsing, subprocesses, files, JSON,
fonts, blurs, gradients and the other floating-point pixel work.
