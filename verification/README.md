# termotion

A declarative terminal animation generator: a scenario written in YAML is
validated, compiled into a timeline of terminal events, replayed frame by frame
into a terminal model, composited into RGBA frames and encoded as a PNG sequence
or, through FFmpeg, as WebM or MP4.

## Layout

- `src/` is the verified library (Verus). It holds the scenario model and its
  resolution (`raw`, `resolve`, `theme`, `project`, `vars`, `includes`, `spans`,
  `loading`, `yaml`), the terminal model (`grid`, `style`, `terminal`), the timeline
  (`program`, `compile`, `random`, `runtime`), pixels (`color`, `geom`, `frame`,
  `render`, `glyphs`) and the encoders' decisions (`encode`, `ffmpeg`, `pipeline`), with the
  diagnostics they report (`diag`, `codes`).
- `tests/` exercises the library from outside.
- `app/` is the `termotion` command line: argument parsing, file and process I/O,
  YAML deserialization, reading duration texts (an `f64` conversion), font
  loading and glyph rasterization with cosmic-text.
