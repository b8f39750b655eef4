# cosmic_comp

The decisions of a Wayland compositor about modal dialogs, about the frame rate
of animations, and about blurred backdrops, written in Rust and proved with
Verus.

- `src/modal.rs`, `src/xdg_dialog.rs`: which modal dialogs block their parents.
- `src/power.rs`: how often animations are drawn, and how the power source is
  watched.
- `src/blur/`: the strengths of the blur, the windows and passes of a partial
  update, what has to be captured again, and when an element has changed.
- `src/geometry.rs`, `src/transform.rs`, `src/float.rs`: the values that these
  compute on.

`app/` drives the library: it renders with smithay, keeps the numbers by which
surfaces are known, reads the environment and talks to logind. Geometry in
floating-point numbers is computed there too.

What is trusted rather than proved is marked `external_body`: calls into
`indexmap` (`src/modal.rs`) and into the standard library (`src/power.rs`).
