# superui_flair

The style engine of a CSS-like styling system for user interfaces, written in
Verus: the parts that decide, with their contracts proved.

## Layout

- `src/layers.rs`: cascade layers (`@layer`), their order and priorities.
- `src/cascade.rs`: the stable sort that orders selectors by layer, then
  specificity.
- `src/builder.rs`: building a style sheet: blocks (rulesets), the selectors
  pointing at them, font faces, clean-up and checks.
- `src/time.rs`: stopwatch and one-shot timer, in nanoseconds.
- `src/animations/`: keyframe animations (iterations, direction, fill mode,
  play state), transitions, the `animation-*` and `transition-*` properties
  and how they resolve into configurations, keyframe filling.
- `src/components/`: the per-node state: the system markers of the style
  pipeline, and the running animations and transitions with the events they
  raise.
- `src/css/`: CSS: keywords, errors, tokens and values read through
  `cssparser`, shorthands, `animation` / `transition` declarations, font
  weights, `@font-face`, the declarations a ruleset gets, inline styles, and
  loading a style sheet from its items as read (rulesets with nested
  rulesets, layers, font faces, errors) into a builder and a report. Reading
  selectors and property values from text needs the selector type and the
  property registries of the engine, which the caller provides.
- `src/placeholder.rs`, `src/pseudo_state.rs`: font placeholders and
  pseudo-classes.
- `app/`: what works in floating point (durations in seconds, easing curves
  with `bevy_math`, sampling, keyframe interpolation), and reading
  `animation` / `transition` declarations from a `cssparser` parser, which
  the library leaves to its caller.

Durations are counted in nanoseconds (`u128`). Easing functions are a type
parameter of the library; `app/` gives the concrete one.
