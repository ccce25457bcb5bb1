# sanji_engine

The rules of a small game engine, written in Verus and proved against their
contracts: asset caching and loading decisions, the input state machines,
the event queue, logging rules, performance accounting (memory tracking,
timers, the profiler, the debug console, hot reloading), the audio and
particle bookkeeping, skeleton hierarchies and keyframe ordering.

Layout:

- `src/` — the verified library. Each module states its model with spec
  functions and views; laws that span several operations are public proof
  functions named `lemma_*`.
- `tests/` — tests of the library on concrete values.
- `app/` — the program around it: the window loop (winit), logging output,
  file reading, JSON settings (serde), and the floating-point parts of the
  engine (noise, easing, tweens, animation curves and blending, audio
  sample counts), which the library does not hold.

Outside calls that the library makes (the clock, `Duration` arithmetic,
`str::to_lowercase`, `Weak` and `Arc` reference counts, random numbers, error
texts) stand behind small trusted wrappers whose contracts say what the
library relies on. White space is Unicode's White_Space property, written
out and checked in `text.rs`.
