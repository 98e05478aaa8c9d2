# glassui

The logic of the GlassUI widgets as a verified Verus library.

- `src/` — the library. Each widget keeps the state its events change and
  offers the decisions those events make (a key press, a click on a row, a
  tick of a timer) as functions with `requires`/`ensures` contracts over
  mathematical views. Laws that span several calls stand as public proof
  functions (`lemma_*`).
- `tests/` — tests on concrete values, including the widget tests of the
  framework.
- `app/` — the window-system side: reading `winit` events as the
  library's inputs, hit testing and layout in `glam` floating point, the
  data table's numeric cells, and the timers.

Modules of the library: `text` (strings and their UTF-8 bytes),
`command_palette`, `chat`, `controls`, `data`, `tree`, `tabs`, `table`,
`date`, `timeline`, `richtext`, `overlays`, `panel`, `status`, `kinds`.
