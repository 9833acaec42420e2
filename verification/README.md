# nanai-lite-rammap, verified core

The library behind a lightweight viewer of system RAM and GPU memory per
process. Its logic is written in Verus and proved against its contracts; the
Windows calls and the user interface live in `app/`.

- `src/memory.rs` — system summary, process entries, the process list order,
  and `format_bytes`, the human-readable size text.
- `src/doubles.rs` — the exact integer value of a `u64` converted to `f64`,
  on which the size texts and the metric order rest.
- `src/gpu.rs` — adapter entries, the kernel statistics result layout, and the
  per-process GPU memory map.
- `src/app_core.rs` — the viewer state and how each message changes it.
- `src/labels.rs` — header and selection texts.
- `src/view_model.rs` — metric figures, list and group order, layouts.
- `src/sorting.rs` — the stable descending sort used by all orders.
- `src/text.rs`, `src/decimal.rs` — string building, search and decimal digits.

`app/` reads the figures through the Windows APIs and draws the view with
windows-reactor.
