# quantforge_desktop

The rules of the QuantForge desktop workbench, written in Verus and proved:
how Discover runs are configured, paused, stopped and summarised; how a
databank archive is validated, bound to its market data and exported; how the
Holding battery and Production Lane decide what moves to the Databank; how
market CSV files are read into records (through the `csv` crate), classified,
and turned into the text fields of each import route, and where the imported
files are named; and how evidence and deployment packs are checked. Parsing
prices and broker-clock timestamps, and building the bars, is left to the
market-data crate the desktop drives.

## Layout

- `src/` — the verified library. Each module states its behaviour in
  `requires`/`ensures` over spec functions, and the properties that span
  several calls are public `proof fn` lemmas (their doc comments say what they
  establish).
- `tests/` — executable tests of the library on concrete values.
- `app/` — the desktop shell around the library: serializable copies of its
  views, file-system probes and writes, and the floating-point formulas that
  the library leaves to its caller.

The strategy engine, market-data loaders, evaluators and exporters the desktop
drives are separate crates; the library receives their results as plain
values (hashes, counts, timestamps, file names) and decides what to do with
them.
