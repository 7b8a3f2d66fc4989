# coral_statistics

Statistics of the columns of tables: how many rows a scan saw, and of each column how many nulls and
how many distinct values. What scans observe is merged into a profile that is kept for each workspace.

- `src/` is the library, verified with Verus. Each function states what it returns or changes over
  mathematical views of its arguments; `merge_laws` and `scan_laws` state what holds across functions.
  - `contracts`: observations, signatures and profiles.
  - `text`, `name_map`: the order of strings, and maps that are kept in it.
  - `plan`, `scan`: what a scan keeps statistics of, and the observation that follows from its cells.
  - `array`: how an array is cast to strings, from what it is made of.
  - `batch`, `collect`: reading Arrow record batches, and the observation of a scan of them.
  - `merge`, `store`: merging observations into a profile, and reading a profile back.
  - `sink`: observations on their way to the end of an execution.
- `tests/` runs the library on concrete values and on real record batches.
- `app/` keeps profiles in files as JSON and shares a sink between threads.

What is taken from other crates without proof stands in `src/batch.rs` and `src/array.rs`: reading the
parts of a record batch and of an array, `arrow::compute::cast`, and the clock.
