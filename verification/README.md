# sail_display

Display strings for the values of columnar data, with Verus proofs of what
each value renders to, and the naming rules that DataFusion-style listing
tables apply to the columns of CSV files.

Layout:

- `src/column.rs` — the column model that formatting reads (nulls, booleans,
  integers, text, durations, dates, times of day, timestamps with their
  timezone, decimals, lists, structs, maps, dictionaries, run-end encoded and
  union columns), its well-formedness, and `is_well_formed`, the verified
  test of it.
- `src/options.rs` — `FormatOptions` and its builders. By default nulls are
  written as `""` and dates, times and timestamps in RFC 3339; a custom
  format string is handed to chrono.
- `src/render.rs` — the specification of what formatting a row writes, the
  error that stops it, and the error that preparing a column gives (which
  depends on the column's data type alone).
- `src/display.rs` — `ArrayFormatter`, `ValueFormatter`,
  `array_value_to_string`, verified against `render.rs`; `is_printable`,
  the verified test that writing a row hands arrow and chrono no value on
  which they panic (a decimal that does not fit its precision and scale, or
  a timestamp with a timezone on chrono's first or last day, in RFC 3339);
  and `lexical_to_string` for every integer type.
- `src/temporal.rs` — dates, times and timestamps through arrow's temporal
  conversions and chrono: one trusted function for each conversion and each
  of chrono's renderings (`Debug`, RFC 3339, a format string); the choice
  between them by the options is verified code in `display.rs`. Also the
  parsing of timezones.
- `src/duration.rs`, `src/decimal.rs`, `src/text.rs` — durations (ISO 8601
  through chrono, and the Spark interval form), decimals through arrow, and
  decimal digits.
- `src/data_source.rs` — renaming of generated CSV column names, CSV
  extension recognition, and the refusal of listings without files.
- `app/lib.rs` — conversion of arrow arrays into the column model, arrow
  errors, and the asynchronous listing of files through DataFusion.

Not provided: the Spark form of dates, times and timestamps, and the display
of binary and interval columns. Their text is defined by a formatter that is
not part of this crate, so a temporal column asked for in the Spark form is
refused with a `NotYetImplemented` error, and binary and interval columns are
unsupported columns, refused in the same way.
