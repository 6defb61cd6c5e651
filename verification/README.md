# tank_core

The core of the `tank` data layer: SQL values and their conversions, time
intervals, expressions, and the writer that renders `CREATE`, `DROP`,
`SELECT`, `INSERT` and `DELETE` statements for an entity's table. Every
function in `src/` carries a contract proved with Verus, except the trusted
wrappers (marked `#[verifier::external_body]`) around calls into `itoa`,
`atoi`, `hex`, `regex`, `rust_decimal`, `time`, `uuid` and the standard
library, whose contracts state what those calls do and are not proved.

Layout:

- `src/` — the library. `value`, `value_hash`, `interval`, `as_value*` and `parse*` model
  values and read them from text; `expression*`, `sql_writer`, `ddl_writer`,
  `dml_writer` and `insert_writer` write SQL; `entity`, `query`, `statement`
  and `metadata` describe tables, rows and statements; `laws` gathers
  properties that span several writers.
- `app/` — what stays outside the proofs: the asynchronous driver and
  executor traits that run the written statements, token generation for
  derive macros, and conversions from `time`, `uuid`, `rust_decimal`, `syn`
  and floating point values.
- `tests/` — tests of the library on concrete values.
