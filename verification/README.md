# ii_proj_rest_server

A small column-store database with a REST interface, written in Verus: the
storage formats, the metadata, the query manager and the REST models are
executable Rust with `requires`/`ensures` contracts proved by Verus.

Layout:

- `src/db/` — the database: column files (headers, integer and string
  batches, their encoders and incremental decoders), the metadata of tables
  and columns, the query store, the pool of workers, the manager that
  decides what happens to each request and report (`db_engine.rs`), and the
  work of a query worker that needs no I/O (CSV rows into batches, checks of
  COPY queries, the messages a worker sends back).
- `src/schemas/` — tables, columns, queries, results and errors as the
  database sees them.
- `src/rest_api/` — the REST models with their form-text encoding and
  parsing, the response enums with their status codes, and the routing of
  method and path to an operation.
- `src/file_format_prep/` — the first file format: column headers, the
  metadata file with a reader that takes the file in chunks of any size,
  and integer column data.
- `src/external/` — the calls into `regex`, `uuid`, `zstd` and a few `std`
  string functions, each behind a function whose contract states what the
  library relies on.
- `tests/` — tests of the library.
- `app/` — the server: HTTP routes (actix-web), files, CSV reading, and the
  tasks that carry out what the manager decides.
