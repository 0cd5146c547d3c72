# hello_actix

A small HTTP service that records traces of SQL statements: a client posts a
JSON array of statements, each with the code places that led to it, and the
service stores them in the `trace_sqls` and `trace_sql_files` tables,
answering with the app and sql uuids under which they were stored.

Layout:

- `src/` is the library, verified with Verus.
  - `config.rs`: the settings, read from `API_HOST`, `API_PORT`,
    `DATABASE_URL` and `POOL_SIZE`, with their defaults.
  - `models/`: the table rows, the `Timestamp` of their `created_at`
    columns, the choice of uuids and the length limits of the columns.
  - `services/trace.rs`: a reported batch turned into rows, with the
    statement order kept, one app uuid for the whole batch, and the
    distinct uuids reported back.
  - `services/users.rs`: the rows of a batch insert of users.
  - `text.rs`: decimal and hexadecimal text, with parsing of `u32`.
  - `lib.rs`: random uuids as 32 hexadecimal characters and the JSON body of
    error responses.
- `tests/`: tests of the library.
- `app/`: the service itself: environment, actix-web routes, the diesel
  schema and the MySQL transactions, which call the library for the logic.
