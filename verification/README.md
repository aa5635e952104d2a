# pastebin

The verified core of a paste-sharing service made of three programs: an
id-generation service that hands out base-62 identifiers from chunks of the
identifier space, a worker that queues identifiers and tokens, and the paste
server itself.

- `src/` is the library, verified with Verus:
  - `chunks`: the identifier space, its split into chunks (`init`) and the
    move of a chunk to longer identifiers (`upgrade_chunk`);
  - `decimal`, `ids`: decimal parsing of identifiers, the `PUT /id/{id}`
    decision and the answer of the id-generation service;
  - `config`, `helpers`: the server's settings, bcrypt hash checks and the
    token length check;
  - `api`, `handlers`, `models`, `view_model`: request bodies, the checks of
    a paste request and what reading a paste leads to;
  - `schema`: the statements of a schema script.
- `app/` holds the I/O around it: files, environment, database, HTTP and
  serde copies of the library's types.
- `tests/` runs the library on concrete values.
