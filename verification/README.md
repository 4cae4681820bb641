# taskboard

The service behind a local task board: projects, tasks with relations, comments
and attachments, saved workflows, and conversations with the Codex command line
tool, kept in a SQLite file and offered over HTTP on the loopback address.

## Layout

- `src/` is the library. It holds everything that decides or computes. Its
  functions are verified by Verus against the contracts in their headers, except
  for the trusted ones listed below.
  - `request`, `routes`, `pages`, `responses`: what a request says, where it
    leads, which file of the page it means, and the bytes that answer it.
  - `service`: how a request that needs the store is served.
  - `projects`, `tasks`, `task_edits`, `relations`, `comments`: the board.
  - `ai_models`, `ai_threads`, `ai_runs`, `ai_turns`, `codex`: the conversations.
  - `runtime`: where the page and the data are found, when the service counts as
    healthy, and how it is started.
  - `exchange`, `store`, `rows`, `schema`: how the library speaks to the store.
  - `json`, `fields`, `ids`, `encoding`, `text`: values.
  - `progress`: that every request comes to an end, and that reading changes
    nothing.
  - `history`: what becomes of a store in the course of a request, and which
    replies a store can give.
  - `board`: a model of the tasks in the store. On it rest `numbering` (a new task
    is stored and shown as it was sent, under a number that is never used again),
    `editing` (an update sets what it names and leaves the rest alone),
    `archiving` (restoring undoes archiving), `moving` (a task is moved or deleted,
    and nothing else), and `parents` with `lineage` (a task has one parent at a
    time, and the parents stay a forest).
  - `talks`: a model of the threads and runs in the store. On it rests
    `active_runs` (a thread has at most one running run, and shows it).
  - `contents`: a model of the attachments, and that the content of one is what was
    sent.
  - `showing`: that a task shows every column of its row. `reports`: what the
    reports of a whole turn come to. `health`: that the service passes the
    launcher's own check.
- `app/` is what surrounds it: sockets, files, the SQLite connection, and the
  Codex process.
- `tests/` runs the library, the store tests with a SQLite database in memory.

## How a request is served

The library does no input or output. A handler is a function of the request and
of the replies received so far. It returns its result, or an error that is one of
three steps: ask for an action, answer at once, or fail with a message. `app/`
performs the action, appends the reply and calls the handler again. A contract
therefore fixes the actions, their order, each statement with its parameters,
and the answer, for every course that the replies can take.

Laws that span several functions are public proof functions whose names begin
with `law_`. A law on the store speaks of a model of a part of it: the module says
in spec functions what each statement of the library makes of the model, and which
replies the model can give to an action. The law then holds of every course of
replies that the model can give. That SQLite behaves as the models say is not
proved; the store tests run the same requests against SQLite and compare its
tables.

## What is trusted

Verus takes the contracts of these functions on trust, because they call code
that it does not read. Each says in its doc comment what it claims of that code.

- `json`: `from_serde`, `to_serde`, `read_document` and `write_document` call
  serde_json, whose `Value` is declared as an opaque type.
- `encoding`: `write_base64` and `read_base64` call base64.
- `ids`: `random_uuid` calls uuid.
- `ai_models`: `read_toml_text` calls toml.
- `text`: `text_from_bytes`, `lossy_text_from_bytes` and the specification of
  `String::push` are about the standard library.
- `pages`: `path_components` calls `std::path::Path::components`.
