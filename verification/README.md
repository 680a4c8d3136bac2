# exam-calendar

Exam calendars as JSON files and in a SQLite database, rendered to iCalendar files, with an
editor in the browser that can extract events from official notices.

`src/` is a library verified with Verus. It holds the rules and the formats:

- `model`: calendars, events, sources, and their mathematical models
- `text`, `dates`, `json`: texts, days and points in time (read and written by chrono), and the
  JSON texts inside the database (read and written by serde_json)
- `validate`: the rules for calendars, each with its message
- `fold`, `render`: escaping, line folding and the iCalendar rendering
- `files`, `generate`: names and contents of calendar files, and what is generated from the
  files of a directory
- `rows`, `store`, `tables`: the rows of the database, the queries and statements of the store,
  and a model of the tables with the laws of saving and loading
- `dotenv`, `html`, `server`: settings, the visible text of a page (by scraper), and what the
  editor's server decides

Functions whose names end in `_read` take what chrono or serde_json read as an argument, so that
their contracts do not depend on either.

`app/` is the program around the library: the command line, files, SQLite, HTTP and the JSON
forms of the library's types. `tests/` runs the library, the store against an in-memory database.

    exam-calendar generate [input-dir] [output-dir]
    exam-calendar serve [addr]
