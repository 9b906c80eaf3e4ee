# statement_pdf

Generates statement PDFs from structured statement data, and serves them over
HTTP.

- `src/` is the verified library (Verus). It checks a statement
  (`validation`), turns it into the view that the document template reads and
  collects the images the document embeds (`model`, `render`, `assets`),
  formats dates (`calendar`), reads paths the way `std::path` does on Unix
  (`paths`), and decides the file names, download paths and error replies of
  the web service (`service`).
- `app/` holds the programs: the command line generator, the API and backend
  servers, the static front end, JSON (de)serialisation and the Typst compiler.
- `tests/` runs the library on concrete values.
