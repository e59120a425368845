# Folio

A terminal UI for searching arXiv and importing papers into an Obsidian vault
as markdown notes, with its logic verified by Verus.

## Layout

- `src/` — the verified library (crate `folio`):
  - `text.rs` — character classes, trimming, white-space normalisation,
    searching and building strings, each against a spec over `Seq<char>`.
  - `fetch.rs` — the `Paper` model, the arXiv search URL, and reading papers
    out of an Atom feed (parsed by `roxmltree`).
  - `obsidian.rs` — slugs, note file names, choosing a free file slot, and the
    inbox log, with laws on slugs and on the inbox.
  - `config.rs` — the configuration, the built-in topics, and the decisions of
    the folder browser used during setup.
  - `templates.rs` — the context a note is rendered with (`tera`).
  - `app.rs` — the application state and `reduce`, the reducer every event
    goes through, specified as a function of the state's value, with its
    invariant and laws.
  - `ui.rs` — what the screens say.
- `app/` — the terminal program: arguments, config files, onboarding prompts,
  the event loop, HTTP, file writes and drawing. It makes no decision of its
  own; it asks the library.
- `tests/` — tests of the library on concrete values.

## Notes on choices

- Keys follow the README's table where it and the original code part ways:
  `e` edits the query as `/` does, and `p` previews the highlighted paper
  (scrolls its preview to the top). Paging back, which `p` used to do, is on
  the left arrow; `n` still pages forward.
- The selection is a `Vec<String>` with the invariant that no id occurs
  twice, and the page cache a `Vec<CachedPage>` with the invariant that no
  (query, offset) key occurs twice. Both are keyed by strings; the std hash
  collections keyed by `String` give the verifier no account of their
  contents to prove these invariants against, so vectors hold them.
- Rendering a note runs the user's template, which can recurse without end;
  the library builds the engine and the context, and the front end runs the
  template and hands the results back as an event.
