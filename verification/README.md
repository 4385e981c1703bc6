# fablr_core

The rules of the Fablr studio as a Verus library, and the desktop application
around it.

- `src/` is the verified library.
  - `db`, `rows`, `table`: the project store and what every operation keeps of it.
  - `project`, `intent`, `json`, `error`: what the user interface creates, lists,
    loads, saves and deletes.
  - `calendar`, `clock`, `ids`, `text`: dates, the time, project ids, numerals.
  - `storyline`, `document`, `analysis`: the analysis of a production, stage by
    stage, up to its storyline, and the storyline as JSON.
  - `speech`: batches of speech and the keys of the cache.
  - `translate`: the request to the translation service and its answer.
  - `fixtures`: rows to try out a store.
- `tests/` runs the library on given values.
- `app/` holds what touches files, processes, events and floating point.

Numbers with a fraction are carried through the library as their bit patterns.
The intent of a project is read from its JSON text by a function that the
application hands to the project service.
The functions whose contracts are believed and not proved stand in `clock`,
`json`, `text` and `translate`; each says what it claims of the function that it
stands for.
