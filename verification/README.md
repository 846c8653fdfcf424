# litdesk

The core of a local-first academic reading desk: a PDF is parsed into
Markdown by an outside service, split into segments, translated segment by
segment by a language model, classified by research paradigm and discipline,
digested field by field with paragraph citations, and exported as Markdown
or self-contained HTML.

- `src/` is the library, verified with Verus. Every public function states
  what it returns in its `ensures`; the `law_*` proof functions state
  properties that span calls (segment numbering, the shape of a recognition
  and of a field plan, resuming a translation, merging a secondary paradigm's fields, valid
  note names, ...).
- `tests/` runs the library on concrete inputs.
- `app/` is the application around it: the SQLite database, files on disk,
  HTTP requests to the parsing service and the model, background threads.
  It reads and writes; what a file or a reply means, and what to do next,
  is decided by calls into the library (the resume file of a translation
  is read and written by `library::done_from_resume` and `encode_resume`).

Modules of the library:

| module | what it holds |
| --- | --- |
| `text`, `html`, `base64`, `json` | character-level helpers, HTML escaping and inline styles, Base64, JSON values read through `serde_json` |
| `segment` | splitting Markdown into translation units (headings, tables, captions, references, tables of contents) |
| `translate` | error classification, figure references, prompts and the retry decisions of one segment |
| `lexicon`, `rank`, `paradigm` | keyword tables, stable ranking, paradigm and discipline recognition in fixed point |
| `fields`, `digest` | field plans per paradigm, context selection, prompts, reading answers, per-field decisions |
| `export`, `notes` | Markdown and HTML export, note names, renaming and find-and-replace |
| `library`, `mineru`, `stats`, `logging`, `error_code` | document checks, service replies, statistics, log lines, error codes |

Collections. Where a hash map or set would key by a `String` or by an enum
with derived `Eq`/`Hash`, the library keeps a vector instead, because
nothing about such a map can be proved from vstd's specifications: the
figure notes of a translation (`Translator::vision_notes`, first match
wins), the statistics (one entry per event, in the fixed event order), the
field names already in a plan (a list whose names are distinct, by
`law_field_plan_shape`) and the finished segments of a translation (latest
first).
