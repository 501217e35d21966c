# uriel

The verified core of Uriel, a Discord bot that files messages into an
Obsidian-style vault: it classifies each message with Gemini, links the
entities it names, stores attachments, appends to a daily log, answers
questions from a vault search or a link crawl, and posts a weekly digest.

- `src/` — the library, verified with Verus: text and JSON models, the
  Gemini request/reply shapes, attachment naming and download limits, daily
  log names, the digest, the entity index, the retrieval reports, and the
  decisions of the message handler. Calls into `chrono`, `regex` and
  `base64` stand behind small trusted wrappers whose contracts are stated
  next to them, and so do four items of std that vstd gives no
  specification: `str::parse::<u64>`, the `Debug` rendering of a string,
  `Path::file_name` and `String::push`.
- `app/` — the bot itself: Discord (serenity), HTTP (reqwest), the orichalcum
  flows, the file system and the clock, all driving the library.
- `tests/` — tests of the library on concrete values.
