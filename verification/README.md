# wake

Wake reads the session histories and memory files that coding agents leave on a machine and shows
them in one place. This crate holds what it decides; `app/` holds what touches the machine.

## Layout

- `src/text.rs`, `src/order.rs`, `src/paths.rs`, `src/json.rs`: texts, orders and a stable sort,
  paths as POSIX systems and Windows read them, JSON documents.
- `src/models.rs`: the records that pass between the parts.
- `src/adapters/`: how two agents keep their sessions.
  - For sessions in JSONL files, one module folds the rows of a transcript into a draft, one makes the
    transcript of it, one finds the project that a directory is named after, one is the adapter, and
    one states what holds of all transcripts.
  - `sqlite_ro.rs` opens the databases of other programs without writing to them, `mtime_cache.rs`
    keeps what was read, `zcode.rs` and `zcode_parse.rs` are the adapter for sessions in a database,
    `zcode_laws.rs` states what holds of it.
- `src/index_lock.rs`: which process may write the index.
- `src/ui.rs`, `src/settings/`, `src/memory/`: what the settings window and the memory page show, and
  what a click does. Words are given by the key under which they are translated.
- `app/`: files, databases, threads and the clock, handed to the library as plain values.

## Contracts

Every function says in its `ensures` what it gives back, over the views of its arguments. Where a
step needs the machine, the library asks (`DecodeAsk`, `OpenAsk`, `TakeStep`, `ReloadStep`) and is
told the answer, so that what it does is proved for every answer. Properties that span functions are
stated and proved as `law_…` functions.

What is believed of other code stands in few places: `String::push`, `char::is_whitespace` and
`str::to_lowercase` in `text.rs`, `serde_json::from_str` in `json.rs`, and `sha2::Sha256::digest` in
`adapters/zcode.rs`.
