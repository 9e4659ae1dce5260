# mko_core

The decisions of a personal knowledge base, written in Verus: which PDF may be registered,
what a prepared bundle must hold, when a note or an approval stands, who may hold a lock,
and which error answers every refusal. Each public function has a contract over
mathematical views of its data, and the promises that span functions are proof functions
beside them.

- `src/` is the library. It does no input or output: it is handed what was seen and says
  what it means or what is done next. Locks, publications and imports are step machines.
- `app/` runs those steps on files, processes and a terminal, and holds the copies of the
  records that are written as JSON and YAML.
- `tests/` runs the library on concrete values.

`src/error.rs`, `src/text.rs`, `src/order.rs`, `src/unicode.rs`, `src/digest.rs`,
`src/paths.rs` and `src/local_path.rs` hold what the other modules share. A path of the
machine comes in as its steps, so that the rules on it hold on every machine. What is
believed of outside crates stands in `unicode.rs`, `digest.rs`, `clock.rs`, `json_text.rs`,
`lock.rs` and `text.rs`, each with a comment that says what is claimed.
