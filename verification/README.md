# model_gateway

The rules of a gateway that stands before several providers of language models:
Qoder, Raccoon, Trae, WorkBuddy and ZCode. It takes chat completion requests,
turns them into what each provider expects, and turns the answers back, in a
stream or at once. It also logs accounts in, renews their credentials, lists
their models and looks up what is left on them.

- `src/` is the library: parsing, translating, deciding and signing. Every
  function has a contract that Verus proves. What outside crates compute
  (digests, ciphers, encodings, URLs, JSON text and points in time) stands behind
  small wrappers, in `digest.rs`, `json.rs`, `text.rs`, `time.rs` and `urls.rs`,
  whose doc comments say what is believed of them.
- `app/` sends, reads, waits and keeps the accounts. It hands the library plain
  values and does what the library decides.
- `tests/` runs the library on concrete values.

What holds of several functions together is stated in public proof functions,
next to the code they are about or in a module of their own, such as
`providers/qoder/tag_laws.rs`.
