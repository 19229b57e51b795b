# Snowclaw

The decision core of a Nostr-native agent, verified with Verus, and the program around it.

- `src/` is the library. It holds what the agent decides: which events it hears and answers and in
  which mode, who may change its settings, what it remembers of people, groups, messages and
  documents and who may see it, how memories are shared and read back, what the tools and the
  commands of the command line say, and what the use of models cost. Every function states its
  behaviour in a contract.
- `app/` is ordinary Rust: relays, SQLite databases, processes, files and the terminal. It reads
  and writes; the decisions it takes are calls into the library.
  Built in are only the prices of GPT-4, o1, Gemini and DeepSeek models. Those of all others are
  read from `state/prices.json` of the workspace: a list of objects with `prefix`, `input` and
  `output` (dollars for a million tokens), and `without` where names that hold a text are left out.
  The use of a model without a price is recorded at no cost.
- `tests/` runs the library with its outside crates.

Texts are sequences of characters in the contracts, keys are 64 lower-case hex digits, and amounts
and scores that are floating-point numbers outside are held as their bits. What comes from outside
crates (bech32 texts, sealed payloads, JSON, dates, digests, full-text search, the LRU cache) is
called through small functions marked `external_body`, whose doc comments say what is taken on
trust.
