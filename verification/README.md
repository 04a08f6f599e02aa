# Petsona core

The platform-neutral core of Petsona, a desktop pet that greets and chats
through a language model, written in Verus: Verus proves the contract of
every function in `src/` except a few trusted wrappers around outside calls,
whose contracts are believed:

- `memory::now_ms` (the system clock) and `memory::new_id`
  (`uuid::Uuid::new_v4`), which promise nothing about their results;
- `text::string_from_chars` (std `collect::<String>`) and
  `persona::lowercase` (`str::to_lowercase`, named `unicode_lowercase`);
- `deepseek::models_payload_of` and `deepseek::completion_content_of`
  (`serde_json` parsing, named `models_payload_ids` and
  `completion_content`).

The `SecretStore` trait is for credential stores to implement; its
contracts hold of `MemorySecretStore` by proof, and of other stores by
their authors' word.

## Layout

- `src/` — the verified library:
  - `text` — character-level string operations with their mathematical meaning;
  - `geometry` — window rectangles, work areas, monitor choice and the
    conversation input's rows;
  - `interaction` — single and double clicks, when a greeting may start, the
    click greeting's local fallback;
  - `memory`, `memory_laws`, `preference` — the per-persona memory (facts and
    events), its invariants, and preference extraction from user messages;
  - `persona` — personas, templates, validation and the persona store;
  - `deepseek` — provider credential slots, key resolution, prompts, request
    details, reply cleaning and the model catalog;
  - `runtime`, `engine`, `string_map` — settings and their sanitising, the
    idle-greeting rule, and the runtime state machine driven by commands;
  - `ffi` — the native command protocol and text projection codes;
  - `autostart`, `platform` — launch-at-login data and platform host decisions.
- `tests/` — tests run against the compiled library.
- `app/` — the unverified host around the library: files, JSON, the C ABI
  surface and the worker's outside half.
