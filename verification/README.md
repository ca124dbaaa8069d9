# goose_services

The decision logic behind goose's OpenAI-compatible media services (vision, speech,
transcription, embeddings, image generation), written in Verus and proved against its
contracts.

- `src/` — the verified library.
  - `services.rs`: service kinds, their configuration keys, the configured provider and
    model of each service, and the media tools that the configuration makes available.
  - `endpoint.rs`: base-URL handling (endpoint suffixes, OpenRouter normalization, splitting
    a URL into host, query and version), custom headers, and resolving a provider name to an
    endpoint.
  - `client.rs`: request plans (host, path, authentication, headers, timeout), failure
    messages, image typing and base64 handling, and reading service replies.
  - `media.rs`: media tool names, image paths and types, size limits and output rules.
  - `config.rs`, `table.rs`: the configuration the services read, as string maps.
  - `text.rs`: character-sequence specifications and scanning helpers.
  - `laws.rs`: properties that relate the functions above.
- `tests/`: tests on concrete values.
- `app/`: HTTP, file and environment plumbing around the library (type-checked only).
