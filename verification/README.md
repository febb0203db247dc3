# llm_mux

A gateway between three LLM APIs — OpenAI Chat Completions, OpenAI
Responses and Anthropic Messages — that converts requests, responses and
streamed events through one intermediate representation (IR), with
configurable routing, model-name mapping, API-key checks and relaying of
server-sent event streams.

The library under `src/` is verified with Verus:

- `json`, `text`, `seqs`: the JSON value model, string helpers and sequence
  lemmas; JSON text is read and written through `serde_json`.
- `types`, `ir`: content blocks and the intermediate representation, each
  with a view used by the contracts.
- `chat`, `messages`, `responses`: the three protocol codecs, with the
  accepted shapes and the conversions stated as spec functions.
- `wildcard`, `codec`: pattern matching, the codec/router/authenticator
  interfaces, and the configured router.
- `config`: defaults, `${VAR}` expansion, validation, the router a
  configuration builds, masking of secrets, process-id parsing.
- `gateway`, `sse`: what a request becomes (auth, decode, route, re-encode),
  what the client gets back, and the line-by-line relay of event streams.

`app/` holds the command-line program and the HTTP server (axum, reqwest,
tokio), which perform the I/O and call the library for every decision.

Upstream calls go over HTTP to each provider's own API, with the request
written by the library's codecs. A provider's `base_url` may end in `/v1`
or not: the endpoint path (`/v1/chat/completions`, `/v1/messages`,
`/v1/responses`) is added after the base without that suffix. There is no
second path that goes through a multi-provider client library: requests
are always converted by these codecs and sent as plain HTTP.
