# matrix_bridge

The decision logic of a generic, bidirectional Matrix bridge, verified with
Verus. External services post messages over HTTP and receive Matrix messages
through webhooks or WebSocket subscriptions; the bridge speaks to the
homeserver as an application service, with puppet users of the form
`@{prefix}_{platform}_{id}:{domain}`.

## Layout

- `src/` — the verified library. Every function carries a contract over
  spec functions and views; calls into outside crates (`url`, `urlencoding`,
  `subtle`, `aes`/`ctr`, `sha2`, `base64`, `getrandom`, `ammonia`, `ulid`,
  `indexmap`) stand behind small trusted wrappers whose contracts say what
  each crate documents.
  - `text`, `sorted` — string helpers and their lemmas.
  - `config`, `registration`, `platform` — configuration checks, permission
    levels, appservice registration, puppet user IDs.
  - `message`, `matrix_content`, `platform_events` — the bridge message model
    and its conversion to and from Matrix event content.
  - `dispatch`, `bridge`, `crypto_ids` — routing of homeserver events,
    fan-out plans, bot and bridge commands and their replies.
  - `api`, `error`, `transactions` — request validation of the HTTP API,
    errors and retries, transaction de-duplication.
  - `auth`, `net`, `webhook`, `ws` — token checks, SSRF protection, webhook
    URL policy, WebSocket parameters and the subscriber table.
  - `media`, `media_flow`, `attachment` — file names, upload and re-upload
    plans, encrypted attachments.
  - `laws` — properties of the bridge as a whole.
- `tests/` — tests of the library on concrete values.
- `app/` — the unverified shell: HTTP and WebSocket plumbing, JSON, the
  homeserver client and storage interfaces, which call into the library for
  every decision.
