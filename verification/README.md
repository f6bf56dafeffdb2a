# wx-ilink-bot

A message-handling service for WeChat iLink bots: it logs bot accounts in
by QR code, long-polls each account for messages, routes every message to a
command module (nicknames, to-do lists, echo, query, notify, Xiaohongshu
links, help), and answers through whichever account can reach the user. An
HTTP admin interface adds accounts, lists users and sends messages.

## Layout

- `src/` — the library, written in Verus and verified: the message parser,
  the router, the context-token, nickname and to-do stores, the long-poll and
  login decisions, account resolution, the protocol's requests, the command
  modules' answers, the admin interface's decisions, and the AES-128-ECB
  helpers. Every public function states what it returns in its contract;
  the properties that span several functions are proof functions
  (`lemma_…`).
- `tests/` — tests of the library on concrete values.
- `app/` — the program around the library: configuration from the
  environment, logging, HTTP (reqwest for the iLink API and the downloader
  service, axum for the admin interface), the state files, and the tasks
  that poll each account.

Configuration is read from `BOT_STATE_DIR`, `BOT_LOG_LEVEL`, `BOT_BASE_URL`,
`BOT_APP_ID`, `BOT_VERSION`, `BOT_HTTP_PORT`, `BOT_XHS_API_URL`,
`BOT_XHS_COOKIE`, `BOT_XHS_PROXY` and `BOT_XHS_TIMEOUT_MS` (or a `.env`
file).
