# chloe_bot

The core of a Twitch chat bot, written in Verus and verified.

- `src/text.rs` — character-level text handling (splitting, trimming, searching,
  decimal integers) specified over `Seq<char>`.
- `src/websocket/message_parser.rs` — the IRC line parser; its contract is the spec
  function `parse_spec`.
- `src/websocket/moderation.rs` — the blacklist filter.
- `src/websocket/{client,init,bot_commands_parser}.rs` — reconnection backoff, login
  lines, join pacing, replies to pings and to `!ping`.
- `src/commands/modules.rs` — the registry of channels and their commands, with
  cooldowns.
- `src/webserver/...` — the OAuth login: `state` generation, token request form, and
  the login route as a state machine.
- `app/` — the program around the library: sockets, the database, the web server and
  the console.
