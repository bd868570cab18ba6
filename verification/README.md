# gatekeeper

A Discord bot that gates newcomers: moderators react to a newcomer's message
in the verify channel to accept them, reject them, or move them into a
private quarantine channel to talk first.

`src/` is the verified library:

- `text` — decimal numerals, Discord mention syntax, and reading ids back
  from command arguments (with the round-trip laws).
- `permissions` — permission bit sets.
- `config::server` — the per-server configuration and the table of all
  servers (read-after-write and quarantine laws); `client_data` — the
  configuration of an earlier layout.
- `verify` — what accepting, rejecting and quarantining a newcomer does.
- `handler` — which reactions count, and what each one asks for.
- `commands` — the configuration commands and the unverified-member roster.
- `setup` — the configuration the bot starts with.

`app/` is the bot itself: the connection to Discord, the event handler and
commands, which carry out what the library decides.
