# nationbot

The rules of a Discord bot for a nation role-play server, as a Verus library.

`src/` holds what the bot decides, with contracts proved by Verus:

- `automod`: the banned-word lists (global, `*`, per user), the test a message
  must pass, and `!addword` / `!removeword`.
- `tracker`: the users whose messages are deleted (forever or until a time),
  time arguments such as `5m` or `*`, and `!deletesentmessages` /
  `!undeletesentmessages`.
- `ignore`: the users the bot does not answer, `!ignore` / `!unignore`.
- `economy`: `!give`, `!remove`, `!addgdp`, and the steps of `!pay`.
- `members`: the member list (user ids per country) and the country lookup.
- `reactions`: the rate limit on the watched user's flag reactions.
- `schedule`: the wait until the next noon (daily income and market update).
- `dispatch`: the gates a message passes (bots, automod, tracker, ignore list) and the command router.
- `commands`: `!rng`, `!weather`, `!save`, `!savearsenal`, `!demote`,
  `!ticket`, `!close`, and the automod timeout.
- `text`, `numbers`, `words`, `keyed`, `target`, `perms`: the character-level
  text operations, decimal numbers, word lists, text-keyed tables, target
  resolution and the fixed user ids.

`app/` is the bot itself: Discord (serenity), Postgres (sqlx), the JSON files
(serde), the downloads (reqwest) and the floating-point market prices.
