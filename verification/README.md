# rustoki

Rustoki is a Discord bot: it relays users' direct messages to a channel of its
home server, keeps an up-vote board, gives birthday and colour roles, bans the
authors of messages in spam-trap channels, and offers an admin shell (`<!`)
and a set of slash commands.

The crate is split in two.

- `src/` is the verified library (Verus). It holds the decisions and texts of
  the bot, each with a contract: which events it acts on, reading shell
  commands and embed flags, the `resp` sub-commands, the DM relay's pairing
  and button numbering, the
  up-board counts and pins, the first start on a ready event, birthday answers
  and the daily plan, bulk deletion ranges and batches, colour roles, traps,
  and the reports of the inspection commands.
  Calls into `chrono`, `deunicode`, `image`, `serde_json` and `shell-words`
  stand behind small trusted wrappers whose contracts name what they return.
- `app/` is the program around it: the Discord client (`serenity`), the
  databases (`sqlx`), HTTP downloads (`reqwest`) and the background tasks. It
  asks the library what to do and carries it out.

`tests/` runs the library on concrete values, including the laws stated in
`src/` as proof functions.
