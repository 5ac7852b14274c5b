# channel_bot

A Telegram bot that sells access to channels: subscriptions that are paid through Crypto
Pay, a ledger of payments, reminders and bans when a subscription ends, a panel for
administrators, catalogs of chats, and copying messages between chats.

`src/` is a library verified with Verus. It says whom the bot answers and how, what it
keeps, and what follows when something that it tried succeeds or fails, as functions from
plain values to plain values:

- `text`, `numbers`, `sorting`, `json`, `dates`, `links`: the ground that the rest stands on;
- `state`: the state file; `free_users`: who has free access;
- `payments`, `subscribers`, `ledger`, `pruning`, `reminders`, `checks`: invoices,
  subscriptions and their end;
- `keyboard`, `paging`, `export`, `catalog`, `catalog_folders`, `listing`, `selection`:
  what is shown and its pages;
- `channels`: lists of channels as text;
- `admin`, `bot`, `callbacks`, `greeting`, `actions`: what a message or a button press
  leads to, as a plan of actions;
- `history`, `user_forward`, `sync_history`: which messages are copied, in which order.

`app/` is the program: it reads and writes files, talks to Telegram, the payment service
and the database, and carries the plans out in order. What is read from the database, and
how the replies of the payment service are taken apart, is its own. `tests/` runs the
library.

`takecell` is used by `teloxide` alone. `Cargo.toml` names it to hold it to a version that
builds with the Rust release that the package declares.
