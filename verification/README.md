# tg_adapter

The Telegram adapter of the Shinobu bot framework, as a verified library.

`src/` holds the adapter's logic, written and proved with Verus:

- `commands` — which command names Telegram accepts, the menus shown to
  everyone and to admins, and what a command sync pushes.
- `config`, `state` — the configuration (bot token, API URL, admins) and the
  state shared by the plugin lifecycle and the adapter.
- `telegram`, `convert` — an incoming update as plain values, and its
  conversion into a framework event.
- `event` — the framework's event vocabulary that the adapter reads and makes.
- `outgoing` — gathering text, merging captions, preparing uploads, planning
  the requests that send, edit or delete a message.
- `dispatcher` — whether and how the dispatcher starts, and its reconnection
  backoff.
- `decimal`, `text` — integer rendering and parsing, and string operations,
  with the meaning of their `std` counterparts.
- `external` — the calls into `std`, `url` and `base64` whose contracts are
  trusted.

`app/` is the plugin around it: it reads the configuration file, talks to the
Telegram API through `teloxide`, runs the async tasks and converts between the
framework's types and the library's.
