# wptui

The core of a terminal WhatsApp client, written in Verus. The functions
under `src/` are verified against their contracts; the few that call an
outside crate or std directly (marked `#[verifier::external_body]`) have
contracts that are trusted rather than proved, and the one that polls the
download channels states nothing of what other threads send back.

- `src/` — the library: key routing (`keys`, `input_mapping`,
  `input_router`, `terminal`, `dispatch`), panes and menus (`actions`,
  `lifecycle`, `leader_menu`, `contextual_actions`, `contextual_activation`,
  `logout`), the chat list (`chat_ordering`, `community`, `projection`,
  `navigation`, `chat_list`, `contacts`), read state and loading (`read_state`,
  `text_order`, `hydration`, `store`), the composer (`composer`, `mentions`), media (`events`, `viewer`,
  `media_cache`, `download`) and avatars (`avatars`, `avatar_window`,
  `avatar_worker`, `avatar_cache`).
- `tests/` — tests of the library on concrete values.
- `app/` — what runs around it: the download worker thread, files on disk
  and the log panel.
