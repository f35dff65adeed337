# focus_chat

The logic of the Focus chat application, verified with Verus.

- `src/db/schema.rs` — chat, message and author records; default chat names; conversions for the user interface.
- `src/db/client.rs` — record keys of chats, reading query rows, author names, and the flows of the chat
  store's calls (`GetDb`, `InitDatabase`, `CreateChat`, `AddMessage`) as state machines: the caller makes
  each call and hands back what it gave.
- `src/db_schema.rs` — conversations and messages as the SpacetimeDB reducers keep them: the tables, their
  invariant (unique keys, messages refer to stored conversations, per-conversation numbering), the reducers,
  and laws about them.
- `src/db_client.rs` — the simulated SpacetimeDB client.
- `src/model_manager.rs` — where the model lives, and the model id check.
- `src/llm.rs` — the answer of the chat command.
- `src/json.rs`, `src/text.rs`, `src/ids.rs` — JSON values, string helpers, fresh UUIDs.
- `app/` — the Tauri commands, the database and file I/O, and the serde copies of the record types.
