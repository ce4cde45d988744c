# url_uploader

A Telegram bot that downloads the file behind a link and uploads it back to the chat.
Send it a link in a private chat, or `/upload <link>` in a group; the user who started
an upload can stop it with the cancel button. Files must be non-empty and at most 2 GiB.

Layout:

- `src/` — the verified library (Verus):
  - `command.rs` — parsing of `/name@bot argument` commands;
  - `bot.rs` — what the bot does with a message, a command, a link, a button press;
  - `registry.rs` — the per-chat upload registry: one upload per chat, cancelled only by
    its starter;
  - `upload.rs` — the course of one upload, from the locked chat to the end that
    always unlocks it;
  - `file_info.rs` — file name, size and kind from a download's response;
  - `credentials.rs` — the credentials from the environment variables' values;
  - `text.rs` — character-level text operations (split, trim, prefixes);
  - `foreign.rs` — the trusted contracts of the calls into `url`/`reqwest`,
    `percent-encoding`, `mime_guess`, `dashmap`, `str::to_lowercase` and `str::parse::<i32>`.
- `app/` — the program: Telegram client, HTTP downloads, uploads, progress messages.
- `tests/` — tests of the library.
