# music_player

A terminal music player whose logic is a verified library.

- `src/list_state.rs` — selection and scroll position of an on-screen list.
- `src/controls.rs` — the key bindings of the event loop.
- `src/app.rs` — the two-pane player (albums, tracks): navigation, the chosen
  track, and the play / pause / load decision.
- `src/app/library.rs` — the music library: album directories and the catalog
  of artists, albums and songs built from the tags of MP3 files, with its
  consistency invariant.
- `src/app/app.rs` — the three-pane player (artists, albums, songs).
- `src/app/audio_player.rs` — the commands the audio output carries out.
- `app/` — the program: reading `./music` and the tags from disk, drawing with
  ratatui, reading keys with crossterm, and playing audio with rodio.
