# rhymonic

A desktop music library and player. The crate's library (`src/`) holds the
player's logic with Verus contracts and proofs:

- `order`: the order of the song list (title, album, disc, track, path).
- `library`: searching, inserting into and building the sorted song list.
- `player`: the player state, its play queue and how it answers the window's
  messages and the audio backend's events.
- `model`, `tags`: songs, artists, genres and albums, and how a song is made
  from the primary tag of its file.
- `audio`: reading a song from the bytes of its file, parsed by lofty.
- `scan`: grouping imported songs into albums and crediting their artists.
- `digest`: file digests (four FNV-1a lanes) and album digests combined
  from song digests.
- `store`: the order in which a song and its links are written to the store.
- `text`, `ui`: the texts and decisions the window shows.
- `listener`: the decisions of the audio handler.

`app/` is the program around it: the iced window, the SQLite store (diesel),
reading files, scanning directories, and audio output (rodio, souvlaki). The
window's icons are loaded from a `resources` directory beside the program;
`extras/migrations` holds the store's SQL schema, which the program reads at
start.
