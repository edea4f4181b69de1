CREATE TABLE albums (
    album_id INTEGER PRIMARY KEY NOT NULL,
    name TEXT NOT NULL,
    hash BLOB NOT NULL
);

CREATE TABLE artists (
    artist_id INTEGER PRIMARY KEY NOT NULL,
    name TEXT NOT NULL UNIQUE
);

CREATE TABLE genres (
    genre_id INTEGER PRIMARY KEY NOT NULL,
    name TEXT NOT NULL UNIQUE
);

CREATE TABLE songs (
    song_id INTEGER PRIMARY KEY NOT NULL,
    title TEXT NOT NULL,
    track_number INTEGER NOT NULL,
    length INTEGER NOT NULL,
    path BLOB NOT NULL,
    hash BLOB NOT NULL,
    disc_number INTEGER NOT NULL,
    album_id INTEGER NOT NULL REFERENCES albums(album_id)
);

CREATE TABLE album_artist (
    album_id INTEGER NOT NULL REFERENCES albums(album_id),
    artist_id INTEGER NOT NULL REFERENCES artists(artist_id),
    PRIMARY KEY (album_id, artist_id)
);

CREATE TABLE song_artist (
    artist_id INTEGER NOT NULL REFERENCES artists(artist_id),
    song_id INTEGER NOT NULL REFERENCES songs(song_id),
    PRIMARY KEY (artist_id, song_id)
);

CREATE TABLE song_genre (
    genre_id INTEGER NOT NULL REFERENCES genres(genre_id),
    song_id INTEGER NOT NULL REFERENCES songs(song_id),
    PRIMARY KEY (genre_id, song_id)
);

CREATE TABLE playlists (
    playlist_id INTEGER PRIMARY KEY NOT NULL,
    name TEXT NOT NULL
);

CREATE TABLE playlist_song (
    rowid INTEGER PRIMARY KEY NOT NULL,
    playlist_id INTEGER NOT NULL REFERENCES playlists(playlist_id),
    song_id INTEGER NOT NULL REFERENCES songs(song_id)
);
