DROP TABLE playlist_song;
DROP TABLE playlists;
DROP TABLE song_genre;
DROP TABLE song_artist;
DROP TABLE album_artist;
DROP TABLE songs;
DROP TABLE genres;
DROP TABLE artists;
DROP TABLE albums;
