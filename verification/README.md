# setbuddy

The core of a player for long recordings: two-hour sets, mixes and albums that
are listened to in more than one sitting. What it is about is taking playback up
where it was left.

`src/` is the library. All of it is verified with Verus: the contracts say what
each function does, and the `*_laws` modules (and the `law_` functions beside the
code they speak of) say what holds across functions.

- `track`, `queue`, `shuffle`, `resume`, `timecode`, `number`, `fixed`,
  `binary`, `text`: the domain. Numbers that come from players and tags are kept to
  nine decimals, and shown as the 53 bits of a double would be.
- `store`, `table`, `library`, `probe`, `details`, `artwork`, `paths`: the index of
  media files, how it is filled, and where things lie.
- `engine`, `null`, `selection`, `ipc`, `mpv`, `mpv_model`: what plays a file.
- `player`, `player_model`: the player.
- `cli`, `commands`, `ffi`: how it is driven.

The library does no input or output. An operation that needs some is handed the
answers its host has given so far; it either comes to an end or asks for one thing
more, and leaves everything as it was until it comes to an end. `script` holds
that pattern.

`app/` is the host: the database, the disk, mpv's process and socket, the command
line, and the bindings for the app. The bindings are generated when it is built
with `--cfg bindings`.
