# Euphonica

The logic of a music player that is a client of the Music Player Daemon, written in Rust and verified with
Verus. The functions of the library state in their contracts what they return and what they change, and
Verus proves it; what is taken for granted of other crates is said below.

## Layout

- `src/` is the library.
  - `client/` is the side of the protocol: which request follows which reply, how a lost connection is made
    anew, paging, the cache of the songs in the queue, mounts, stickers, dynamic playlists, and the copies of
    an album that are shown as one.
  - `common/` holds songs, albums, artists, genres, dates and stickers.
  - `library/` is what the user browses: lists, folders, the pages of albums, artists and genres.
  - `player/` follows the status that the server reports, and edits and shuffles the queue.
  - `window.rs`, `background.rs` and `preferences.rs` decide what the window, its background and the settings
    show.
  - `text.rs`, `phrases.rs`, `order.rs`, `decimals.rs` and `utils.rs` are what the others build on: strings,
    searching for phrases, sorting, decimal numbers.
- `tests/` runs the library on examples.
- `app/` is ordinary Rust around the library: threads and channels, files, images, the media controls of
  the desktop. It asks its host for settings, for a database and for the stream to the server.

## How it is stated

Data is modelled by sequences, options and integers; a type that hides its fields has a view. What takes
several exchanges with the server is a state machine: a `request` says what to ask next, and an `accept`
takes the reply. Properties that span several functions stand beside them as proof functions whose names
start with `law_`.

Calls into other crates stand in small functions marked `external_body`. The comment above each names the
function that it calls and says what is taken for granted of it.
