# shadow_player

The core of a desktop media player for course videos, audio and online
links, written in Verus. The library holds the player's decision logic (media
kinds, playlist and directory rules, download phases and arguments, file
renames, subtitle and transcript parsing, learning settings) as executable
functions whose contracts Verus proves. The SQLite transactions, process
and network I/O, playback devices and floating-point arithmetic stay
outside it.

## Layout

- `src/` – the verified library.
  - `media`, `capabilities`, `assets`, `library` – media identity, file kinds,
    sidecar subtitles and the library tree.
  - `probe`, `playback`, `audio`, `remux_cache` – the playback path chosen
    from a probe report, the controller that decides which playback request
    is current, the audio worker's decisions, and which cached remuxes are
    removed.
  - `playlist`, `directory`, `playlist_files` – navigation, rebuilding the
    playlist from the download directory, renaming and deleting files.
  - `download`, `download_options`, `downloader`, `online`, `proxy` –
    download tasks and their phase rules, format choices, the downloader's
    arguments and output, video sites and the stream proxy.
  - `subtitles`, `learning` – subtitle parsing, transcripts, learning
    settings, recordings and pronunciation evaluation.
  - `settings` – the general settings and their updates.
  - `text`, `digest`, `web`, `sys`, `toolchain` – text helpers, hashing and
    encodings, web addresses, host facilities and the bundled tools.
  - `laws` – properties that span several operations.
- `tests/` – tests of the library on concrete values.
- `app/` – a small command-line program around the library: it runs the
  bundled FFprobe, FFmpeg and yt-dlp, reads and writes files, keeps the
  SQLite store, and prints results.

Calls into outside crates (`url`, `subtp`, `roxmltree`, `sha2`, `hmac`,
`base64`, `serde_json`, `uuid`, `dunce`) go through small trusted wrappers
whose contracts are stated next to them; what a wrapper's contract does not
state is said in its doc comment.
Times and rates are binary64 values held by their bit patterns.
