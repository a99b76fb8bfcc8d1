# madalya

A library of game clips: it scans a folder of videos, probes and thumbnails
them, lets user scripts (Rhai) derive games, metadata, tags and a default
audio mix, and keeps what the user adds (favorites, manual tags, highlight
marks, per-track mixer settings) across rescans.

`src/` is the verified core, proved with Verus:

- `store`: what a rescan keeps and replaces in a stored clip record.
- `scan`: planning a scan against the stored fingerprints, script change
  detection, default mixer states, assembling scanned clips.
- `library`: the in-memory clip list (newest first) and its edits.
- `filter`: title search, game, required/excluded tags, date range, and the
  filter panel's chips.
- `keybinds`: bindings, their text and display forms, matching key and mouse
  presses, editing the list.
- `session`: what key and mouse presses do in the main window, selection,
  settings, hover previews.
- `player`: playback decisions (start, seek, highlight stop and loop).
- `viewer`, `marks`: the full-screen view: audio-mix preparation, track
  and text edits, highlight marks, timeline scrubbing.
- `picker`: the action picker of the settings.
- `config`, `logs`, `fingerprint`, `clock`, `media`, `steam`, `script`,
  `model`, `paths`, `text`: settings, log pruning, cache file names, time
  formatting, pixel and track helpers, the Steam store request, script
  results, the clip record, paths and text utilities.

`app/` is the program around it: settings file, logging, the SQLite store,
the scanner, the script engine, the Steam lookup and the GStreamer media
code. `tests/` exercises the library.
