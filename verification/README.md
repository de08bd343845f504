# winplayer

A desktop music player whose core is verified with Verus.

- `src/` is the verified library: the song model and its sort orders, the
  music library (scan results, folder refresh, removal, version counter),
  the play queue and its repeat/shuffle rules, the playback controller's
  decisions, the audio engine's decisions, channel mapping and position
  arithmetic, the delete protocol, the folder-renumbering plan and the order
  of its renames, and the state behind the screens (search, paging,
  grouping, caches, toasts). Every public function carries a contract (but
  `platform_uses_backslash`, which reports a fact of the machine); the laws
  that span functions are public proof functions next to the code they
  speak of.
- `app/` is the program around it: the window (egui), the output device
  (cpal), decoding (symphonia, rubato), the equalizer (biquad), reading tags
  (lofty), walking folders (walkdir), settings and the last-played record on
  disk (serde, toml, directories), threads and channels.
- `tests/` runs the library on concrete values.

## Collections

The album, artist and folder lists count songs per name, and a library scan
drops a second song with a path already seen. Both are keyed by text. vstd
specifies `HashMap`, `HashSet` and `BTreeMap` usefully only for keys whose
hashing and ordering it models (integers and the like); with `String` keys
the calls verify but nothing about their contents can be proved. So the
library keeps these as `Vec`s and states what the map or set gave as their
invariant: `group_counts` (and `group_folders`) keep distinct names in
ascending order with their counts, and `add_unique` / `extend_unique` keep
the first song of each path, in order.

Folders are compared as `std::path::Path` compares them, component by
component (`path_order`): each folder gets a text key whose order and
equality are those of its components (`lemma_path_key_order`), and the
folder list is grouped and ordered by that key.
