# opendeck_m3

An OpenDeck device plugin for the MagTran M3 family (15 keys in a 3x5 grid, three
encoders, an 854x480 panel behind the keys), written as a verified library with a
thin executable around it.

## Layout

- `src/` — the verified library.
  - `layout`: key grid, hardware-to-OpenDeck key mapping (a proved bijection), models.
  - `inputs`: decoding of raw HID reports into key and encoder events, with the
    held-state machine and its laws (repeats are silent, events match the state).
  - `wire`: the `BGPIC`/`BGCLE` background commands and the 1024-byte report framing
    of picture data, with a proof that the reports reassemble the picture.
  - `display`: what an OpenDeck image event does, and the per-key image cache.
  - `image_util`: device image formats, encode planning, data URL unpacking.
  - `keyed_map`, `image_cache`: a verified string-keyed map, and the per-device key
    image cache over it.
  - `config`, `profile`: plugin settings, background choice per profile, profile
    tracking and the sorted profile list.
  - `worker`: the transport worker's command dispatch and turn decisions (what each
    turn calls, how the device handle changes, when input is read).
  - `paths`, `discovery`, `settings`: file locations, `uevent` parsing, device ids,
    settings-window decisions.
- `tests/` — tests of the library.
- `app/` — the plugin process: OpenDeck connection, USB/HID I/O through `mirajazz`,
  files, image pixel work, the egui settings window. `app/libtransport.rs` holds the
  connection through the vendor's `libtransport` library (search, loading, the worker
  thread), which runs the library's worker decisions.
