# virtual_soundboard

A desktop soundboard that routes a microphone, with optional effects, and
on-demand sound clips into the VB-Cable virtual device, so that voice chat apps
hear both. Clips are imported into an app data directory, listed, deleted and
played from pads or global hotkeys; a rolling log reports audio buffer trouble.

Layout:

- `src/` — the verified library (Verus):
  - `text.rs`: character-level string helpers with their specifications.
  - `clips.rs`: clip ids, display names, clip records, import plans, listing
    order and which stored files belong to a clip.
  - `devices.rs`: which audio devices are offered and opened (never monitoring
    on VB-Cable).
  - `hotkeys.rs`: turning pad bindings into the map from shortcut ids to clips.
  - `effects.rs`: mic effect settings, clamped into their ranges.
  - `stats.rs`: the rolling stats log and the per-period warnings.
  - `ring.rs`: the prefilled mic ring buffer.
  - `table.rs`: decoded clips by id.
  - `soundboard.rs`: the soundboard state and what each command does to it.
- `tests/` — tests of the library.
- `app/` — the Tauri application around it: commands, cpal streams, decoding and
  the floating-point signal processing.
