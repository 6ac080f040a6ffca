# HD2 Preset Helper

A tray program for Helldivers 2. A hotkey saves the loadout that the game shows as a preset, or
applies a saved preset to an empty loadout: it reads the screen, finds the items in the lists of
the game and clicks them.

- `src/` is the library: the rules of the program, stated in contracts and proved by Verus. It
  decides; it does not touch the system.
- `app/` is the program around it: files, threads, capture, input, the overlay and the tray on
  Windows, and the floating point measures by which slots and icons are recognized.
- `tests/` runs the library on concrete values.

## The library

| Modules | What they decide |
| --- | --- |
| `app`, `app_events`, `app_paths`, `worker`, `messages` | the main loop, the queue of the worker, messages |
| `preset_action`, `presets`, `config`, `assets` | the steps of an action, preset files, settings, icons |
| `loadout`, `direct_select` | the state of the screen, which item is clicked, scrolled to or retried |
| `input`, `input_session`, `hotkeys`, `automation` | keys, injected input, registration of hotkeys |
| `capture`, `capture_session`, `calibration`, `window` | frames, regions, when a capture is kept |
| `vision`, `slot`, `item`, `slot_search`, `template_*`, `gray`, `home_tone`, `fingerprint`, `stats`, `single` | slots, templates and their order, histograms, image distances, single precision |
| `overlay*`, `tray`, `monitors`, `platform`, `permissions`, `npy`, `text` | what the overlay shows and when, menus, monitors, texts |

Scores that are computed in floating point reach the library as order keys: integers that are
ordered as the scores are. Centers of slots are held in 2 to the power of -24 pixels, and what is
computed from them in single precision is rounded as such numbers are (`single`).

The library calls `image`, `fast_image_resize` and `toml_edit`. Each call stands behind a small
function whose contract says what is relied on.

`app/` looks for `assets/calibration.json` and `assets/icons/items.json`, with the icons beside it,
in the directory of the executable.
