# dsh_pet

A desktop pet for Windows: a borderless, per-pixel transparent window that
plays a chain of animations, walks along the screen, answers clicks, can be
dragged, and keeps its pets in a small JSON settings file.

The crate is split in two.

- `src/` is the library, verified with Verus: the animation catalog and the
  random animation chain (`catalog`, `rng`), the settings file format and its
  round-trip proof (`config`, `config_proof`, `text`), the pet's state
  machine and menu command decoding (`pet`, `menu`, `tray`, `autostart`),
  the pixel work behind the layered window (scaling, blitting, the alpha hit
  mask and the window region built from it, `pixels`), window placement
  (`geometry`), UTF-16 strings for the Win32 API (`wide`), the embedded
  asset pack (`assets`) and the character list (`role`).
- `app/` is the Win32 shell around it: windows, the tray icon, the registry,
  files on disk, timers, and the parts that compute with floating point.
