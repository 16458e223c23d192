# winsoftvol

The logic of WinSoftVol, a Windows tray utility that applies the system
volume as per-application (software) volume, as a library whose behaviour is
stated in contracts and proved with Verus.

Layout:

- `src/config.rs`, `src/device_map.rs`: the configuration model, its defaults,
  the rules that bring a configuration into range, `HH:MM` parsing, and the
  per-device settings table. `src/config_laws.rs` proves what holds of
  sanitizing as a whole (it brings every setting into range and is idempotent).
- `src/i18n.rs`: languages, their strings and the `{placeholder}` templates;
  `src/i18n_laws.rs` proves what the tooltip says and how language codes are
  normalised.
- `src/control.rs`: the decisions of the main loop (device allow list, night
  mode, exclusive mode, mouse-wheel handling over the tray icon).
- `src/notification.rs`, `src/about.rs`, `src/tray.rs`, `src/audio.rs`: the
  toast documents, the About dialog text and its UTF-16 form, the tray menu
  states and the choice of the target device.
- `src/text.rs`: character-level trimming, replacement, decimal rendering and
  parsing shared by the above.
- `app/`: the Windows program around the library (config file I/O with serde
  and TOML, registry, COM device enumeration, toasts, dialogs, tray icon).
