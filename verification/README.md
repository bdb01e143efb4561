# jbar

The logic of a Wayland status bar for niri, verified with Verus.

- `src/` is the library: the panel layout and settings, the parsing of what
  system tools print (`wpctl`, `pw-dump`, `makoctl`, NetworkManager and BlueZ
  properties, sysfs), the models behind each applet (clipboard history,
  notifications, workspaces, keyboard layouts and backlight, caffeine), and
  the edit of niri's KDL configuration. Every function there has a contract
  that Verus proves; the calls into `kdl`, `serde_json` and a few `std`
  conversions stand behind small trusted wrappers whose contracts say what
  the outside code does.
- `app/` is the program around it: GTK widgets, D-Bus, Wayland, files and
  processes, and what works on floating point (volumes, brightness, bar
  geometry and CSS).
- `tests/` runs the library with the real outside crates.
