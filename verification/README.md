# robeats_bot

A key presser for a four-lane rhythm game, with its decisions verified by
Verus.

- `src/` is the verified library: the hit points and shared settings
  (`model`), the per-lane press/release state machine (`bot`) and its laws
  over runs of passes (`runs`), the capture
  region and pixel brightness (`screen`), key codes and their names
  (`keys`), key binding in the editor (`gui`), hit-point editing and the
  linked drag, and the end-of-frame edit step (`edit`), the overlay marks (`overlay`) and the game-window
  title check (`title`).
- `app/` is the program around it: the Win32 screen capture, key sending
  and overlay window, the eframe editor, and the JSON configuration files.
- `tests/` exercises the library on concrete values.
