# battery_threshold

Sets the charge thresholds of a Linux laptop battery (the percentages at which
charging starts and stops, in
`/sys/class/power_supply/<battery>/charge_control_{start,end}_threshold`).

- `src/` is the verified library (Verus):
  - `decimal`: parsing a `u8` from text with the standard library's error
    kinds, and decimal formatting; formatting then parsing gives the value back.
  - `listing`: the lines of a power-supply listing and the battery names in it.
  - `battery`: the `Battery` state, reading thresholds from file contents,
    the paths and `sudo tee` commands, and the order of the two threshold
    writes, which never puts the start above the end on the way.
  - `update`: the steps of a threshold update (password, first write, last write).
- `app/` is the GTK program around it: listing directories, reading files,
  running commands and the window.
- `tests/` runs the library on concrete values.
