# predator-sense-gui

The logic behind a Predator/Nitro laptop control panel, verified with Verus.

- `src/` is the verified library: text handling in the manner of `str`
  (`text`), helper-process commands and their outcomes for the fans and
  CoolBoost (`fan`, `command`), automatic power-profile switching
  (`power_profile`), the `df` listing (`storage`), the hwmon index and the
  labelled temperature search (`hwmon`), the tray helper's start-up decisions
  (`tray`), the search for a file through an ordered list of places
  (`places`), the dashboard texts (`dashboard`) and the window state
  (`app_state`).
- `app/` runs processes, reads sysfs, answers whether files exist, keeps the
  process-wide state, does the floating-point conversions and builds the GTK
  dashboard; what to run, read or look for, and what the answers mean, comes
  from the library.
- `tests/` exercises the library on concrete values.
