# Directory Octopus

A retro dual-pane file manager in the style of Amiga's Directory Opus 4.

- `src/` is the verified library (Verus): the panel listing order and the
  selection rules, the compact sizes of the status bar, the choice of the disk
  holding a path, the button layout and its shortcuts, the action texts and
  their reading, what each button does given the selected entries, the file
  viewer's lines and the hex dump, the permission bits, the texts of the
  pop-ups, and the decisions of "Find" (glob patterns) and "Search" (regular
  expressions). Calls into `std::path`, `regex` and
  `glob` go through small trusted wrappers whose contracts are stated next to
  them.
- `app/` is the egui/eframe application around it: windows, drawing, the
  disk (reading directories, copying, deleting, walking trees), `sysinfo`,
  `chrono`, the TOML settings file and the processes it starts.
- `tests/` exercises the library.

The Topaz fonts and the window icon are read at start-up from `assets/`
(or the directory named by `DIRECTORY_OCTOPUS_ASSETS`) when present.
