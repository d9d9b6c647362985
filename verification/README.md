# paneru

The verified core of Paneru, a macOS tiling window manager, written in Verus.

- `src/` is the library, verified by Verus:
  - `text`: decimal rendering of integers and substring search;
  - `menubar`: the virtual-workspace label of the menu-bar status item and
    when it is redrawn;
  - `mouse`: the decisions taken on mouse events (focus follows the mouse,
    clicks, resizing a window by dragging with a modifier);
  - `service`: the launchd service description, the launch agent and app
    bundle property lists;
  - `control_center`: removal of Paneru's entries from the Control Center
    preferences.
- `app/` is the `paneru` command: file-system, property-list and launchctl
  work around the library.
- `tests/` runs the library on concrete values.
