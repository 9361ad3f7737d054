# wtd_ui

The window of WinTermDriver, a tiled terminal: a workspace of tabs and panes whose sessions a host
process runs. `src/` holds what the window decides, with contracts that Verus proves; `app/` holds
what touches the system.

- `src/` keys and bindings (`input`, `prefix_state`, `pass_through`), the command palette, tabs and
  panes (`tab_strip`, `pane_layout`, `panes`, `tabs`, `attention`), the mouse, selection and find,
  what is painted and when (`renderer`, `painting`, `paint_scheduler`, `startup`), and the
  conversation with the host (`host_bridge`, `host_client`, `host_events`, `snapshot`). `workbench`
  is all of the window's state; its methods take events and return the effects to carry out.
- `tests/` runs the library.
- `app/` polls the window and the host, hands events to the workbench and carries its effects out.
  Pixels are floating point and stay there (`geometry`, `paint`), as do Win32, Direct2D and the
  named pipe (`win`).

Terminals, layout trees, settings files and wire messages belong to the sibling crates `wtd_pty`,
`wtd_core` and `wtd_ipc`; the library has types of its own for what it reads of them.
