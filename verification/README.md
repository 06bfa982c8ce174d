# Tessera

A terminal emulator that tiles shells like a mosaic: panes are split by keyboard or
by dragging the borders between them, and organised into tabs that can be coloured,
renamed, reordered and merged.

`src/` is the core of the program. It is written in Verus: every function states what
it does, and that it does so is proved. `app/` is the window around it: drawing,
files, processes and floating-point geometry. `tests/` runs the core on concrete
values, together with the outside crates that it calls.

| Module | What it holds |
|---|---|
| `app` | tabs, panes and what moves, splits and closes them |
| `laws` | the invariant of that state, and what its operations do to each other |
| `layout` | a tab's panes as a binary tree |
| `frame` | what the terminals report and what shortcuts ask for, as steps of the state |
| `strip`, `panes`, `dialogs` | the decisions of the tab strip, the pane area and the dialogs |
| `shortcuts`, `keys`, `keynames` | which key presses are taken, and how bindings and keys are written |
| `config`, `template`, `number`, `theme`, `color`, `launch` | settings, palettes and what to run |
| `font` | choosing the terminal's faces |
| `terminal`, `pointer`, `typing`, `paste` | mouse reports, selection, search stepping, key sequences |
| `labels`, `text`, `case` | the texts of the window, and text as sequences of characters |

State is modelled mathematically: a `Tessera` has a view, `State`, and each of its
methods says which state it leads to. What is trusted rather than proved are the
contracts of the few functions that call `egui`, `fontdb` and the standard library;
each names the function that it calls and says what it claims of it.
