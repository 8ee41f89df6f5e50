# syntax_tree

Syntax highlighting over tree-sitter, and the decisions behind the
local-control handlers that list and change windows, tabs, panes, sessions
and settings. The library is written in Verus with its contracts proved.

- `src/` is the verified library.
  - `text`, `text_order`, `buffer`: characters, UTF-8 widths, the trims and
    the order of `str`, and the byte/character offsets of a document.
  - `markdown`, `color`, `range_map`, `syntax`, `highlight`: the colours of a
    highlight query's captures, Markdown field keys and values, and the
    character-range map they fill.
  - `injections`: code embedded in a document, parsed with its own grammar.
  - `targets`, `config_targets`, `panes`, `surfaces`, `settings_values`,
    `control_error`: how target selectors pick windows, tabs, panes and
    sessions, what a pane listing reports, which app surfaces are available,
    and the validation of setting values.
- `app/` holds the handlers themselves: the reads and writes of the running
  app, the loops that hand each answer back to the library's step
  functions, the JSON they answer with, and the font-size steps in floating
  point. The handlers reach the app through the `ControlContext` trait, which
  the app implements; nothing in this crate implements it, and none of the
  handler code is verified.
- `tests/` runs the library on concrete values, with the real tree-sitter
  Markdown grammar.
