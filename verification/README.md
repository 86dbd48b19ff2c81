# μT (muT)

A terminal LaTeX editor with Micro-like editing, background `pdflatex`
builds, a Zathura preview, syntax highlighting, undo/redo, selection,
bracket auto-closing and `\begin{X}` → `\end{X}` suggestions.

The editor's logic is a library, `mu_t`, whose behaviour is stated in
Verus contracts and proved; the program around it runs the terminal, files,
processes and the clipboard.

## Layout

- `src/` — the verified library:
  - `text_model.rs` — the text as bytes: lines, line breaks, character
    boundaries, splicing;
  - `rope_api.rs` — the calls into `ropey` that the buffer makes;
  - `buffer.rs`, `cursor.rs`, `history.rs` — the text buffer, the cursor
    and selection, the undo history;
  - `app.rs` — the editor state and its editing commands (typing with
    auto-close and suggestions, lines, undo/redo, clipboard, find, go to
    line, saving and opening, build results);
  - `keys.rs` — the key bindings and the dispatch of terminal events;
  - `background.rs` — builds (the automatic one starts 800 ms after the
    last edit), the preview and automatic saving;
  - `latex.rs` — `pdflatex` logs and build results;
  - `config.rs` — themes and the configuration file's settings;
  - `spans.rs`, `screen.rs`, `highlight.rs` — what the screen shows, and
    the choice of theme and syntax that colours it;
  - `syntect_api.rs` — the calls into `syntect`, whose themes and syntaxes
    carry how they were loaded;
  - `text_util.rs` — decimal numbers, white space, lines.
- `tests/` — tests of the library.
- `app/` — the program: event loop, drawing with `ratatui`, `crossterm`
  input, reading a `.tmTheme` file, the TOML configuration file, `pdflatex`
  and Zathura processes, the system clipboard.

## Configuration

`~/.config/muT/config.toml`:

```toml
[theme]
name = "dark"                    # "dark" | "light"
syntax = "base16-ocean.dark"     # Syntect theme name or .tmTheme path

[editor]
tab_width = 4
auto_save_interval = 10          # seconds, 0 = off
```
