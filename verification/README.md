# gitten_shell

The logic of a desktop git client's window: the panes, the settings panel and the
theme picker, with their behaviour stated as contracts and proved by Verus.

- `src/` is the library. A pane holds its rows and its keyboard, says which move a
  command is, is told where the viewport landed, and says what a row looks like.
  `views/rows.rs` is the order table of a diff, `views/text_rows.rs` the
  presentation of code, `views/markdown.rs` that of documents, and `views/diff.rs`
  the pane over them. `settings.rs`, `settings_window.rs` and `theme_picker.rs` are
  the two dialogs; `stats.rs` is the overlay; `text.rs` is what they spell with.
- `tests/` runs the library.
- `app/` is the window around it: elements, pixels, the clock and the clipboard.

Laws that span several functions stand beside them as public proof functions.
Three functions of the standard library are taken on trust: `str::to_lowercase`,
`char::to_uppercase` and `String::from_utf8_lossy`, at the end of `text.rs`.
