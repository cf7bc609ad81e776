# gromrik

Gromrik is a displeased dwarf (or one of a few other personas) to chat with
through a language model server compatible with Ollama's `/api/chat`: on the
command line, in a terminal interface, or in a window.

## Layout

- `src/` is the library, verified with Verus: the settings (defaults, config
  file, command line), the personas and their bundles, the conversation sent to
  the model and the history saved as JSON, the decisions of each interface
  (what each key does, tab completion, scrolling, wrapping), the help text, the
  splash and the log's redaction. Each public function states what it returns
  in its contract; the laws of the library are public proof functions
  (`law_*`).
- `app/` is the program around it: reading files and prompts, talking to the
  server, drawing the terminal and the window, and the log.
- `tests/` runs the library on concrete values.

The program reads its prompts, pictures and fonts from a `resources`
directory beside it.
