# kode

The editing core of a modal, tmux-flavoured code editor, written in Verus.

- `src/` is the verified library: key parsing, motions and text objects,
  the rope-backed buffer with its undo history, search, the Spring bean
  graph, plugin bookkeeping and its event bridge, the framing of
  language-server messages and the stores filled from their replies, and
  the decisions the front ends take on keys, clicks and command lines.
  Calls into ropey and std that Verus cannot read go through small trusted
  wrappers whose contracts say what those functions document.
- `tests/` runs the library on concrete inputs.
- `app/` is the program around it: argument parsing, files, the
  language-server processes, the WebAssembly plugin host and the
  serialisation of messages.

Two front ends have no counterpart here. The terminal application's pane,
tab and session management and the GPU front end's editor state are built
on the project's own workspace, state and terminal crates, which are not
part of this tree; the GPU drawing itself is floating-point layout over
wgpu and glyphon. The parts of those front ends that decide things from
integers and text (key routing, the welcome screen, search, scrolling,
click targets, command lines) are in `src/`.
