# jjview

A terminal viewer for `jj` diffs. The list of changed files can be searched; the diff of a file is
rendered by `delta` or another tool, and the editor opens at the change in view.

- `src/` is the logic, verified with Verus. It does no input or output.
  - `text`, `number`: characters, lines, decimal numbers.
  - `cli`, `config`: the options and settings.
  - `git`: the changed files, the making of a diff, and the hunks in it.
  - `render`: the styled lines of a diff, and the rows at which its hunks begin.
  - `clipboard`: the programs that copy a path.
  - `effect`: what the viewer asks of the world, and what the world answers.
  - `app`: the viewer. `model` says what it does, `machine` does it, `screens` says what it
    shows, and `laws` proves what holds of it as a whole.
- `app/` is the program around it: the terminal, the processes, and the drawing.
- `tests/` run the library against a scripted world.
