# cicada

The logic of the cicada Unix shell and of its line editor, written in Verus:
each function carries a contract that states what it returns or changes, and
Verus proves the code against it.

## Layout

- `src/` is the verified library.
  - `linefeed/` is the line editor: key bindings and the commands they run
    (`command`, `reader`), the inputrc parser (`inputrc`), editor variables
    (`variables`), cursor motion and search over the line (`util`), column
    layout of completions (`table`), and an in-memory terminal (`memory`).
  - `completers/` decides what a word on the command line completes to:
    paths, command names, environment variables, ssh hosts, make targets,
    and the words of a command's YAML completion file (`dots`).
    Path and command completions come sorted by their text, with the
    shell's special characters escaped, or wrapped in the quote the word
    was typed with.
  - `builtins/` holds the decisions and texts of the builtin commands
    (`cd`, `exit`, `fg`/`bg`, `read`, `alias`, `export`, `unalias`,
    `source`, `exec`, `vox`, `ulimit`, `history`, `check`), and where a
    builtin's output goes under its redirections (`utils`).
  - `pipeline` decides how each command of a pipeline sets up its file
    descriptors in the child (pipe ends, redirections, here-strings,
    captured output) and what a child prints when its program does not
    start.
  - `calculator/` evaluates integer arithmetic typed at the prompt.
  - `highlight`, `dispatch`, `execute`, `jobc`, `history`, `binds` and
    `ctime` cover syntax highlighting, builtin dispatch and the steps of a
    pipeline, `&&`/`||`/`;` chains and the assignments that lead a
    command, job lines and waiting for the foreground job, the history
    store, history key bindings and date formatting.
  - `text` and `re` are shared: character and byte positions in strings,
    decimal numbers, and regular expressions.
- `app/` is ordinary Rust around the library: reading files and
  directories, the environment and the terminal, starting child
  processes, and floating-point arithmetic.
- `tests/` runs the library on concrete inputs.

## What is trusted

Calls into other crates stand behind small wrappers whose contracts Verus
takes on trust; each names the function it calls in its doc comment:
`regex` (compiling, matching, capture groups, replacement), `mortal`
(the sorted binding table, combining marks, character widths),
`yaml_rust` (reading completion files and scalars) and a few
functions of `std` (`String::push`, `char::from_u32`, `str::to_lowercase`,
`String::from_utf8_lossy`). Where a result takes pages to state (what a
regular expression matches), the contract names it and the library's own
contracts are stated over that name.
