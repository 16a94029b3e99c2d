# clust

A command-line tool that runs coding agents in the background and watches them: it talks to a
hub, a daemon that owns the agents, lists and attaches to them, manages worktrees, and shows a
dashboard with every agent's terminal.

`src/` is the library, proved with Verus. It holds what the tool decides and computes:

- `cli`, `dispatch`, `commands`, `default_agent`, `hub`, `stopping`, `removal`, `worktrees`,
  `selectors`, `notes`, `formatting`: the command line, what each command says to the hub, and
  what it prints;
- `protocol`, `connection`: the messages, and the life of a connection to an agent or a shell;
- `output_filter`, `screen`, `virtual_terminal`, `keys`, `term_complete`: terminals;
- `gitdiff`, `wrapping`, `diff_pane`: diffs;
- `overview`, `focus`, `sorting`, `branch_picker`, `ranking`, `lists`, `editing`, `editor`: the
  state of the dashboard;
- `modal` and the `*_modal` modules, `context_menu`: dialogs;
- `style`, `view`, `layout`, `overview_view`, `focus_view`, `modal_view`: what is drawn where.

Every operation has a contract over mathematical views. Where an operation needs the outside
world in between, it is a step of a state machine: it takes in what happened and says what to
do next. Calls into other crates stand behind small functions with stated contracts: the
argument parser (`cli`), the terminal parser (`virtual_terminal`), layout (`layout`), fuzzy
matching (`ranking`), and dates (`formatting`).

`app/` is the program around it: sockets, processes, files, keys, and drawing.

`tests/` runs the library with the real crates.
