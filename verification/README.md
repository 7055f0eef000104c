# agt

A terminal companion for coding agents: it lists the agents' sessions, follows their transcripts
while they are written, and starts an agent from the picker.

- `src/` is the library. Every function states its behaviour in `requires` and `ensures`, and Verus
  proves it. What is asked of other crates stands behind small wrappers, each with a comment that
  says what is taken on trust.
  - One directory for each agent: reading its transcripts into tree operations.
  - `index/`, `picker/`: the cached list of sessions and the screen that shows it.
  - `app/`: the state of the program, from event to next state and effects.
  - `data_view/`, `status_bar`, `color`, `clipboard`, `geometry`: what is shown, and where.
  - `config`, `args`, `cmd_parse`, `session_socket`, `plugin_install`, and the hooks of each agent:
    settings, the command line, and what links a running agent to its session.
  - `text`, `paths`, `number`, `json`, `clock`, `order`: what the others are built on.
  - The functions named `law_..` state what holds across several functions.
- `tests/` runs the library on concrete values.
- `app/` is the program round the library: the terminal, files, sockets and the database.
