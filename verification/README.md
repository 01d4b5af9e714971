# rovdex

The core of a coding assistant: agents and their permission rules, the
workspace configuration and how a run's provider and model are chosen, the
session engine that alternates model answers and tool calls, the standard
tools, the workspace map, saved sessions, credentials, application paths and
the state of the desktop shell.

## Layout

- `src/` — the library, written in Verus. Every function states what it
  returns in its contract and Verus proves it. The regular expressions,
  glob patterns, JSON parsing and printing, path joining and the clock come
  from their crates (`regex`, `glob`, `serde_json`, `std`) through small
  trusted functions whose contracts say what is assumed of them.
- `app/` — the program around the library: the command line, the terminal
  interface, the desktop commands, and everything that touches the file
  system, processes, the network or the environment. It runs the session
  loop, performing each step the engine asks for.
- `tests/` — tests of the library on concrete values.

## Running a session

`Engine::start_run` returns the run's state and its first step. The caller
performs the step (`CallProvider`: ask the model with `RunState::request`;
`CallTool`: run the tool that `RunState::running` names) and hands the
answer back (`on_response`, `on_tool_output`, `advance`) until the step is
`Finished` (take the run with `finish`) or `Failed`.
