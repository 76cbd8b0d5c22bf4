# nix-tmux-define

A declarative tmux session manager. A session description — windows with trees of panes and
splits, environment variables, options, template variables — becomes a running tmux session,
either through a generated bash script or by driving tmux directly.

## Layout

| Place | What it holds |
|---|---|
| `src/` | the library, verified with Verus |
| `tests/` | its tests |
| `app/` | the command line: file loading, serde and clap, and the backend that runs `tmux` |

Within the library:

| Module | What it says |
|---|---|
| `words`, `checks`, `validate` | which names, values and sessions are valid, and how others are refused |
| `model`, `ratio`, `ordered_map` | the description of a session |
| `template`, `template_laws` | placeholders and shell quoting |
| `layout_plan` | the order in which panes are built and configured |
| `compiler`, `compiler_laws` | the script of a session |
| `backend`, `protocol`, `protocol_laws`, `executor` | what is asked of tmux to build, run and reload a session |
| `run_laws` | what holds of a whole run or reload, over all windows |
| `agreement` | the script and the executor carry out the same steps |
| `real_tmux`, `attach`, `recording` | command lines and their results, the hand-over of the terminal, a backend for tests |
| `format`, `listing` | session files, directories and what is printed about them |
| `text`, `sorting`, `error` | strings as sequences of characters, stable sorting, and the crate's error |

## What is trusted

`text` states, without proof, what a few functions of the standard library do: `String::push`,
`std::str::from_utf8`, `String::from_utf8_lossy`, and the `{:?}` formatting of `str` and `char`.
Implementations of `TmuxBackend` outside the library, such as the one in `app/`, are held to the
trait's contract by nothing but their own code.
