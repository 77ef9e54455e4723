# dshtui

A terminal client for a remote coding-agent server, with a pixel town that shows
the agents at work.

The library (`src/`) is verified with Verus. Its functions carry contracts over
mathematical views of their data, and the laws that relate several functions are
public proof functions named `law_..`. What is believed without proof are the
calls into `serde_json`, `toml`, `nucleo` and a few functions of std; each stands
behind an item of its own whose comment says what is claimed of the call.

| module | what it holds |
| --- | --- |
| `config`, `config_file` | the command line, the configuration and how it is written anew |
| `input::keymap` | keys, modes and the keys a user sets |
| `driver` | what the main loop decides: requests, answers, streams, start-up |
| `model::session`, `model::trajectory` | the windows on a session, with their laws |
| `model::*` | panels, catalogs, drafts, exports, approvals |
| `model::town_*`, `model::agent_town` | the map, the ways, the people and the picture of the town |
| `json`, `toml_doc`, `fuzzy`, `text`, `order`, `sets`, `wire` | values, texts and the calls into `serde_json`, `toml` and `nucleo` |

`app/` is ordinary Rust around the library: arguments, files, the terminal, the
clipboard, and whatever is floating point. The transport to the server is
plugged in there as an implementation of `Transport`.

`tests/` runs the library from outside.
