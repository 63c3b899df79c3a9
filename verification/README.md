# edoCRS

A command line agent that chats with a language model, lets it call three tools
(`read_file`, `write_file`, `bash`), and keeps every session as a log that can
be taken up again, rewound and copied.

The logic of the agent is a Verus library: every function under `src/` carries
a contract, and Verus proves it. The library does no input or output. Where the
agent has to read a file, send a request or wait for the user, the library says
what is to be done and goes on from what came of it. The program under `app/`
does what the library asks for.

## Layout

| Path | What it holds |
| --- | --- |
| `src/text.rs`, `src/json.rs`, `src/wire.rs`, `src/stamp.rs` | text, JSON values and fields, identifiers and times |
| `src/errors.rs`, `src/config.rs`, `src/cli.rs` | errors and their messages, models and configuration |
| `src/api.rs`, `src/system_prompt.rs` | messages on the wire, the system prompt |
| `src/sampler/` | dialects, the event stream of an answer, retries |
| `src/session/` | the log and its replay, checkpoints, sessions |
| `src/tools/`, `src/permission.rs` | the tools and the permission to run them |
| `src/agent.rs`, `src/event.rs` | turns |
| `src/session_actor.rs`, `src/repl.rs`, `src/ui.rs` | commands, what the user types, what is shown |
| `tests/` | tests of the library |
| `app/` | the program |

## What is proved

Beside the contracts of the functions, public proof functions whose names begin
with `law_` state what holds of several of them together. Among these:

- a log gives back the records that were appended to it, and the session that
  they stand for;
- a session stays in step with its log through every step of a turn, also after
  a rewind, and a record that could not be stored leaves the session as it was;
- a rewind brings the files back to what they were, but for those that were not
  text, and removes none that was there before;
- a copy has the history of the session under its own identifier, and what is
  appended to one of them does not change the other;
- a tool that needs permission does nothing without it, and a file is noted
  before it is written;
- every request is the system prompt for the model and the working directory,
  followed by the history;
- how the bytes of an answer are cut into chunks does not matter for its events.

What the library takes on trust are its calls into `serde_json`, `uuid`,
`chrono`, `similar` and a few functions of the standard library. Each stands in
a function marked `external_body`, whose comment says what is claimed.

## Configuration

The command line goes before the environment, the environment before `.env`,
`.env` before `~/.config/edocrs/config.toml`, and that before the defaults.
