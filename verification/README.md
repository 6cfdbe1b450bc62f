# CodeLink

Durable background jobs beside an agent session, and pruning of the session's prompt. The library
under `src/` is written in Verus: each function states what it does, and Verus proves it.

- `job`, `agent`, `remote`, `watch`, `report`, `store`, `cli`, `error`: background agents and
  watchers of remote logs, from the command line to the notification that a job is over.
- `pruner`: what is left of a conversation when it is sent to the model. Older images, heavy tool
  payloads, repeated outputs and failed calls are replaced by placeholders; the newest turns never
  are.
- `compress`, `tool`, `instructions`: what a model is offered and told.
- `item`: the items of a conversation. `text`, `number`, `pattern`, `shell`: texts, numerals, regular
  expressions and words of a shell.

Functions named `law_..` state what holds across functions, for all inputs.

`app/` is the `codelink` program: the command line, the SQLite store, processes and files. `tests/`
runs the library on concrete values, with the crates that it calls.

## What is trusted

- `pattern`: `regex_lite` accepts, matches and captures as a function of pattern and text.
- `shell`: `shlex::try_quote` quotes a word so that a shell reads it back, as a function of the word.
- `remote`: `String::from_utf8_lossy` decodes UTF-8.
- `text`: `String::push` appends a character.
