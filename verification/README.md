# pie

The verified core of a coding agent, in Rust with Verus contracts.

- `compaction`: how long a conversation is, where to cut it, what the summarizer is given, and what
  comes of its answer
- `diagnostics`, `redact`: what a provider's error says, without the secrets in it
- `env`, `path`: file operations, commands and POSIX paths
- `tools`: the `write` tool and the locks that keep changes of one file apart
- `triggers`: notifications of MCP servers, made into triggers
- `debug`: what is shown of the calls of a model
- `model_picker`: the models that a user may pick from
- `json`, `message`, `session`, `stream`, `model`, `text`: the data that all of these work on
- `outside`: the calls into other crates and the standard library, with the contracts that are
  believed and not proved

What each function returns is stated in its `ensures`. Properties that span several functions are
the proof functions whose names begin with `law_`.

`tests/` runs the library. `app/` is the program around it: it reads and writes files, runs
processes and waits for streams, and leaves the decisions to the library.

Where a count could exceed what the machine holds, or a search could leave its text, a function has
a twin whose name begins with `try_`: it asks nothing of its caller on that account and returns
nothing in those cases.
