# muninn

The core of a server monitoring agent, written in Rust and verified with Verus.

The agent reads one YAML file, turns it into a complete Telegraf configuration,
starts and watches Telegraf, and reports honestly whether it is working.

- `src/` decides: what a configuration means and what is wrong with it, which
  Telegraf configuration it becomes, what is reported about the agent, and what
  the update checks conclude. Every function states what it returns, and Verus
  proves it. Functions named `law_…` state what holds of several together.
- `app/` acts: it reads files and the environment, listens, starts processes and
  talks to the Docker daemon, and hands what it finds to `src/`.
- `tests/` runs the library on concrete inputs.

What the library takes from other crates stands behind functions marked
`external_body`, each with the claim it makes: YAML and JSON parsing, human
durations, TOML and JSON strings, and a few functions of the standard library.
