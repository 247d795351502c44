# agentlane

The state and the rules of a multi-session orchestrator for an agent CLI, as a
library verified with Verus, and the desktop application around it.

A session is a headless worker that speaks `stream-json` over pipes, an
interactive agent in a pseudo terminal, or a plain shell. The orchestrator
registers sessions, queues tasks and hands them to workers, retains terminal
output, decides which sessions the UI renders, and recovers from crashes.

## Layout

- `src/` is the library. Every operation on the orchestrator's state is a spec
  function from a state to the next state and a list of effects; the executable
  method of the same operation is proved to compute exactly that. What only the
  host can do (start a process, write to a pipe, store a row, tell the UI) is in
  the effects.
  - `model`, `text`, `json`, `protocol`, `ring`, `naming`, `launcher`,
    `terminal`, `events`, `storage`: types and pure rules.
  - `state`, `effects`: the registry and what operations ask of the host.
  - `spawning`, `lifecycle`, `headless`, `attach`, `tasks`, `scheduler`,
    `monitor`, `project`: the operations.
  - `rounds`: a whole round of scheduling.
  - `laws`: what holds across operations. Laws about one group of operations
    stand with it.
- `app/` performs the effects: processes and pseudo terminals, SQLite, sampling,
  the background loops and the commands of the UI.
- `tests/` runs the library.

## What is trusted

Calls into `serde_json`, `uuid`, `base64` and a few functions of std stand behind
wrappers, each with a comment on what is claimed of it. The clock, random ids and
the platform's notion of a path component are claimed to be no more than what
holds of every outcome.

The application reads the name of the agent CLI from `AGENT_CLI`, and the place
of its native executable under the global packages from `AGENT_CLI_NATIVE`.
