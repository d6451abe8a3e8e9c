# zeroclaw_swarm

Swarms: a named roster of agent boxes that an orchestrator drives toward one goal,
under one shared budget of turns, tokens and dollars. `src/` is the library, verified
with Verus; `app/` is ordinary Rust around it.

## The library

| Module | What it holds |
| --- | --- |
| `store` | The persisted swarm, the store's contract (`SwarmStore`), and a store in memory. |
| `board` | The state board that the boxes of a swarm coordinate on. |
| `roster` | Building a validated roster out of a swarm's box specs. |
| `engine` | One run's budget and planning rounds (`run`), what a box may call (`tools`), and the supervisor of all live runs (`supervisor`). |
| `delegate_tool`, `state_tool`, `tool` | The two tools that models are given. |
| `reap` | Deleting what a run left behind. |
| `wizard` | The creation wizard: its steps, its validation, and the spec that comes out. |
| `steering` | Messages for a turn in flight, users first. |
| `session_lifecycle` | Deletion, persistence and finalization generations of sessions. |
| `queen` | Choosing the queen agent. |
| `tui` | The terminal interface: its state, its canvas, its wizard, and what each screen shows. |
| `text`, `strmap`, `usd`, `duplicate`, `ids`, `clock`, `json` | What the others are built from. |

Each type has a view, a `...View` of plain mathematical values, and each function says
in its `ensures` what it does to it. Public proof functions state what holds across
functions: that exactly one driver holds a swarm, that its box turns stay within its turn
ceiling across parks and resumes, that a refused call touches nothing.

A store other than the one in memory implements `SwarmStore`. Its `dependable` says
whether every request to it is answered. The contracts of the engine's functions are
exact where the store is dependable. Where it can fail they still fix the live runs,
the boards and the answer; of the store they then leave open which of the attempted
writes came through.

Money is held in millionths of a dollar (`usd`), and texts for the terminal are keys
into a catalogue with a fallback (`tui::phrase`).

## The application

`app/` holds the SQLite store, the tasks that drive live runs, the socket client, the
terminal and the serialized forms of the library's records.
