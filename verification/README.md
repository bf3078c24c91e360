# Mahi

The core of a local-first personal assistant that runs on the device, on a Mac
in the local network or far away, or against a hosted model, and moves between
them. The rules of the core are written in Rust with Verus contracts and proved.

## Layout

| Path | What it holds |
|---|---|
| `src/contracts` | The records, messages and errors that the parts exchange; stores kept in memory |
| `src/agent` | The turn: context, rounds, tool calls, approvals, subagents |
| `src/compute` | The router between the compute modes, the hosted adapters, local models |
| `src/data` | Payload cryptography, the root key, the rules of the encrypted store and its audit chain |
| `src/connectivity` | Pairing, peers, sessions, frames, the lanes of the multiplexed bus |
| `src/ffi` | What an app holds: events, the model list, who answers |
| `src/cli.rs`, `src/daemon.rs` | The commands of the prompt and the bodies of the server |
| `src/model.rs`, `src/text.rs`, `src/json.rs`, `src/ident.rs`, `src/paths.rs`, `src/table.rs` | Shared foundations |
| `app` | The program around the library: sockets, files, the database, processes |

## How it is built

Everything that waits for the outside world is a state machine in `src/`: it is
told what happened and says what to do next, and `app/` does it. A turn of the
agent (`agent::turn`), a download (`compute::local::download`) and the bus
(`connectivity::bus`) are written this way. Functions that draw a random
identifier or read the clock are thin, over functions that take both as
arguments and have exact contracts.

Contracts speak of mathematical values: each type with text or lists in it has a
view. Properties that span several functions are public proof functions whose
names begin with `law_`.

What comes from other crates (AES-GCM, HKDF, HMAC, SHA-256, JSON, UUIDs, Base64,
the clock and random numbers) is called through small wrappers, each with the
contract that is believed of it stated above its body.
