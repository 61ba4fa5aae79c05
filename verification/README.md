# phonia_core

The core of phonia, a bit-perfect music player for Linux: the playback queue, the engine that plays
from it, the outputs it plays to, and what it takes to find and read a track.

## Layout

- `src/` is the library. Every rule in it is stated in a contract and proved by Verus: how the queue
  picks what comes next, what the engine does with each command and each answer it gets, how samples
  are packed for a card, how a DASH manifest is read and a time found in it, which card a name means,
  how a reservation is made and given back, what a session's migration keeps.
- `app/` is what surrounds it: threads, the async runtime, ALSA, the sound server, D-Bus, HTTP, files
  and the environment. It carries out what the library decides and reports back what happened.
- `tests/` runs the library on concrete values.

## How the library is built

What a component does is a function from its state and an event to its next state and what is to be
done. `queue/model.rs` and `engine/model.rs` hold these functions for the queue and the engine;
`queue/inner.rs` and `engine/audio_thread.rs` compute them; `queue/laws.rs`, `queue/cycles.rs` and
`engine/laws.rs` prove what holds of every sequence of events. Smaller components keep their laws beside
their code, as public proof functions.

Calls into other crates stand behind small functions whose contracts are believed rather than proved.
Each says in its comment what it takes for granted, and of which function.

Durations are counted in nanoseconds (`time.rs`). Floating point stays in `app/`.
