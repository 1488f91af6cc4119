# wotoha

The rules of a music bot that mixes the tracks of a queue into each other,
written and proved in Verus.

`src/` is the library. Its functions say in their contracts what they return, and
its public proof functions state what holds of several of them together.

- `scalar`, `time`, `frames`, `text`, `ordering`: binary32 scalars as bit patterns,
  time spans, frames of profiles, text and stable sorting.
- `analysis`: the record of an analyzed track with its rhythm, structure, tonality,
  vocals, energy and cues, and the rules that make a record valid.
- `automix`: how the end of one track is mixed into the start of the next one:
  which beats and phrases meet, where the mix starts, how long it lasts, which
  tempo it follows, and when a plan is refused.
- `audio`: beats, markers and boundaries that are read from onset and band levels.
- `contracts`, `playback`, `control`, `discord`, `logging`: the queue and its
  limits, who may control it, and what users are told.
- `corpus`, `probe`: the evaluation of real recordings: manifests, the download and
  digest of sources, the identity of tracks, rendered mixes and their thresholds.

`app/` is the program around it: services, files, sockets, serialization and
floating point arithmetic. It hands the library plain values and acts on what comes
back. `tests/` runs the library.

What is believed about other crates and the standard library stands in
`src/text.rs`, `src/corpus/identity.rs` and `src/corpus/acquisition.rs`, beside
the functions that call them.
