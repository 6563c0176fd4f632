# tuityloops

A terminal step sequencer: six drum lanes over sixteen bars of sixteen steps,
played live through the audio device and rendered offline to `out.wav`.

- `src/` is the verified core (Verus):
  - `pattern.rs`: the grid of lanes by steps and its tempo, and the default beat;
  - `sequencer.rs`: the editor's state, the key map and the effect of each key,
    with laws on what undoes what;
  - `engine.rs`: the audio engine's state, its commands, the step clock (kept in
    exact integer ticks) and the draining of the command channel;
  - `sync.rs`: the laws that keep the engine in step with the editor;
  - `view.rs`: what the grid panel shows: the window of bars, marks, ruler, cells;
  - `offline.rs`: the schedule of the offline render;
  - `voice.rs`: the drums' noise generators and the clap's gate.
- `app/` is the program around it: terminal and audio device, drawing, the
  floating-point drum synthesis and the wave-file writer.
- `tests/` exercises the core on concrete values.
