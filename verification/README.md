# Flappy Rust

A Flappy Bird style game (a paper plane, pipes, collectibles, combo and Flow
bonuses, power-ups, chiptune audio) whose rules and file formats form a library
verified with Verus.

- `src/rules.rs`: the discrete state of a run (start, pause, game over, mute,
  score, Flow, star combo, power-ups, sound cues) and its transitions, with the
  laws the game promises (pause toggles, restart after game over, a shield
  absorbs exactly one hit, boost doubles points, perfect passes build Flow,
  close calls score extra, muted frames are silent, a finished run was
  started and is not paused).
- `src/audio.rs`: the layout of the sound effects and the looping music
  (tones, gaps, rests, repeats) and the notes' volume envelope.
- `src/wav.rs`: encoding of 16-bit mono PCM as a WAV file; its size fields and
  samples read back.
- `src/high_score.rs`: the saved best score's text format; what is saved reads
  back.
- `app/`: the macroquad program: window, input, drawing, `f32` motion and
  collision, waveform synthesis, sound playback and score storage.
- `tests/`: tests of the library on concrete values.
