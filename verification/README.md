# modcon2

A ProTracker MOD player whose core is verified with Verus.

- `src/` is the verified library: the MOD layout reader (`module`, and the
  smaller `track` and `tracker` readers), sample headers (`sample`), pattern
  rows (`pattern`, `channel`), effects (`effect`), note names (`note`), the
  position logic of playing samples (`pcm`, `sound`), the walk through the
  song and the per-row channel decisions (`player`), the rows shown while
  playing (`formatter`) and hex dumps (`hexdump`).
- `app/` is the command-line player around it: file access, the audio
  device (rodio), the tick timer (tokio), logging, and the `f32` sample
  values and playback rates.
- `tests/` runs the library on concrete files and rows.
