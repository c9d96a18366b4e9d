# lotus

The logic of a DOS racing game, written in Verus: every function in `src/` carries a
contract that Verus proves.

- `src/` is the library. The configuration and its menus (`config`, `menu`, `screens`,
  `frame`, `recs_bar`, `cursor`), the resource archive and its decompressor (`archive`,
  `unpack`, `stack`), course codes and the random course generator (`crc`, `state`,
  `track`, `relief`, `obstacles`, `scenery`, `structures`, `stations`, `edges`),
  drawing into the screen buffer (`sprite`, `bitmap`, `video`, `palette`, `intro`),
  input and timing (`input`, `joystick`, `ticks`, `race`), the copy protection
  question (`protection`) and the DOS heap allocator (`mem`).
- `tests/` runs the library on concrete values.
- `app/` is a small command-line program around the library: it reads the game's
  data file, shows the layout of a course for a course code, unpacks resources and
  asks the protection question.

Hardware access (VGA, the keyboard and timer interrupts, the mouse and joystick
ports) stays outside the library; the library takes what those devices report as
plain values and decides what happens next.
