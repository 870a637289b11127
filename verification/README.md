# ferrisOS library

The logic of ferrisOS, a small text-mode desktop for x86 PCs, written in Verus
and verified: three terminal windows with a command line, an in-memory file
system of ten files, the FerrisScript interpreter, two editors, a music box,
a file explorer and three games.

- `src/` is the verified library. Each program is a state machine: the caller
  hands it a key, a mouse report or a tick and gets back what to do next
  (play a sound, show a frame, leave).
  - `screen`: windows as terminals (printing, scrolling, drawing, clearing).
  - `shell`: the desktop, its mouse handling and its commands.
  - `compositor`: the 80x25 frame and when it must be shown again.
  - `vfs`: the file slots and saving.
  - `script`: the FerrisScript machine (statements, variables, calls, loops);
    `script_laws`: what holds across its statements.
  - `editor`, `chest`, `explorer`: the Claw and FerrisScript editors, the
    music box and the file explorer.
  - `jump`, `maker`, `dungeon`: the games.
  - `hw`, `startup`, `keys`, `text`: device register bits, the boot screen,
    scancodes and the fixed texts.
- `tests/` runs the library on concrete inputs.
- `app/` is the machine around it: port I/O, the VGA buffer, the timer, the
  speaker, and the loops that feed the programs their events.
