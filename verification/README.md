# mdrv-ds

A proxy for DualSense controllers on Linux. It takes the real pad, cabled or
over Bluetooth, and presents it to games as a virtual pad of the same shape. The
virtual pad outlives the link to the real one. On the way it can run commands on
PS-button chords, hold input back for overlays, show a second pad to games that
know only Xbox controllers, and play a stream's audio and haptics on the pad.

- `src/` is the library: reports and their checksums, the wire formats, and the
  state machines of the relay, the holder, the bridge and the audio writer. It
  does no input or output. Each function states what it does, and Verus proves
  it.
- `app/` is the program around it: sockets, device nodes, threads, the sound
  server and floating-point signal processing.
- `tests/` runs the library on concrete values.
