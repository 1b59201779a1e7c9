# SC2DSU

The controller side of a Cemuhook DSU server for the Flydigi Vader 5 Pro, written
in Rust and verified with Verus. The library also has a place for Steam Controllers
beside the pad: it scans, polls and hands slots to whatever a backend for them finds
and reads. That backend is not part of this project, so the program in `app/` drives
no Steam Controller. Nor is the network side of the server: samples end in the status
display.

- `src/` is the verified library. `flydigi` speaks the pad's protocol: frames and
  requests (`frame`), input reports (`report`), the handshake that takes control of
  a pad (`handshake`) and the open pad itself. `device` puts it beside the Steam
  Controllers behind one type. `poll` keeps the open controllers, hands out the four
  DSU slots and decides who is dropped; `reader` is the loop around it. `ui` is the
  settings window without a screen, `args` the command line, `config` the settings,
  `text` numbers as text. The `laws` modules hold what is proved of them as a whole,
  `poll::session` what is proved of a whole life of the reading thread.
- `tests/` runs the library on concrete values.
- `app/` is the program: HID access, threads, the window on the screen and the
  arithmetic on floating-point motion.

Motion readings are fixed-point integers in the library, in steps of 1/2048 degree
per second and 1/4096 g, which hold every reading of the pad exactly. Times are
nanoseconds of one clock, read by the caller.

A pad is acquired only if it answers as a Vader 5 Pro (device 130) with firmware
`0x7141` or later. Up to four controllers have a slot at a time, handed out lowest
first to whoever delivers a sample, in the order of discovery.
