# usb_timing_box_rs

Host-side logic for the race result USB Timing Box ASCII protocol, written in Verus.

- `src/` is the verified library: the text model of the protocol (`text`), hexadecimal
  numbers (`utils`), passing and beacon records (`passing`, `commands`), parameter ids
  (`config_parameter`, `info_parameter`), and the decisions of a client
  (`usb_timing_box`): the command lines it sends, how received bytes are cut into lines,
  how lines are assembled into a reply, and what each reply means.
- `app/` is the serial-port client around it: it opens the port, moves bytes, sleeps,
  reads the clock, and converts values to floating point and calendar time.
- `tests/` runs the library on the examples of the command reference and more.
