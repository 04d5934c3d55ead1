# vibe-hal

The hardware abstraction layer of VibeBuddy OS, written in Verus.

- `src/` is the verified library: the hardware descriptor of a robot form and the
  invariant checks every descriptor passes (`descriptor`), the comparison of joint limits
  held as IEEE-754 binary64 bit patterns (`limit_bits`), the motor-bus error vocabulary
  (`bus`), the camera capability contract (`device`), and the decisions of the bus-scan
  field tool (`scan`: its command line, and the cross-check of the ids that answered
  against a descriptor).
- `app/` is the `vibe-scan` program and everything that needs I/O, serde, or
  floating-point values: reading and decoding manifest files, the serde shapes of the
  descriptor types (converted to and from the library's), the error display texts, the
  motor-bus and float-carrying device traits, and the serial-port ping loop.
- `tests/` exercises the library on concrete descriptors and command lines.
