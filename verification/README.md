# chip8

The core of a CHIP-8 interpreter, verified with Verus.

- `src/spec.rs`: the abstract machine state and the meaning of every
  instruction, of the fetch/execute/timer cycle, of loading bytes into memory
  and of the frame buffer.
- `src/chip_8.rs`: `Memory`, the executable machine, whose operations are
  proved to follow `spec.rs`, and the checks that tell whether a cycle can run.
- `src/loading.rs`: the program image type.
- `src/laws.rs`: properties of the instruction set proved over the spec.
- `src/random.rs`: the one call into `rand`.
- `app/main.rs`: the window, keyboard and ROM file, using `minifb`.
