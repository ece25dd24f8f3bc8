# chip8_emulator

A CHIP-8 virtual machine whose core is verified with Verus.

- `src/memory.rs`: memory constants, the return-address stack.
- `src/inout.rs`: font sprites, the display (xor sprite drawing with
  wrap-around and collision detection) and the keypad.
- `src/isa.rs`: the instruction set and the opcode decoder.
- `src/machine.rs`: the abstract machine state and the meaning of each
  instruction, of one cycle, of the timers and of loading a program. The
  instructions follow the original COSMAC VIP: 8XY1-8XY3 clear VF, 8XY6 and
  8XYE shift VY into VX, FX55 and FX65 move the index past the registers.
- `src/chip8.rs`: the executable machine; every operation is proved to act on
  its abstract state as `machine.rs` says.
- `src/laws.rs`: properties that span instructions or calls (a return undoes
  a call, a register load gives back a store, drawing twice restores the
  screen, when a draw collides, timers after many ticks, ...).
- `app/`: the desktop front end (window, keyboard, gamepad, beep).

`Chip8::check_cycle` tells whether the next cycle can run; `emulate_cycle`
requires that it can. `Chip8::run_frame` runs one 60 Hz frame (ten cycles and
a timer tick) and stops at the first cycle that cannot run.
