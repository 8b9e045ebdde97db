# chip8-emu

A CHIP-8 interpreter core whose behaviour is specified and proved with Verus.

- `src/cpu.rs` — the machine (`Chip8`), its mathematical view (`Chip8State`),
  and fetch / decode (`decode`, `decode_full`) /
  execute, each with a contract over `decode_spec` and `execute_spec`.
- `src/frame.rs` — one step (`step`), one 60 Hz frame of ten steps and a
  timer tick (`run_frame`), and the 10x scaled framebuffer (`render_scaled`).
- `src/sprite.rs` — the DXYN drawing model: sprite pixels, wrapped screen
  positions, XOR drawing and collision, with the lemmas behind it.
- `src/laws.rs` — properties that span several operations (CALL/RET,
  drawing twice, drawing on a blank screen, collisions, BCD, block transfers, runs of
  instructions, decoded field ranges, ...).
- `src/config.rs` — `Chip8Config`, the quirk presets (modern and legacy).
- `src/instruction.rs` — `Instruction`, the 35 standard opcodes (shifts in an in-place and a two-register form).
- `src/constants.rs` — memory layout, display size and the built-in font.
- `app/main.rs` — arguments, the ROM file, the minifb window and keyboard.

Run a ROM with `chip8-emu path/to/rom.ch8`; `Escape` quits.
