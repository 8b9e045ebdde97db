use vstd::prelude::*;

verus! {

/// Configures behavioral quirks of the CHIP-8 CPU.
///
/// Each flag controls one behavioral difference between the 1977
/// COSMAC VIP interpreter and modern CHIP-48/SCHIP-era interpreters.
///
/// `Chip8Config::default()` gives the modern behavior and
/// `Chip8Config::legacy()` the 1977 COSMAC VIP behavior; a machine takes its
/// configuration in `Chip8::with_config`, and `Chip8::new()` enables no quirk.
#[derive(Debug, PartialEq, Eq, Structural)]
pub struct Chip8Config {
    /// Shift source register for 8XY6 (SHR) and 8XYE (SHL).
    ///
    /// - `true` (legacy): reads from Vy, shifts it, stores the result in Vx;
    ///   VF = lost bit of Vy.
    /// - `false` (modern/default): shifts Vx in place, Vy is ignored;
    ///   VF = lost bit of Vx.
    pub shift_uses_vy: bool,

    /// Whether FX55 (store) and FX65 (load) advance the I register.
    ///
    /// - `true` (legacy): I is incremented by X+1 after the operation.
    /// - `false` (modern/default): I is left unchanged.
    pub load_store_increments_i: bool,

    /// Offset register used by the BNNN / BXNN jump instruction.
    ///
    /// - `false` (legacy): PC = NNN + V0.
    /// - `true` (modern/default): PC = XNN + VX (X is nibble 2 of the opcode).
    pub jump_v0_uses_vx: bool,

    /// Sprite drawing behavior when pixels reach the screen edge (DXYN).
    ///
    /// - `true` (legacy): pixels beyond the screen boundaries are clipped.
    /// - `false` (modern/default): pixels wrap around to the opposite edge.
    pub clip_sprites: bool,

    /// VF register behavior after logical OR / AND / XOR (8XY1 / 8XY2 / 8XY3).
    ///
    /// - `true` (legacy): VF is reset to 0 after the operation.
    /// - `false` (modern/default): VF is unchanged after the operation.
    pub reset_vf_after_logical: bool,
}

impl Chip8Config {
    /// The modern (CHIP-48/SCHIP era) flag values.
    pub open spec fn spec_modern() -> Chip8Config {
        Chip8Config {
            shift_uses_vy: false,
            load_store_increments_i: false,
            jump_v0_uses_vx: true,
            clip_sprites: false,
            reset_vf_after_logical: false,
        }
    }

    /// Every flag off: no quirk in effect.
    pub open spec fn spec_no_quirks() -> Chip8Config {
        Chip8Config {
            shift_uses_vy: false,
            load_store_increments_i: false,
            jump_v0_uses_vx: false,
            clip_sprites: false,
            reset_vf_after_logical: false,
        }
    }

    /// The 1977 COSMAC VIP flag values.
    pub open spec fn spec_legacy() -> Chip8Config {
        Chip8Config {
            shift_uses_vy: true,
            load_store_increments_i: true,
            jump_v0_uses_vx: false,
            clip_sprites: true,
            reset_vf_after_logical: true,
        }
    }

    /// Returns a configuration matching the 1977 COSMAC VIP interpreter.
    pub fn legacy() -> (config: Self)
        ensures
            config == Self::spec_legacy(),
            config.shift_uses_vy && config.load_store_increments_i && !config.jump_v0_uses_vx
                && config.clip_sprites && config.reset_vf_after_logical,
    {
        Self {
            shift_uses_vy: true,
            load_store_increments_i: true,
            jump_v0_uses_vx: false,
            clip_sprites: true,
            reset_vf_after_logical: true,
        }
    }
}

impl Default for Chip8Config {
    /// Returns the modern (CHIP-48/SCHIP era) configuration.
    fn default() -> (config: Self)
        ensures
            config == Self::spec_modern(),
            !config.shift_uses_vy && !config.load_store_increments_i && config.jump_v0_uses_vx
                && !config.clip_sprites && !config.reset_vf_after_logical,
    {
        Self {
            shift_uses_vy: false,
            load_store_increments_i: false,
            jump_v0_uses_vx: true,
            clip_sprites: false,
            reset_vf_after_logical: false,
        }
    }
}

} // verus!
