use vstd::prelude::*;

verus! {

/// Bytes of addressable RAM (0x000 ..= 0xFFF).
pub const MEMORY_SIZE: usize = 4096;

/// Display width in pixels.
pub const DISPLAY_WIDTH: usize = 64;

/// Display height in pixels.
pub const DISPLAY_HEIGHT: usize = 32;

/// Window pixels per display pixel, in each direction.
pub const SCALE: usize = 10;

/// Width of the scaled framebuffer in window pixels.
pub const WINDOW_WIDTH: usize = 640;

/// Height of the scaled framebuffer in window pixels.
pub const WINDOW_HEIGHT: usize = 320;

/// Window pixels of the scaled framebuffer.
pub const FRAMEBUFFER_SIZE: usize = 204800;

/// CPU steps run per 60 Hz frame.
pub const CYCLES_PER_FRAME: usize = 10;

/// Framebuffer color of a lit pixel (0x00RRGGBB).
pub const COLOR_ON: u32 = 0xFFFFFF;

/// Framebuffer color of a dark pixel.
pub const COLOR_OFF: u32 = 0x000000;

/// Number of pixels of the display, one `bool` each.
pub const DISPLAY_SIZE: usize = 2048;

/// General purpose registers V0 ..= VF.
pub const NUM_REGISTERS: usize = 16;

/// Keys of the hexadecimal keypad.
pub const NUM_KEYS: usize = 16;

/// Address at which programs are loaded and execution starts.
pub const ROM_START: u16 = 0x200;

/// Largest program that fits between `ROM_START` and the end of RAM.
pub const MAX_ROM_SIZE: usize = 3584;

/// Levels of nested subroutine calls.
pub const STACK_SIZE: usize = 16;

/// Number of built-in hexadecimal digit glyphs (0 ..= F).
pub const FONT_CHARS: usize = 16;

/// Bytes per built-in glyph (8x5 pixels).
pub const FONT_BYTES_PER_CHAR: usize = 5;

/// Size in bytes of the built-in font.
pub const FONTSET_SIZE: usize = 80;

/// Address at which the built-in font is stored.
pub const FONTSET_START: usize = 0x000;

/// The glyphs of the hexadecimal digits 0 ..= F, five bytes each.
pub open spec fn fontset() -> Seq<u8> {
    seq![
        0xF0u8, 0x90, 0x90, 0x90, 0xF0, // 0
        0x20, 0x60, 0x20, 0x20, 0x70, // 1
        0xF0, 0x10, 0xF0, 0x80, 0xF0, // 2
        0xF0, 0x10, 0xF0, 0x10, 0xF0, // 3
        0x90, 0x90, 0xF0, 0x10, 0x10, // 4
        0xF0, 0x80, 0xF0, 0x10, 0xF0, // 5
        0xF0, 0x80, 0xF0, 0x90, 0xF0, // 6
        0xF0, 0x10, 0x20, 0x40, 0x40, // 7
        0xF0, 0x90, 0xF0, 0x90, 0xF0, // 8
        0xF0, 0x90, 0xF0, 0x10, 0xF0, // 9
        0xF0, 0x90, 0xF0, 0x90, 0x90, // A
        0xE0, 0x90, 0xE0, 0x90, 0xE0, // B
        0xF0, 0x80, 0x80, 0x80, 0xF0, // C
        0xE0, 0x90, 0x90, 0x90, 0xE0, // D
        0xF0, 0x80, 0xF0, 0x80, 0xF0, // E
        0xF0, 0x80, 0xF0, 0x80, 0x80, // F
    ]
}

/// The built-in font as an array, equal to `fontset()`.
pub fn fontset_bytes() -> (font: [u8; FONTSET_SIZE])
    ensures
        font@ == fontset(),
{
    let font: [u8; FONTSET_SIZE] = [
        0xF0, 0x90, 0x90, 0x90, 0xF0, // 0
        0x20, 0x60, 0x20, 0x20, 0x70, // 1
        0xF0, 0x10, 0xF0, 0x80, 0xF0, // 2
        0xF0, 0x10, 0xF0, 0x10, 0xF0, // 3
        0x90, 0x90, 0xF0, 0x10, 0x10, // 4
        0xF0, 0x80, 0xF0, 0x10, 0xF0, // 5
        0xF0, 0x80, 0xF0, 0x90, 0xF0, // 6
        0xF0, 0x10, 0x20, 0x40, 0x40, // 7
        0xF0, 0x90, 0xF0, 0x90, 0xF0, // 8
        0xF0, 0x90, 0xF0, 0x10, 0xF0, // 9
        0xF0, 0x90, 0xF0, 0x90, 0x90, // A
        0xE0, 0x90, 0xE0, 0x90, 0xE0, // B
        0xF0, 0x80, 0x80, 0x80, 0xF0, // C
        0xE0, 0x90, 0x90, 0x90, 0xE0, // D
        0xF0, 0x80, 0xF0, 0x80, 0xF0, // E
        0xF0, 0x80, 0xF0, 0x80, 0x80, // F
    ];
    assert(font@ =~= fontset());
    font
}

} // verus!
