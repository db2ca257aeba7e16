//! The mathematical model of the machine: an abstract snapshot of every
//! component (registers, memory, index register, program counter, call
//! stack, timers, keypad, framebuffer), the well-formedness invariant,
//! the built-in font table, and the initial state.
use vstd::prelude::*;

verus! {

/// Width of the framebuffer in pixels.
pub const VIDEO_WIDTH: u16 = 64;

/// Height of the framebuffer in pixels.
pub const VIDEO_HEIGHT: u16 = 32;

/// Number of bytes of machine memory.
pub const MEMORY_SIZE: u16 = 4096;

/// Memory address at which the font glyph table is installed.
pub const FONTSET_START_ADDRESS: u16 = 0x50;

/// Memory address at which a loaded program begins; the program counter
/// starts here.
pub const START_ADDRESS: u16 = 0x200;

/// Number of call-stack slots.
pub const STACK_DEPTH: u16 = 16;

/// A diagnosable event reported by one execution step. An unknown opcode
/// is a no-op with the counter already advanced, so execution may simply
/// continue past it; the others leave the machine exactly as it was.
#[derive(Clone, Copy, Debug, PartialEq, Eq, Structural)]
pub enum StepError {
    /// The instruction's bit pattern is not one of the 35 defined opcodes.
    UnknownOpcode { higher_byte: u8, lower_byte: u8 },
    /// A call was made with all sixteen stack slots in use.
    StackOverflow,
    /// A return was executed with no call pending.
    StackUnderflow,
    /// The instruction would have read or written past the 4096 bytes of
    /// memory (a fetch at the top of memory, or an index register too
    /// close to the top for the access).
    MemoryOutOfBounds,
    /// A key-sense instruction named a key index above 15.
    KeyOutOfRange,
}

/// Abstract snapshot of the whole machine: the value of every component,
/// with collections as mathematical sequences.
#[verifier::ext_equal]
pub struct MachineView {
    /// The sixteen general registers; index 15 is the flag register.
    pub regs: Seq<u8>,
    /// The 4096 bytes of memory.
    pub mem: Seq<u8>,
    /// The 16-bit index register.
    pub index: u16,
    /// The program counter.
    pub pc: u16,
    /// The sixteen call-stack slots.
    pub stack: Seq<u16>,
    /// The stack pointer: index of the next free stack slot.
    pub sp: u8,
    /// The delay timer.
    pub delay: u8,
    /// The sound timer.
    pub sound: u8,
    /// The sixteen key-pressed states.
    pub keys: Seq<bool>,
    /// The 64x32 framebuffer, row-major: pixel (row, col) is at
    /// index `row * 64 + col`.
    pub video: Seq<bool>,
}

/// Every collection has its fixed size and the stack pointer stays within
/// the sixteen stack slots.
pub open spec fn view_wf(m: MachineView) -> bool {
    &&& m.regs.len() == 16
    &&& m.mem.len() == MEMORY_SIZE
    &&& m.stack.len() == STACK_DEPTH
    &&& m.keys.len() == 16
    &&& m.video.len() == VIDEO_WIDTH * VIDEO_HEIGHT
    &&& m.sp <= STACK_DEPTH
}

/// The sixteen built-in 5-byte font glyphs for the hex digits 0 to F,
/// in digit order.
pub open spec fn font_seq() -> Seq<u8> {
    seq![
        0xF0, 0x90, 0x90, 0x90, 0xF0,
        0x20, 0x60, 0x20, 0x20, 0x70,
        0xF0, 0x10, 0xF0, 0x80, 0xF0,
        0xF0, 0x10, 0xF0, 0x10, 0xF0,
        0x90, 0x90, 0xF0, 0x10, 0x10,
        0xF0, 0x80, 0xF0, 0x10, 0xF0,
        0xF0, 0x80, 0xF0, 0x90, 0xF0,
        0xF0, 0x10, 0x20, 0x40, 0x40,
        0xF0, 0x90, 0xF0, 0x90, 0xF0,
        0xF0, 0x90, 0xF0, 0x10, 0xF0,
        0xF0, 0x90, 0xF0, 0x90, 0x90,
        0xE0, 0x90, 0xE0, 0x90, 0xE0,
        0xF0, 0x80, 0x80, 0x80, 0xF0,
        0xE0, 0x90, 0x90, 0x90, 0xE0,
        0xF0, 0x80, 0xF0, 0x80, 0xF0,
        0xF0, 0x80, 0xF0, 0x80, 0x80,
    ]
}

/// What memory holds right after construction or reset: all zero except
/// the font table, which occupies the 80 bytes from the font base address.
pub open spec fn initial_mem_byte(a: int) -> u8 {
    if FONTSET_START_ADDRESS <= a < FONTSET_START_ADDRESS + 80 {
        font_seq()[a - FONTSET_START_ADDRESS]
    } else {
        0
    }
}

/// The machine as constructed and as restored by a reset: everything
/// zeroed except the installed font table, with the program counter at
/// the program load address.
pub open spec fn is_initial(m: MachineView) -> bool {
    &&& view_wf(m)
    &&& m.regs == Seq::new(16, |i: int| 0u8)
    &&& forall|a: int| 0 <= a < MEMORY_SIZE ==> m.mem[a] == initial_mem_byte(a)
    &&& m.index == 0
    &&& m.pc == START_ADDRESS
    &&& m.stack == Seq::new(STACK_DEPTH as nat, |i: int| 0u16)
    &&& m.sp == 0
    &&& m.delay == 0
    &&& m.sound == 0
    &&& m.keys == Seq::new(16, |i: int| false)
    &&& m.video == Seq::new((VIDEO_WIDTH * VIDEO_HEIGHT) as nat, |i: int| false)
}

} // verus!
