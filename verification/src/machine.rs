//! The machine state itself: construction, reset, program loading, the
//! host-facing keypad, framebuffer and timer interfaces, and the trusted
//! source of random bytes.
use vstd::prelude::*;
use crate::state::{
    MachineView, view_wf, is_initial, font_seq, FONTSET_START_ADDRESS, MEMORY_SIZE, STACK_DEPTH,
    START_ADDRESS, VIDEO_HEIGHT, VIDEO_WIDTH,
};
use rand::Rng;

verus! {

/// The complete mutable snapshot of the virtual CPU. All state is owned
/// here; the abstract value of a machine is its [`MachineView`].
#[allow(non_camel_case_types)]
pub struct chip8 {
    /// The sixteen general registers; register 15 is the flag register.
    pub registers: Vec<u8>,
    /// The 4096 bytes of memory. The bytes below the program load address
    /// are reserved for the interpreter; the font table lives there.
    pub memory: Vec<u8>,
    /// The 16-bit index register, base address of memory-indexed
    /// instructions. It is not range-checked on assignment; an access
    /// through an out-of-range value is reported, never performed.
    pub index: u16,
    /// The program counter: address of the next instruction to fetch.
    pub pc: u16,
    /// The sixteen call-stack slots of return addresses.
    pub stack: Vec<u16>,
    /// The stack pointer: index of the next free stack slot, 0 to 16.
    pub sp: u8,
    /// The delay timer, decayed once per frame tick.
    pub delay_timer: u8,
    /// The sound timer, decayed once per frame tick; the host drives a
    /// tone while it is nonzero.
    pub sound_timer: u8,
    /// The sixteen key-pressed states, driven by the host input adapter.
    pub keypad: Vec<bool>,
    /// The 64x32 framebuffer, row-major, one lit state per pixel.
    pub video: Vec<bool>,
}

impl View for chip8 {
    type V = MachineView;

    open spec fn view(&self) -> MachineView {
        MachineView {
            regs: self.registers@,
            mem: self.memory@,
            index: self.index,
            pc: self.pc,
            stack: self.stack@,
            sp: self.sp,
            delay: self.delay_timer,
            sound: self.sound_timer,
            keys: self.keypad@,
            video: self.video@,
        }
    }
}

/// A vector of `n` copies of `val`.
fn filled<T: Copy>(val: T, n: usize) -> (v: Vec<T>)
    ensures
        v@ == Seq::new(n as nat, |i: int| val),
{
    let mut v: Vec<T> = Vec::new();
    let mut i: usize = 0;
    while i < n
        invariant
            i <= n,
            v@ == Seq::new(i as nat, |j: int| val),
        decreases n - i,
    {
        v.push(val);
        i = i + 1;
        proof {
            assert(v@ =~= Seq::new(i as nat, |j: int| val));
        }
    }
    v
}

/// The font glyph table as bytes, in the order it is installed in memory.
fn font_bytes() -> (v: Vec<u8>)
    ensures
        v@ == font_seq(),
{
    let mut v: Vec<u8> = Vec::new();
    v.push(0xF0); v.push(0x90); v.push(0x90); v.push(0x90); v.push(0xF0);
    v.push(0x20); v.push(0x60); v.push(0x20); v.push(0x20); v.push(0x70);
    v.push(0xF0); v.push(0x10); v.push(0xF0); v.push(0x80); v.push(0xF0);
    v.push(0xF0); v.push(0x10); v.push(0xF0); v.push(0x10); v.push(0xF0);
    v.push(0x90); v.push(0x90); v.push(0xF0); v.push(0x10); v.push(0x10);
    v.push(0xF0); v.push(0x80); v.push(0xF0); v.push(0x10); v.push(0xF0);
    v.push(0xF0); v.push(0x80); v.push(0xF0); v.push(0x90); v.push(0xF0);
    v.push(0xF0); v.push(0x10); v.push(0x20); v.push(0x40); v.push(0x40);
    v.push(0xF0); v.push(0x90); v.push(0xF0); v.push(0x90); v.push(0xF0);
    v.push(0xF0); v.push(0x90); v.push(0xF0); v.push(0x10); v.push(0xF0);
    v.push(0xF0); v.push(0x90); v.push(0xF0); v.push(0x90); v.push(0x90);
    v.push(0xE0); v.push(0x90); v.push(0xE0); v.push(0x90); v.push(0xE0);
    v.push(0xF0); v.push(0x80); v.push(0x80); v.push(0x80); v.push(0xF0);
    v.push(0xE0); v.push(0x90); v.push(0x90); v.push(0x90); v.push(0xE0);
    v.push(0xF0); v.push(0x80); v.push(0xF0); v.push(0x80); v.push(0xF0);
    v.push(0xF0); v.push(0x80); v.push(0xF0); v.push(0x80); v.push(0x80);
    proof {
        assert(v@ =~= font_seq());
    }
    v
}

impl chip8 {
    /// The machine's collections have their fixed sizes and the stack
    /// pointer is within the sixteen slots.
    pub open spec fn wf(&self) -> bool {
        view_wf(self@)
    }

    /// A fresh machine: everything zeroed except the font table installed
    /// in reserved memory, with the program counter at the load address.
    pub fn new() -> (m: Self)
        ensures
            m.wf(),
            is_initial(m@),
    {
        let mut m = chip8 {
            registers: filled(0u8, 16),
            memory: filled(0u8, MEMORY_SIZE as usize),
            index: 0,
            pc: START_ADDRESS,
            stack: filled(0u16, STACK_DEPTH as usize),
            sp: 0,
            delay_timer: 0,
            sound_timer: 0,
            keypad: filled(false, 16),
            video: filled(false, (VIDEO_WIDTH * VIDEO_HEIGHT) as usize),
        };
        m.load_fontset();
        m
    }

    /// Restore the exact initial condition, discarding all prior
    /// execution effects including the loaded program image.
    pub fn reset(&mut self)
        ensures
            final(self).wf(),
            is_initial(final(self)@),
    {
        self.pc = START_ADDRESS;
        self.sp = 0;
        self.delay_timer = 0;
        self.sound_timer = 0;
        self.keypad = filled(false, 16);
        self.video = filled(false, (VIDEO_WIDTH * VIDEO_HEIGHT) as usize);
        self.registers = filled(0u8, 16);
        self.memory = filled(0u8, MEMORY_SIZE as usize);
        self.stack = filled(0u16, STACK_DEPTH as usize);
        self.index = 0;
        self.load_fontset();
    }

    /// Copy the font glyph table into its reserved memory region, leaving
    /// the rest of memory as it was.
    fn load_fontset(&mut self)
        requires
            old(self)@.mem.len() == MEMORY_SIZE,
        ensures
            final(self)@ == (MachineView {
                mem: Seq::new(
                    MEMORY_SIZE as nat,
                    |a: int| if FONTSET_START_ADDRESS <= a < FONTSET_START_ADDRESS + 80 {
                        font_seq()[a - FONTSET_START_ADDRESS]
                    } else {
                        old(self)@.mem[a]
                    },
                ),
                ..old(self)@
            }),
    {
        let font = font_bytes();
        let base = FONTSET_START_ADDRESS as usize;
        let mut i: usize = 0;
        while i < 80
            invariant
                i <= 80,
                base == FONTSET_START_ADDRESS,
                font@ == font_seq(),
                self.memory@.len() == MEMORY_SIZE,
                self.registers@ == old(self)@.regs,
                self.index == old(self)@.index,
                self.pc == old(self)@.pc,
                self.stack@ == old(self)@.stack,
                self.sp == old(self)@.sp,
                self.delay_timer == old(self)@.delay,
                self.sound_timer == old(self)@.sound,
                self.keypad@ == old(self)@.keys,
                self.video@ == old(self)@.video,
                forall|a: int| 0 <= a < MEMORY_SIZE ==> self.memory@[a] == (
                    if base <= a < base + i {
                        font_seq()[a - base]
                    } else {
                        old(self)@.mem[a]
                    }),
            decreases 80 - i,
        {
            self.memory.set(base + i, font[i]);
            i = i + 1;
        }
        proof {
            assert(self@ =~= (MachineView {
                mem: Seq::new(
                    MEMORY_SIZE as nat,
                    |a: int| if FONTSET_START_ADDRESS <= a < FONTSET_START_ADDRESS + 80 {
                        font_seq()[a - FONTSET_START_ADDRESS]
                    } else {
                        old(self)@.mem[a]
                    },
                ),
                ..old(self)@
            }));
        }
    }

    /// Load a program image verbatim at the program load address, leaving
    /// all other state (and the rest of memory) as it was.
    pub fn load_rom(&mut self, rom: &Vec<u8>)
        requires
            old(self).wf(),
            rom@.len() <= MEMORY_SIZE - START_ADDRESS,
        ensures
            final(self).wf(),
            final(self)@ == (MachineView {
                mem: Seq::new(
                    MEMORY_SIZE as nat,
                    |a: int| if START_ADDRESS <= a < START_ADDRESS + rom@.len() {
                        rom@[a - START_ADDRESS]
                    } else {
                        old(self)@.mem[a]
                    },
                ),
                ..old(self)@
            }),
    {
        let base = START_ADDRESS as usize;
        let mut i: usize = 0;
        while i < rom.len()
            invariant
                i <= rom@.len(),
                rom@.len() <= MEMORY_SIZE - START_ADDRESS,
                base == START_ADDRESS,
                self.memory@.len() == MEMORY_SIZE,
                self.registers@ == old(self)@.regs,
                self.index == old(self)@.index,
                self.pc == old(self)@.pc,
                self.stack@ == old(self)@.stack,
                self.sp == old(self)@.sp,
                self.delay_timer == old(self)@.delay,
                self.sound_timer == old(self)@.sound,
                self.keypad@ == old(self)@.keys,
                self.video@ == old(self)@.video,
                forall|a: int| 0 <= a < MEMORY_SIZE ==> self.memory@[a] == (
                    if base <= a < base + i {
                        rom@[a - base]
                    } else {
                        old(self)@.mem[a]
                    }),
            decreases rom@.len() - i,
        {
            self.memory.set(base + i, rom[i]);
            i = i + 1;
        }
        proof {
            assert(self@ =~= (MachineView {
                mem: Seq::new(
                    MEMORY_SIZE as nat,
                    |a: int| if START_ADDRESS <= a < START_ADDRESS + rom@.len() {
                        rom@[a - START_ADDRESS]
                    } else {
                        old(self)@.mem[a]
                    },
                ),
                ..old(self)@
            }));
        }
    }

    /// Host input adapter entry point: mark one key pressed or released.
    pub fn keypress(&mut self, key: usize, pressed: bool)
        requires
            old(self).wf(),
            key < 16,
        ensures
            final(self).wf(),
            final(self)@ == (MachineView {
                keys: old(self)@.keys.update(key as int, pressed),
                ..old(self)@
            }),
    {
        self.keypad.set(key, pressed);
    }

    /// Host render entry point: the framebuffer, read-only, row-major.
    pub fn get_display(&self) -> (r: &Vec<bool>)
        ensures
            r@ == self@.video,
    {
        &self.video
    }

    /// Decay both timers by one frame tick: each decreases by one while
    /// nonzero and saturates at zero. Independent of instruction rate;
    /// the host calls this once per display frame.
    pub fn decay_timers(&mut self)
        ensures
            final(self)@ == (MachineView {
                delay: if old(self)@.delay > 0 { (old(self)@.delay - 1) as u8 } else { 0 },
                sound: if old(self)@.sound > 0 { (old(self)@.sound - 1) as u8 } else { 0 },
                ..old(self)@
            }),
    {
        if self.delay_timer > 0 {
            self.delay_timer = self.delay_timer - 1;
        }
        if self.sound_timer > 0 {
            self.sound_timer = self.sound_timer - 1;
        }
        proof {
            assert(self@ =~= (MachineView {
                delay: if old(self)@.delay > 0 { (old(self)@.delay - 1) as u8 } else { 0 },
                sound: if old(self)@.sound > 0 { (old(self)@.sound - 1) as u8 } else { 0 },
                ..old(self)@
            }));
        }
    }

    /// One general register's value.
    pub fn get_register(&self, i: usize) -> (r: u8)
        requires
            self.wf(),
            i < 16,
        ensures
            r == self@.regs[i as int],
    {
        self.registers[i]
    }

    /// One byte of memory.
    pub fn get_memory_byte(&self, addr: usize) -> (r: u8)
        requires
            self.wf(),
            addr < MEMORY_SIZE,
        ensures
            r == self@.mem[addr as int],
    {
        self.memory[addr]
    }

    /// The program counter.
    pub fn get_pc(&self) -> (r: u16)
        ensures
            r == self@.pc,
    {
        self.pc
    }

    /// The index register.
    pub fn get_index(&self) -> (r: u16)
        ensures
            r == self@.index,
    {
        self.index
    }

    /// The stack pointer.
    pub fn get_sp(&self) -> (r: u8)
        ensures
            r == self@.sp,
    {
        self.sp
    }

    /// The delay timer's current value.
    pub fn get_delay_timer(&self) -> (r: u8)
        ensures
            r == self@.delay,
    {
        self.delay_timer
    }

    /// Host audio entry point: the sound timer's current value; a tone
    /// plays while it is nonzero.
    pub fn get_sound_timer(&self) -> (r: u8)
        ensures
            r == self@.sound,
    {
        self.sound_timer
    }

    /// Relies on `rand::Rng::gen_range` on the thread-local generator
    /// `rand::rngs::ThreadRng`: a draw, uniform over the inclusive range
    /// 0 to 255. The result depends on the generator's process-local
    /// state, so nothing is promised of it beyond its type.
    #[verifier::external_body]
    pub fn get_random_number(&self) -> u8 {
        rand::thread_rng().gen_range(0..=255u8)
    }
}

} // verus!
