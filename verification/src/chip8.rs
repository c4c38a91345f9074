//! The executable CHIP-8 machine, verified against the model in
//! [`crate::machine`].

use vstd::prelude::*;
use vstd::pervasive::VecAdditionalExecFns;

use crate::instruction::Instruction;
use crate::machine::Machine;
use crate::machine::advanced;
use crate::machine::cur_ins;
use crate::machine::draw_row_bits;
use crate::machine::draw_rows;
use crate::machine::font_data;
use crate::machine::initial_machine;
use crate::machine::lemma_first_pressed_prefix;
use crate::machine::lemma_step_rnd_irrelevant;
use crate::machine::regs_dumped;
use crate::machine::regs_loaded;
use crate::machine::sprite_row;
use crate::machine::step;
use crate::machine::step_faults;
use crate::machine::tick_faults;
use crate::machine::tick_step;
use crate::machine::wrap16;

verus! {

/// The first address of the loaded program, and the reset value of `pc`.
pub const OPS_START_ADDRESS: u16 = 0x200;

/// The first address of the 80-byte fontset.
pub const FONTSET_START_ADDRESS: u16 = 0x50;

/// The size of the fontset in bytes.
pub const FONTSET_SIZE: usize = 80;

/// The width of the framebuffer in pixels.
pub const VIDEO_WIDTH: u16 = 64;

/// The height of the framebuffer in pixels.
pub const VIDEO_HEIGHT: u16 = 32;

/// The conditions the machine refuses instead of corrupting its state: stack
/// misuse during execution, and a program too large to load.
#[derive(Debug, Clone, Copy, PartialEq, Eq, Structural)]
pub enum Fault {
    /// A `Ret` was executed with an empty call stack.
    StackUnderflow,
    /// A `Call` was executed with all 16 stack slots in use.
    StackOverflow,
    /// A program longer than the 0xE00 bytes of memory from 0x200 on.
    RomTooLarge,
}

/// The CHIP-8 machine state. The fields are the concrete counterparts of the
/// abstract [`Machine`], and every method's contract is stated over the view.
#[derive(Debug)]
pub struct Chip8 {
    /// 4096 bytes of memory, addressable 0x000-0xFFF.
    pub memory: Vec<u8>,
    /// The 16 general-purpose registers V0-VF.
    pub v: Vec<u8>,
    /// The 16-bit address register I.
    pub i: u16,
    /// The program counter.
    pub pc: u16,
    /// The 64x32 framebuffer, row-major, one byte per pixel valued 0 or 1.
    pub gfx: Vec<u8>,
    /// Decremented once per tick while nonzero.
    pub delay_timer: u8,
    /// Decremented once per tick while nonzero.
    pub sound_timer: u8,
    /// The 16 return-address slots.
    pub stack: Vec<u16>,
    /// The number of stack slots in use.
    pub sp: u8,
    /// One pressed-state cell per hex key; 0 means released.
    pub keypad: Vec<u8>,
}

impl View for Chip8 {
    type V = Machine;

    open spec fn view(&self) -> Machine {
        Machine {
            memory: self.memory@,
            v: self.v@,
            i: self.i,
            pc: self.pc,
            gfx: self.gfx@,
            delay_timer: self.delay_timer,
            sound_timer: self.sound_timer,
            stack: self.stack@,
            sp: self.sp,
            keypad: self.keypad@,
        }
    }
}

impl Chip8 {
    /// The machine's structural invariant: the fixed sizes of its state and
    /// the stack pointer staying within the stack.
    pub open spec fn wf(&self) -> bool {
        self@.wf()
    }
}

/// A vector of `n` zero bytes.
fn zero_bytes(n: usize) -> (v: Vec<u8>)
    ensures
        v@ == Seq::new(n as nat, |j: int| 0u8),
{
    let mut v: Vec<u8> = Vec::new();
    while v.len() < n
        invariant
            v@.len() <= n,
            forall|k: int| 0 <= k < v@.len() ==> v@[k] == 0u8,
        decreases n - v.len(),
    {
        v.push(0);
    }
    proof {
        assert(v@ =~= Seq::new(n as nat, |j: int| 0u8));
    }
    v
}

/// A vector of `n` zero words.
fn zero_words(n: usize) -> (v: Vec<u16>)
    ensures
        v@ == Seq::new(n as nat, |j: int| 0u16),
{
    let mut v: Vec<u16> = Vec::new();
    while v.len() < n
        invariant
            v@.len() <= n,
            forall|k: int| 0 <= k < v@.len() ==> v@[k] == 0u16,
        decreases n - v.len(),
    {
        v.push(0);
    }
    proof {
        assert(v@ =~= Seq::new(n as nat, |j: int| 0u16));
    }
    v
}

/// The 80 fontset bytes, 5 bytes per glyph for the digits 0-F.
fn font_bytes() -> (f: Vec<u8>)
    ensures
        f@ == font_data(),
{
    let f: Vec<u8> = vec![
        0xF0, 0x90, 0x90, 0x90, 0xF0, // 0
        0x20, 0x60, 0x20, 0x20, 0x70, // 1
        0xF0, 0x10, 0xF0, 0x80, 0xF0, // 2
        0xF0, 0x10, 0xF0, 0x10, 0xF0, // 3
        0x90, 0x90, 0xF0, 0x10, 0x10, // 4
        0xF0, 0x80, 0xF0, 0x10, 0xF0, // 5
        0xF0, 0x80, 0xF0, 0x90, 0xF0, // 6
        0xF0, 0x10, 0x20, 0x40, 0x40, // 7
        0xF0, 0x90, 0xF0, 0x90, 0xF0, // 8
        0xF0, 0x90, 0xF0, 0x10, 0xF0, // 9
        0xF0, 0x90, 0xF0, 0x90, 0x90, // A
        0xE0, 0x90, 0xE0, 0x90, 0xE0, // B
        0xF0, 0x80, 0x80, 0x80, 0xF0, // C
        0xE0, 0x90, 0x90, 0x90, 0xE0, // D
        0xF0, 0x80, 0xF0, 0x80, 0xF0, // E
        0xF0, 0x80, 0xF0, 0x80, 0x80, // F
    ];
    proof {
        assert(f@ =~= font_data());
    }
    f
}

impl Chip8 {
    /// A freshly constructed machine: fontset loaded at 0x50, `pc` at the
    /// program start 0x200, and everything else zeroed.
    pub fn new() -> (c: Chip8)
        ensures
            c.wf(),
            c@ == initial_machine(),
    {
        let mut memory = zero_bytes(4096);
        let font = font_bytes();
        let mut j: usize = 0;
        while j < FONTSET_SIZE
            invariant
                memory@.len() == 4096,
                font@ == font_data(),
                j <= 80,
                forall|k: int|
                    0x50 <= k < 0x50 + j ==> memory@[k] == font_data()[k - 0x50],
                forall|k: int|
                    0 <= k < 4096 && !(0x50 <= k < 0x50 + j) ==> memory@[k] == 0u8,
            decreases 80 - j,
        {
            memory.set(0x50 + j, font[j]);
            j += 1;
        }
        let c = Chip8 {
            memory,
            v: zero_bytes(16),
            i: 0,
            pc: OPS_START_ADDRESS,
            gfx: zero_bytes(64 * 32),
            delay_timer: 0,
            sound_timer: 0,
            stack: zero_words(16),
            sp: 0,
            keypad: zero_bytes(16),
        };
        proof {
            assert(c@.memory =~= initial_machine().memory);
            assert(c@ =~= initial_machine());
        }
        c
    }

    /// Copies a program into memory starting at 0x200 and touches nothing
    /// else: afterwards the memory from 0x200 holds exactly the given bytes.
    /// The caller guarantees the program fits below the end of memory.
    pub fn load_rom(&mut self, bytes: &Vec<u8>)
        requires
            old(self).wf(),
            0x200 + bytes@.len() <= 4096,
        ensures
            final(self).wf(),
            final(self)@.memory.subrange(0x200, 0x200 + bytes@.len() as int) == bytes@,
            forall|a: int|
                0 <= a < 4096 && !(0x200 <= a < 0x200 + bytes@.len()) ==> final(self)@.memory[a]
                    == old(self)@.memory[a],
            final(self)@ == (Machine { memory: final(self)@.memory, ..old(self)@ }),
    {
        let mut j: usize = 0;
        while j < bytes.len()
            invariant
                self.wf(),
                0x200 + bytes@.len() <= 4096,
                j <= bytes@.len(),
                forall|k: int| 0 <= k < j ==> self@.memory[0x200 + k] == bytes@[k],
                forall|a: int|
                    0 <= a < 4096 && !(0x200 <= a < 0x200 + j) ==> self@.memory[a]
                        == old(self)@.memory[a],
                self@ == (Machine { memory: self@.memory, ..old(self)@ }),
            decreases bytes@.len() - j,
        {
            self.memory.set(0x200 + j, bytes[j]);
            j += 1;
        }
        proof {
            assert(self@.memory.subrange(0x200, 0x200 + bytes@.len() as int) =~= bytes@);
        }
    }

    /// Loads a program if it fits, and refuses it with `Fault::RomTooLarge`,
    /// leaving the machine untouched, exactly when it does not.
    pub fn load_rom_checked(&mut self, bytes: &Vec<u8>) -> (r: Result<(), Fault>)
        requires
            old(self).wf(),
        ensures
            final(self).wf(),
            r is Ok <==> 0x200 + bytes@.len() <= 4096,
            r is Ok ==> final(self)@.memory.subrange(0x200, 0x200 + bytes@.len() as int) == bytes@
                && (forall|a: int|
                    0 <= a < 4096 && !(0x200 <= a < 0x200 + bytes@.len()) ==> final(self)@.memory[a]
                        == old(self)@.memory[a]) && final(self)@ == (Machine {
                memory: final(self)@.memory,
                ..old(self)@
            }),
            r is Err ==> r == Err::<(), Fault>(Fault::RomTooLarge) && final(self)@ == old(self)@,
    {
        if bytes.len() > 4096 - 0x200 {
            return Err(Fault::RomTooLarge);
        }
        self.load_rom(bytes);
        Ok(())
    }

    /// Fetches the two bytes at `pc` (reduced to the 4096-byte memory),
    /// advances `pc` by 2 modulo 2^16, and decodes the fetched opcode.
    pub fn pop_opcode(&mut self) -> (ins: Instruction)
        requires
            old(self).wf(),
        ensures
            final(self).wf(),
            ins == cur_ins(old(self)@),
            ins.wf(),
            final(self)@ == advanced(old(self)@),
    {
        let high_byte = self.memory[self.pc as usize % 4096];
        let low_byte = self.memory[(self.pc as usize + 1) % 4096];
        let next: u32 = self.pc as u32 + 2;
        self.pc = (next % 0x10000) as u16;
        let val: u16 = ((high_byte as u16) << 8) | (low_byte as u16);
        proof {
            assert(self@ =~= advanced(old(self)@));
        }
        Instruction::decode(val)
    }

    /// Records a key press or release for the given key.
    pub fn keypress(&mut self, key: usize, pressed: bool)
        requires
            old(self).wf(),
            key < 16,
        ensures
            final(self).wf(),
            final(self)@ == (Machine {
                keypad: old(self)@.keypad.update(key as int, if pressed { 1u8 } else { 0u8 }),
                ..old(self)@
            }),
    {
        self.keypad.set(key, if pressed { 1 } else { 0 });
    }

    /// Reads the framebuffer cell at column `x`, row `y`.
    pub fn pixel_at(&self, x: u16, y: u16) -> (p: u8)
        requires
            self.wf(),
            x < 64,
            y < 32,
        ensures
            p == self@.gfx[y as int * 64 + x as int],
    {
        self.gfx[(y * 64 + x) as usize]
    }

    /// Advances `pc` past the next instruction, wrapping modulo 2^16.
    fn skip_next(&mut self)
        requires
            old(self).wf(),
        ensures
            final(self).wf(),
            final(self)@ == (Machine { pc: wrap16(old(self)@.pc + 2), ..old(self)@ }),
    {
        let next: u32 = self.pc as u32 + 2;
        self.pc = (next % 0x10000) as u16;
    }

    /// Restores a subtraction wrapped modulo 2^16 to its mathematical form.
    proof fn lemma_wrap16_shift(b: int)
        ensures
            (0x10000 + b) % 0x10000 == b % 0x10000,
    {
        vstd::arithmetic::div_mod::lemma_mod_add_multiples_vanish(b, 0x10000);
    }

    /// Restores a subtraction wrapped modulo 2^8 to its mathematical form.
    proof fn lemma_wrap8_shift(b: int)
        ensures
            (0x100 + b) % 0x100 == b % 0x100,
    {
        vstd::arithmetic::div_mod::lemma_mod_add_multiples_vanish(b, 0x100);
    }

    /// `Ret`: pops the return address, or refuses on an empty stack.
    fn op_ret(&mut self) -> (r: Result<(), Fault>)
        requires
            old(self).wf(),
        ensures
            final(self).wf(),
            old(self)@.sp == 0 ==> r == Err::<(), Fault>(Fault::StackUnderflow) && final(self)@
                == old(self)@,
            old(self)@.sp > 0 ==> r == Ok::<(), Fault>(()) && final(self)@ == step(
                old(self)@,
                Instruction::Ret,
                0,
            ),
    {
        if self.sp == 0 {
            return Err(Fault::StackUnderflow);
        }
        self.sp = self.sp - 1;
        self.pc = self.stack[self.sp as usize];
        Ok(())
    }

    /// `Call`: pushes the current `pc` and jumps, or refuses on a full stack.
    fn op_call(&mut self, addr: u16) -> (r: Result<(), Fault>)
        requires
            old(self).wf(),
        ensures
            final(self).wf(),
            old(self)@.sp >= 16 ==> r == Err::<(), Fault>(Fault::StackOverflow) && final(self)@
                == old(self)@,
            old(self)@.sp < 16 ==> r == Ok::<(), Fault>(()) && final(self)@ == step(
                old(self)@,
                Instruction::Call(addr),
                0,
            ),
    {
        if self.sp >= 16 {
            return Err(Fault::StackOverflow);
        }
        self.stack.set(self.sp as usize, self.pc);
        self.sp = self.sp + 1;
        self.pc = addr;
        Ok(())
    }

    /// The jump and skip instructions: they read state and move `pc`.
    fn exec_branch(&mut self, ins: Instruction)
        requires
            old(self).wf(),
            ins.wf(),
            ins is Jump || ins is JumpV0 || ins is Sys || ins is NoOp || ins is SkipEqByte
                || ins is SkipNeByte || ins is SkipEqReg || ins is SkipNeReg || ins is SkipIfKey
                || ins is SkipIfNotKey,
        ensures
            final(self).wf(),
            final(self)@ == step(old(self)@, ins, 0),
    {
        match ins {
            Instruction::Sys(_) => {},
            Instruction::Jump(addr) => {
                self.pc = addr;
            },
            Instruction::JumpV0(addr) => {
                self.pc = addr + self.v[0] as u16;
            },
            Instruction::SkipEqByte(x, b) => {
                if self.v[x as usize] == b {
                    self.skip_next();
                }
            },
            Instruction::SkipNeByte(x, b) => {
                if self.v[x as usize] != b {
                    self.skip_next();
                }
            },
            Instruction::SkipEqReg(x, y) => {
                if self.v[x as usize] == self.v[y as usize] {
                    self.skip_next();
                }
            },
            Instruction::SkipNeReg(x, y) => {
                if self.v[x as usize] != self.v[y as usize] {
                    self.skip_next();
                }
            },
            Instruction::SkipIfKey(x) => {
                let key = (self.v[x as usize] % 16) as usize;
                if self.keypad[key] != 0 {
                    self.skip_next();
                }
            },
            Instruction::SkipIfNotKey(x) => {
                let key = (self.v[x as usize] % 16) as usize;
                if self.keypad[key] == 0 {
                    self.skip_next();
                }
            },
            Instruction::NoOp => {},
            _ => {
                proof {
                    assert(false);
                }
            },
        }
    }

    /// The register instructions: loads, bitwise combinations, the flagged
    /// arithmetic and shifts, the masked random byte, and the delay-timer
    /// read. Only these write the register file directly.
    #[verifier::rlimit(30)]
    fn exec_alu(&mut self, ins: Instruction, rnd: u8)
        requires
            old(self).wf(),
            ins.wf(),
            ins is LoadByte || ins is AddByte || ins is LoadReg || ins is OrReg || ins is AndReg
                || ins is XorReg || ins is AddReg || ins is SubReg || ins is ShrReg
                || ins is SubnReg || ins is ShlReg || ins is Rand || ins is LoadDT,
        ensures
            final(self).wf(),
            final(self)@ == step(old(self)@, ins, rnd),
    {
        match ins {
            Instruction::LoadByte(x, b) => {
                self.v.set(x as usize, b);
            },
            Instruction::AddByte(x, b) => {
                let sum: u16 = self.v[x as usize] as u16 + b as u16;
                self.v.set(x as usize, (sum % 256) as u8);
            },
            Instruction::LoadReg(x, y) => {
                let value = self.v[y as usize];
                self.v.set(x as usize, value);
            },
            Instruction::OrReg(x, y) => {
                let value = self.v[x as usize] | self.v[y as usize];
                self.v.set(x as usize, value);
            },
            Instruction::AndReg(x, y) => {
                let value = self.v[x as usize] & self.v[y as usize];
                self.v.set(x as usize, value);
            },
            Instruction::XorReg(x, y) => {
                let value = self.v[x as usize] ^ self.v[y as usize];
                self.v.set(x as usize, value);
            },
            Instruction::AddReg(x, y) => {
                let sum: u16 = self.v[x as usize] as u16 + self.v[y as usize] as u16;
                let carry: u8 = if sum > 255 { 1 } else { 0 };
                self.v.set(0x0F, carry);
                self.v.set(x as usize, (sum % 256) as u8);
                proof {
                    assert(self@ =~= step(old(self)@, ins, rnd));
                }
            },
            Instruction::SubReg(x, y) => {
                let flag: u8 = if self.v[x as usize] > self.v[y as usize] { 1 } else { 0 };
                self.v.set(0x0F, flag);
                let a = self.v[x as usize];
                let b = self.v[y as usize];
                let diff: u16 = a as u16 + 256 - b as u16;
                self.v.set(x as usize, (diff % 256) as u8);
                proof {
                    Self::lemma_wrap8_shift(a as int - b as int);
                    assert(self@ =~= step(old(self)@, ins, rnd));
                }
            },
            Instruction::ShrReg(x, _) => {
                let flag: u8 = self.v[x as usize] % 2;
                self.v.set(0x0F, flag);
                let value = self.v[x as usize];
                self.v.set(x as usize, value / 2);
                proof {
                    assert(self@ =~= step(old(self)@, ins, rnd));
                }
            },
            Instruction::SubnReg(x, y) => {
                let flag: u8 = if self.v[y as usize] > self.v[x as usize] { 1 } else { 0 };
                self.v.set(0x0F, flag);
                let a = self.v[x as usize];
                let b = self.v[y as usize];
                let diff: u16 = b as u16 + 256 - a as u16;
                self.v.set(x as usize, (diff % 256) as u8);
                proof {
                    Self::lemma_wrap8_shift(b as int - a as int);
                    assert(self@ =~= step(old(self)@, ins, rnd));
                }
            },
            Instruction::ShlReg(x, _) => {
                let flag: u8 = self.v[x as usize] / 128;
                self.v.set(0x0F, flag);
                let value = self.v[x as usize];
                let doubled: u16 = value as u16 * 2;
                self.v.set(x as usize, (doubled % 256) as u8);
                proof {
                    assert(self@ =~= step(old(self)@, ins, rnd));
                }
            },
            Instruction::Rand(x, b) => {
                self.v.set(x as usize, rnd & b);
            },
            Instruction::LoadDT(x) => {
                let value = self.delay_timer;
                self.v.set(x as usize, value);
            },
            _ => {
                proof {
                    assert(false);
                }
            },
        }
    }

    /// The instructions around memory and the timers: the display clear, the
    /// index-register loads, the BCD store, the register dump and load, and
    /// the timer writes.
    #[verifier::rlimit(30)]
    fn exec_store(&mut self, ins: Instruction)
        requires
            old(self).wf(),
            ins.wf(),
            ins is Cls || ins is LoadI || ins is AddI || ins is LoadSprite || ins is SetDT
                || ins is SetST || ins is Bcd || ins is DumpRegs || ins is LoadRegs,
        ensures
            final(self).wf(),
            final(self)@ == step(old(self)@, ins, 0),
    {
        match ins {
            Instruction::Cls => {
                self.gfx = zero_bytes(64 * 32);
                proof {
                    assert(self@ =~= step(old(self)@, ins, 0));
                }
            },
            Instruction::LoadI(addr) => {
                self.i = addr;
            },
            Instruction::AddI(x) => {
                let next: u32 = self.i as u32 + self.v[x as usize] as u32;
                self.i = (next % 0x10000) as u16;
            },
            Instruction::LoadSprite(x) => {
                self.i = FONTSET_START_ADDRESS + (self.v[x as usize] as u16) * 5;
            },
            Instruction::SetDT(x) => {
                self.delay_timer = self.v[x as usize];
            },
            Instruction::SetST(x) => {
                self.sound_timer = self.v[x as usize];
            },
            Instruction::Bcd(x) => {
                let value = self.v[x as usize];
                self.memory.set(self.i as usize % 4096, value / 100);
                self.memory.set((self.i as usize + 1) % 4096, (value % 100) / 10);
                self.memory.set((self.i as usize + 2) % 4096, value % 10);
                proof {
                    assert(self@ =~= step(old(self)@, ins, 0));
                }
            },
            Instruction::DumpRegs(x) => {
                let mut k: usize = 0;
                while k <= x as usize
                    invariant
                        self.wf(),
                        old(self).wf(),
                        x <= 0xF,
                        k <= x as usize + 1,
                        self@.memory == regs_dumped(
                            old(self)@.memory,
                            old(self)@.v,
                            old(self)@.i as int,
                            k as int,
                        ),
                        self@ == (Machine { memory: self@.memory, ..old(self)@ }),
                    decreases x as usize + 1 - k,
                {
                    let addr = (self.i as usize + k) % 4096;
                    let value = self.v[k];
                    self.memory.set(addr, value);
                    k += 1;
                }
                proof {
                    assert(self@ =~= step(old(self)@, ins, 0));
                }
            },
            Instruction::LoadRegs(x) => {
                let mut k: usize = 0;
                while k <= x as usize
                    invariant
                        self.wf(),
                        old(self).wf(),
                        x <= 0xF,
                        k <= x as usize + 1,
                        self@.v == regs_loaded(
                            old(self)@.v,
                            old(self)@.memory,
                            old(self)@.i as int,
                            k as int,
                        ),
                        self@ == (Machine { v: self@.v, ..old(self)@ }),
                    decreases x as usize + 1 - k,
                {
                    let addr = (self.i as usize + k) % 4096;
                    let value = self.memory[addr];
                    self.v.set(k, value);
                    k += 1;
                }
                proof {
                    assert(self@ =~= step(old(self)@, ins, 0));
                }
            },
            _ => {
                proof {
                    assert(false);
                }
            },
        }
    }

    /// `Draw`: XOR-blits an `n`-row sprite from address I at (VX, VY), with
    /// wrapping coordinates, and records in VF whether any lit pixel was
    /// erased.
    #[verifier::rlimit(30)]
    fn op_draw(&mut self, x: u8, y: u8, n: u8)
        requires
            old(self).wf(),
            x <= 0xF,
            y <= 0xF,
            n <= 0xF,
        ensures
            final(self).wf(),
            final(self)@ == step(old(self)@, Instruction::Draw(x, y, n), 0),
    {
        let vx = self.v[x as usize];
        let vy = self.v[y as usize];
        self.v.set(0x0F, 0);
        let mut row: u8 = 0;
        while row < n
            invariant
                self.wf(),
                old(self).wf(),
                x <= 0xF,
                y <= 0xF,
                n <= 0xF,
                row <= n,
                vx == old(self)@.v[x as int],
                vy == old(self)@.v[y as int],
                ({
                    let p = draw_rows(
                        old(self)@.gfx,
                        false,
                        old(self)@.memory,
                        old(self)@.i as int,
                        vx as int,
                        vy as int,
                        row as int,
                    );
                    self@.gfx == p.0 && self@.v == old(self)@.v.update(
                        0xF,
                        if p.1 { 1u8 } else { 0u8 },
                    )
                }),
                self@ == (Machine { gfx: self@.gfx, v: self@.v, ..old(self)@ }),
            decreases n - row,
        {
            let sprite = self.memory[(self.i as usize + row as usize) % 4096];
            let ycoord: usize = (vy as usize + row as usize) % 32;
            let mut bit: u8 = 0;
            while bit < 8
                invariant
                    self.wf(),
                    old(self).wf(),
                    x <= 0xF,
                    y <= 0xF,
                    n <= 0xF,
                    row < n,
                    bit <= 8,
                    vx == old(self)@.v[x as int],
                    vy == old(self)@.v[y as int],
                    sprite == sprite_row(old(self)@.memory, old(self)@.i as int, row as int),
                    ycoord as int == (vy as int + row as int) % 32,
                    ({
                        let p = draw_rows(
                            old(self)@.gfx,
                            false,
                            old(self)@.memory,
                            old(self)@.i as int,
                            vx as int,
                            vy as int,
                            row as int,
                        );
                        let q = draw_row_bits(p.0, p.1, sprite, vx as int, ycoord as int, bit as int);
                        self@.gfx == q.0 && self@.v == old(self)@.v.update(
                            0xF,
                            if q.1 { 1u8 } else { 0u8 },
                        )
                    }),
                    self@ == (Machine { gfx: self@.gfx, v: self@.v, ..old(self)@ }),
                decreases 8 - bit,
            {
                let pixel = (sprite >> (7 - bit)) & 0x01;
                if pixel == 1 {
                    let xcoord: usize = (vx as usize + bit as usize) % 64;
                    let idx: usize = xcoord + ycoord * 64;
                    if self.gfx[idx] == 1 {
                        self.v.set(0x0F, 1);
                        proof {
                            assert(self@.v =~= old(self)@.v.update(0xF, 1u8));
                        }
                    }
                    let cell = self.gfx[idx];
                    self.gfx.set(idx, cell ^ 1);
                }
                bit += 1;
            }
            row += 1;
        }
        proof {
            assert(self@ =~= step(old(self)@, Instruction::Draw(x, y, n), 0));
        }
    }

    /// `WaitKey`: stores the lowest-indexed pressed key into VX, or, with no
    /// key pressed, rewinds `pc` by 2 so the same instruction is fetched
    /// again on the next tick.
    fn op_wait_key(&mut self, x: u8)
        requires
            old(self).wf(),
            x <= 0xF,
        ensures
            final(self).wf(),
            final(self)@ == step(old(self)@, Instruction::WaitKey(x), 0),
    {
        let mut k: usize = 0;
        while k < 16
            invariant
                self.wf(),
                old(self).wf(),
                x <= 0xF,
                k <= 16,
                self@ == old(self)@,
                forall|j: int| 0 <= j < k ==> self@.keypad[j] == 0,
            decreases 16 - k,
        {
            if self.keypad[k] != 0 {
                self.v.set(x as usize, k as u8);
                proof {
                    lemma_first_pressed_prefix(old(self)@.keypad, k as int);
                    assert(self@ =~= step(old(self)@, Instruction::WaitKey(x), 0));
                }
                return ;
            }
            k += 1;
        }
        let next: u32 = self.pc as u32 + 0x10000 - 2;
        self.pc = (next % 0x10000) as u16;
        proof {
            lemma_first_pressed_prefix(old(self)@.keypad, 16);
            Self::lemma_wrap16_shift(old(self)@.pc - 2);
            assert(self@ =~= step(old(self)@, Instruction::WaitKey(x), 0));
        }
    }

    /// Applies one instruction's effects to the machine in place, with `rnd`
    /// standing for the byte a `Rand` instruction draws; every other
    /// instruction ignores it. Refuses `Ret` on an empty stack and `Call`
    /// with all 16 slots in use, leaving the state untouched.
    pub fn execute_with(&mut self, ins: Instruction, rnd: u8) -> (r: Result<(), Fault>)
        requires
            old(self).wf(),
            ins.wf(),
        ensures
            final(self).wf(),
            !step_faults(old(self)@, ins) ==> r == Ok::<(), Fault>(()) && final(self)@ == step(
                old(self)@,
                ins,
                rnd,
            ),
            ins is Ret && old(self)@.sp == 0 ==> r == Err::<(), Fault>(Fault::StackUnderflow)
                && final(self)@ == old(self)@,
            ins is Call && old(self)@.sp >= 16 ==> r == Err::<(), Fault>(Fault::StackOverflow)
                && final(self)@ == old(self)@,
    {
        match ins {
            Instruction::Ret => {
                let r = self.op_ret();
                proof {
                    lemma_step_rnd_irrelevant(old(self)@, ins, 0, rnd);
                }
                r
            },
            Instruction::Call(addr) => {
                let r = self.op_call(addr);
                proof {
                    lemma_step_rnd_irrelevant(old(self)@, ins, 0, rnd);
                }
                r
            },
            Instruction::Jump(_) | Instruction::JumpV0(_) | Instruction::Sys(_)
                | Instruction::NoOp | Instruction::SkipEqByte(_, _) | Instruction::SkipNeByte(
                _,
                _,
            ) | Instruction::SkipEqReg(_, _) | Instruction::SkipNeReg(_, _)
                | Instruction::SkipIfKey(_) | Instruction::SkipIfNotKey(_) => {
                self.exec_branch(ins);
                proof {
                    lemma_step_rnd_irrelevant(old(self)@, ins, 0, rnd);
                }
                Ok(())
            },
            Instruction::LoadByte(_, _) | Instruction::AddByte(_, _) | Instruction::LoadReg(
                _,
                _,
            ) | Instruction::OrReg(_, _) | Instruction::AndReg(_, _) | Instruction::XorReg(_, _)
                | Instruction::AddReg(_, _) | Instruction::SubReg(_, _) | Instruction::ShrReg(
                _,
                _,
            ) | Instruction::SubnReg(_, _) | Instruction::ShlReg(_, _) | Instruction::Rand(_, _)
                | Instruction::LoadDT(_) => {
                self.exec_alu(ins, rnd);
                Ok(())
            },
            Instruction::Cls | Instruction::LoadI(_) | Instruction::AddI(_)
                | Instruction::LoadSprite(_) | Instruction::SetDT(_) | Instruction::SetST(_)
                | Instruction::Bcd(_) | Instruction::DumpRegs(_) | Instruction::LoadRegs(_) => {
                self.exec_store(ins);
                proof {
                    lemma_step_rnd_irrelevant(old(self)@, ins, 0, rnd);
                }
                Ok(())
            },
            Instruction::Draw(x, y, n) => {
                self.op_draw(x, y, n);
                proof {
                    lemma_step_rnd_irrelevant(old(self)@, ins, 0, rnd);
                }
                Ok(())
            },
            Instruction::WaitKey(x) => {
                self.op_wait_key(x);
                proof {
                    lemma_step_rnd_irrelevant(old(self)@, ins, 0, rnd);
                }
                Ok(())
            },
        }
    }

    /// Applies one instruction's effects, drawing the byte a `Rand`
    /// instruction needs from the generator; every other instruction steps
    /// deterministically.
    pub fn execute(&mut self, ins: Instruction) -> (r: Result<(), Fault>)
        requires
            old(self).wf(),
            ins.wf(),
        ensures
            final(self).wf(),
            !step_faults(old(self)@, ins) ==> r == Ok::<(), Fault>(()) && (exists|rnd: u8|
                final(self)@ == step(old(self)@, ins, rnd)),
            !step_faults(old(self)@, ins) && !(ins is Rand) ==> final(self)@ == step(
                old(self)@,
                ins,
                0,
            ),
            ins is Ret && old(self)@.sp == 0 ==> r == Err::<(), Fault>(Fault::StackUnderflow)
                && final(self)@ == old(self)@,
            ins is Call && old(self)@.sp >= 16 ==> r == Err::<(), Fault>(Fault::StackOverflow)
                && final(self)@ == old(self)@,
    {
        let rnd: u8 = rand::random();
        let r = self.execute_with(ins, rnd);
        proof {
            if !step_faults(old(self)@, ins) {
                assert(self@ == step(old(self)@, ins, rnd));
                if !(ins is Rand) {
                    lemma_step_rnd_irrelevant(old(self)@, ins, rnd, 0);
                }
            }
        }
        r
    }

    /// One tick with the random byte given by the caller: fetch the opcode at
    /// `pc` and advance `pc`, decode, execute, then decrement both timers.
    /// On a stack fault the instruction is refused and the timers keep their
    /// values; only the fetch has advanced `pc`.
    pub fn tick_with(&mut self, entropy: u8) -> (r: Result<(), Fault>)
        requires
            old(self).wf(),
        ensures
            final(self).wf(),
            !tick_faults(old(self)@) ==> r == Ok::<(), Fault>(()) && final(self)@ == tick_step(
                old(self)@,
                entropy,
            ),
            tick_faults(old(self)@) ==> r is Err && final(self)@ == advanced(old(self)@),
            cur_ins(old(self)@) is Ret && old(self)@.sp == 0 ==> r == Err::<(), Fault>(
                Fault::StackUnderflow,
            ),
            cur_ins(old(self)@) is Call && old(self)@.sp >= 16 ==> r == Err::<(), Fault>(
                Fault::StackOverflow,
            ),
    {
        let ins = self.pop_opcode();
        let res = self.execute_with(ins, entropy);
        match res {
            Err(f) => {
                return Err(f);
            },
            Ok(()) => {},
        }
        if self.delay_timer > 0 {
            self.delay_timer = self.delay_timer - 1;
        }
        if self.sound_timer > 0 {
            self.sound_timer = self.sound_timer - 1;
        }
        proof {
            assert(self@ =~= tick_step(old(self)@, entropy));
        }
        Ok(())
    }

    /// One tick of the machine: fetch, decode, execute, then decrement both
    /// timers, drawing from the generator the byte a `Rand` instruction
    /// consumes; a tick of any other instruction is deterministic.
    pub fn tick(&mut self) -> (r: Result<(), Fault>)
        requires
            old(self).wf(),
        ensures
            final(self).wf(),
            !tick_faults(old(self)@) ==> r == Ok::<(), Fault>(()) && (exists|rnd: u8|
                final(self)@ == tick_step(old(self)@, rnd)),
            !tick_faults(old(self)@) && !(cur_ins(old(self)@) is Rand) ==> final(self)@
                == tick_step(old(self)@, 0),
            tick_faults(old(self)@) ==> r is Err && final(self)@ == advanced(old(self)@),
    {
        let entropy: u8 = rand::random();
        let r = self.tick_with(entropy);
        proof {
            if !tick_faults(old(self)@) {
                assert(self@ == tick_step(old(self)@, entropy));
                if !(cur_ins(old(self)@) is Rand) {
                    lemma_step_rnd_irrelevant(
                        advanced(old(self)@),
                        cur_ins(old(self)@),
                        entropy,
                        0,
                    );
                }
            }
        }
        r
    }

}

/// Relies on rand::random, a sample of the thread-local generator: nothing is
/// promised of the value drawn.
pub assume_specification<T>[ rand::random::<T> ]() -> (r: T)
    where
        rand::distributions::Standard: rand::distributions::Distribution<T>,
;

} // verus!
