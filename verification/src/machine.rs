//! The mathematical model of the CHIP-8 machine: an abstract state and the
//! transition function that one executed instruction applies to it.

use vstd::prelude::*;

use crate::instruction::Instruction;
use crate::instruction::spec_decode;

verus! {

/// The abstract machine state. `Chip8` views to this type, and every
/// contract of the executable machine is stated over it.
#[verifier::ext_equal]
pub ghost struct Machine {
    /// 4096 bytes, addressable 0x000-0xFFF; 0x050-0x09F hold the fontset and
    /// the loaded program starts at 0x200.
    pub memory: Seq<u8>,
    /// The 16 general-purpose registers V0-VF; VF doubles as the
    /// carry/borrow/collision flag.
    pub v: Seq<u8>,
    /// The 16-bit address register I.
    pub i: u16,
    /// The program counter.
    pub pc: u16,
    /// The 64x32 monochrome framebuffer, row-major, one byte per pixel.
    pub gfx: Seq<u8>,
    /// Decremented once per tick while nonzero.
    pub delay_timer: u8,
    /// Decremented once per tick while nonzero.
    pub sound_timer: u8,
    /// 16 return addresses.
    pub stack: Seq<u16>,
    /// The number of stack entries in use, 0-16.
    pub sp: u8,
    /// One pressed-state cell per hex key 0x0-0xF; 0 means released.
    pub keypad: Seq<u8>,
}

/// The width of the framebuffer in pixels.
pub open spec fn video_width() -> int {
    64
}

/// The height of the framebuffer in pixels.
pub open spec fn video_height() -> int {
    32
}

impl Machine {
    /// The fixed sizes of the machine's state, and the stack pointer staying
    /// within the 16 stack slots.
    pub open spec fn wf(self) -> bool {
        &&& self.memory.len() == 4096
        &&& self.v.len() == 16
        &&& self.gfx.len() == video_width() * video_height()
        &&& self.stack.len() == 16
        &&& self.keypad.len() == 16
        &&& self.sp <= 16
    }
}

/// A 16-bit value reduced modulo 2^16.
pub open spec fn wrap16(x: int) -> u16 {
    (x % 0x10000) as u16
}

/// An 8-bit value reduced modulo 2^8.
pub open spec fn wrap8(x: int) -> u8 {
    (x % 0x100) as u8
}

/// A memory address reduced to the 4096-byte address space.
pub open spec fn masked(addr: int) -> int {
    addr % 4096
}

/// One tick's timer decrement: down by one while nonzero, floored at zero.
pub open spec fn decayed(t: u8) -> u8 {
    if t > 0 {
        (t - 1) as u8
    } else {
        0
    }
}

/// The 80-byte fontset: 16 glyphs of 5 bytes each for the digits 0-F.
pub open spec fn font_data() -> Seq<u8> {
    seq![
        0xF0u8, 0x90, 0x90, 0x90, 0xF0, // 0
        0x20, 0x60, 0x20, 0x20, 0x70, // 1
        0xF0, 0x10, 0xF0, 0x80, 0xF0, // 2
        0xF0, 0x10, 0xF0, 0x10, 0xF0, // 3
        0x90, 0x90, 0xF0, 0x10, 0x10, // 4
        0xF0, 0x80, 0xF0, 0x10, 0xF0, // 5
        0xF0, 0x80, 0xF0, 0x90, 0xF0, // 6
        0xF0, 0x10, 0x20, 0x40, 0x40, // 7
        0xF0, 0x90, 0xF0, 0x90, 0xF0, // 8
        0xF0, 0x90, 0xF0, 0x10, 0xF0, // 9
        0xF0, 0x90, 0xF0, 0x90, 0x90, // A
        0xE0, 0x90, 0xE0, 0x90, 0xE0, // B
        0xF0, 0x80, 0x80, 0x80, 0xF0, // C
        0xE0, 0x90, 0x90, 0x90, 0xE0, // D
        0xF0, 0x80, 0xF0, 0x80, 0xF0, // E
        0xF0, 0x80, 0xF0, 0x80, 0x80, // F
    ]
}

/// A freshly constructed machine: fontset in memory at 0x50, the program
/// counter at the program start 0x200, and every other cell zero.
pub open spec fn initial_machine() -> Machine {
    Machine {
        memory: Seq::new(
            4096,
            |a: int|
                if 0x50 <= a < 0xA0 {
                    font_data()[a - 0x50]
                } else {
                    0u8
                },
        ),
        v: Seq::new(16, |j: int| 0u8),
        i: 0,
        pc: 0x200,
        gfx: Seq::new((video_width() * video_height()) as nat, |j: int| 0u8),
        delay_timer: 0,
        sound_timer: 0,
        stack: Seq::new(16, |j: int| 0u16),
        sp: 0,
        keypad: Seq::new(16, |j: int| 0u8),
    }
}

/// The 16-bit opcode at the program counter: the high byte first, addresses
/// reduced to the 4096-byte memory.
pub open spec fn fetch16(m: Machine) -> u16 {
    ((m.memory[masked(m.pc as int)] as u16) << 8) | (m.memory[masked(m.pc as int + 1)] as u16)
}

/// The machine after the fetch advanced the program counter by 2.
pub open spec fn advanced(m: Machine) -> Machine {
    Machine { pc: wrap16(m.pc + 2), ..m }
}

/// The index of the lowest pressed key at or above position `k`, or 16 when
/// none of those keys is pressed.
pub open spec fn first_pressed_from(keypad: Seq<u8>, k: int) -> int
    decreases 16 - k,
{
    if k < 0 || k >= 16 {
        16
    } else if keypad[k] != 0 {
        k
    } else {
        first_pressed_from(keypad, k + 1)
    }
}

/// The index of the lowest pressed key, or 16 when no key is pressed.
pub open spec fn first_pressed(keypad: Seq<u8>) -> int {
    first_pressed_from(keypad, 0)
}

/// The sprite row fetched for the given row offset below I.
pub open spec fn sprite_row(mem: Seq<u8>, i: int, row: int) -> u8 {
    mem[masked(i + row)]
}

/// The bit of a sprite byte at the given horizontal offset, most significant
/// bit first.
pub open spec fn sprite_bit(b: u8, bit: int) -> u8 {
    (b >> ((7 - bit) as u8)) & 0x01
}

/// The framebuffer and collision flag after blitting the first `bits` pixels
/// of one sprite row onto screen row `y`, in order of ascending bit index.
/// Each set sprite bit is XORed into the framebuffer, its column wrapping at
/// the right edge, and the flag records whether a lit pixel was erased.
pub open spec fn draw_row_bits(
    g: Seq<u8>,
    coll: bool,
    sprite: u8,
    vx: int,
    y: int,
    bits: int,
) -> (Seq<u8>, bool)
    decreases bits,
{
    if bits <= 0 {
        (g, coll)
    } else {
        let prev = draw_row_bits(g, coll, sprite, vx, y, bits - 1);
        let bit = bits - 1;
        if sprite_bit(sprite, bit) == 1 {
            let idx = (vx + bit) % video_width() + y * video_width();
            (prev.0.update(idx, prev.0[idx] ^ 1), prev.1 || prev.0[idx] == 1)
        } else {
            prev
        }
    }
}

/// The framebuffer and collision flag after blitting the first `rows` rows of
/// the sprite at address `i`, in order of ascending row, each row wrapping at
/// the bottom edge.
pub open spec fn draw_rows(
    g: Seq<u8>,
    coll: bool,
    mem: Seq<u8>,
    i: int,
    vx: int,
    vy: int,
    rows: int,
) -> (Seq<u8>, bool)
    decreases rows,
{
    if rows <= 0 {
        (g, coll)
    } else {
        let prev = draw_rows(g, coll, mem, i, vx, vy, rows - 1);
        let row = rows - 1;
        draw_row_bits(prev.0, prev.1, sprite_row(mem, i, row), vx, (vy + row) % video_height(), 8)
    }
}

/// Memory after the first `count` registers were stored at consecutive
/// addresses from `i` on, each address reduced to the 4096-byte memory.
pub open spec fn regs_dumped(mem: Seq<u8>, v: Seq<u8>, i: int, count: int) -> Seq<u8>
    decreases count,
{
    if count <= 0 {
        mem
    } else {
        regs_dumped(mem, v, i, count - 1).update(masked(i + count - 1), v[count - 1])
    }
}

/// The register file after the first `count` registers were loaded from
/// consecutive addresses from `i` on, each address reduced to the 4096-byte
/// memory.
pub open spec fn regs_loaded(v: Seq<u8>, mem: Seq<u8>, i: int, count: int) -> Seq<u8>
    decreases count,
{
    if count <= 0 {
        v
    } else {
        regs_loaded(v, mem, i, count - 1).update(count - 1, mem[masked(i + count - 1)])
    }
}

/// The two conditions under which executing an instruction must be refused:
/// returning with an empty stack, and calling with all 16 stack slots in use.
pub open spec fn step_faults(m: Machine, ins: Instruction) -> bool {
    ||| (ins is Ret && m.sp == 0)
    ||| (ins is Call && m.sp >= 16)
}

/// The machine after one instruction's effects, given the random byte `rnd`
/// drawn for a `Rand` instruction. Total; on the two fault conditions of
/// `step_faults` the value is not meaningful and the executable machine
/// refuses the instruction instead.
pub open spec fn step(m: Machine, ins: Instruction, rnd: u8) -> Machine {
    match ins {
        Instruction::Cls => Machine {
            gfx: Seq::new((video_width() * video_height()) as nat, |j: int| 0u8),
            ..m
        },
        Instruction::Ret => Machine { sp: (m.sp - 1) as u8, pc: m.stack[m.sp - 1], ..m },
        Instruction::Sys(_) => m,
        Instruction::Jump(addr) => Machine { pc: addr, ..m },
        Instruction::Call(addr) => Machine {
            stack: m.stack.update(m.sp as int, m.pc),
            sp: (m.sp + 1) as u8,
            pc: addr,
            ..m
        },
        Instruction::SkipEqByte(x, b) => if m.v[x as int] == b {
            Machine { pc: wrap16(m.pc + 2), ..m }
        } else {
            m
        },
        Instruction::SkipNeByte(x, b) => if m.v[x as int] != b {
            Machine { pc: wrap16(m.pc + 2), ..m }
        } else {
            m
        },
        Instruction::SkipEqReg(x, y) => if m.v[x as int] == m.v[y as int] {
            Machine { pc: wrap16(m.pc + 2), ..m }
        } else {
            m
        },
        Instruction::LoadByte(x, b) => Machine { v: m.v.update(x as int, b), ..m },
        Instruction::AddByte(x, b) => Machine {
            v: m.v.update(x as int, wrap8(m.v[x as int] + b)),
            ..m
        },
        Instruction::LoadReg(x, y) => Machine { v: m.v.update(x as int, m.v[y as int]), ..m },
        Instruction::OrReg(x, y) => Machine {
            v: m.v.update(x as int, m.v[x as int] | m.v[y as int]),
            ..m
        },
        Instruction::AndReg(x, y) => Machine {
            v: m.v.update(x as int, m.v[x as int] & m.v[y as int]),
            ..m
        },
        Instruction::XorReg(x, y) => Machine {
            v: m.v.update(x as int, m.v[x as int] ^ m.v[y as int]),
            ..m
        },
        Instruction::AddReg(x, y) => {
            let sum = m.v[x as int] + m.v[y as int];
            let flagged = m.v.update(0xF, if sum > 255 { 1u8 } else { 0u8 });
            Machine { v: flagged.update(x as int, wrap8(sum)), ..m }
        },
        Instruction::SubReg(x, y) => {
            let flag = if m.v[x as int] > m.v[y as int] { 1u8 } else { 0u8 };
            let flagged = m.v.update(0xF, flag);
            Machine {
                v: flagged.update(x as int, wrap8(flagged[x as int] - flagged[y as int])),
                ..m
            }
        },
        Instruction::ShrReg(x, _) => {
            let flag = m.v[x as int] % 2;
            let flagged = m.v.update(0xF, flag);
            Machine { v: flagged.update(x as int, flagged[x as int] / 2), ..m }
        },
        Instruction::SubnReg(x, y) => {
            let flag = if m.v[y as int] > m.v[x as int] { 1u8 } else { 0u8 };
            let flagged = m.v.update(0xF, flag);
            Machine {
                v: flagged.update(x as int, wrap8(flagged[y as int] - flagged[x as int])),
                ..m
            }
        },
        Instruction::ShlReg(x, _) => {
            let flag = m.v[x as int] / 128;
            let flagged = m.v.update(0xF, flag);
            Machine { v: flagged.update(x as int, wrap8(flagged[x as int] * 2)), ..m }
        },
        Instruction::SkipNeReg(x, y) => if m.v[x as int] != m.v[y as int] {
            Machine { pc: wrap16(m.pc + 2), ..m }
        } else {
            m
        },
        Instruction::LoadI(addr) => Machine { i: addr, ..m },
        Instruction::JumpV0(addr) => Machine { pc: wrap16(addr + m.v[0]), ..m },
        Instruction::Rand(x, b) => Machine { v: m.v.update(x as int, rnd & b), ..m },
        Instruction::Draw(x, y, n) => {
            let blitted = draw_rows(
                m.gfx,
                false,
                m.memory,
                m.i as int,
                m.v[x as int] as int,
                m.v[y as int] as int,
                n as int,
            );
            Machine {
                gfx: blitted.0,
                v: m.v.update(0xF, if blitted.1 { 1u8 } else { 0u8 }),
                ..m
            }
        },
        Instruction::SkipIfKey(x) => if m.keypad[m.v[x as int] as int % 16] != 0 {
            Machine { pc: wrap16(m.pc + 2), ..m }
        } else {
            m
        },
        Instruction::SkipIfNotKey(x) => if m.keypad[m.v[x as int] as int % 16] == 0 {
            Machine { pc: wrap16(m.pc + 2), ..m }
        } else {
            m
        },
        Instruction::LoadDT(x) => Machine { v: m.v.update(x as int, m.delay_timer), ..m },
        Instruction::WaitKey(x) => {
            let k = first_pressed(m.keypad);
            if k < 16 {
                Machine { v: m.v.update(x as int, k as u8), ..m }
            } else {
                Machine { pc: wrap16(m.pc - 2), ..m }
            }
        },
        Instruction::SetDT(x) => Machine { delay_timer: m.v[x as int], ..m },
        Instruction::SetST(x) => Machine { sound_timer: m.v[x as int], ..m },
        Instruction::AddI(x) => Machine { i: wrap16(m.i + m.v[x as int]), ..m },
        Instruction::LoadSprite(x) => Machine { i: (0x50 + m.v[x as int] * 5) as u16, ..m },
        Instruction::Bcd(x) => {
            let value = m.v[x as int];
            Machine {
                memory: m.memory
                    .update(masked(m.i as int), (value / 100) as u8)
                    .update(masked(m.i as int + 1), ((value % 100) / 10) as u8)
                    .update(masked(m.i as int + 2), (value % 10) as u8),
                ..m
            }
        },
        Instruction::DumpRegs(x) => Machine {
            memory: regs_dumped(m.memory, m.v, m.i as int, x as int + 1),
            ..m
        },
        Instruction::LoadRegs(x) => Machine {
            v: regs_loaded(m.v, m.memory, m.i as int, x as int + 1),
            ..m
        },
        Instruction::NoOp => m,
    }
}

/// The timer decrement that closes every tick.
pub open spec fn apply_timers(m: Machine) -> Machine {
    Machine {
        delay_timer: decayed(m.delay_timer),
        sound_timer: decayed(m.sound_timer),
        ..m
    }
}

/// The instruction a tick of the machine fetches and decodes.
pub open spec fn cur_ins(m: Machine) -> Instruction {
    spec_decode(fetch16(m))
}

/// Whether a tick of the machine runs into a stack fault.
pub open spec fn tick_faults(m: Machine) -> bool {
    step_faults(advanced(m), cur_ins(m))
}

/// One whole tick: fetch and advance, decode, execute with the random byte
/// `rnd`, then decrement both timers.
pub open spec fn tick_step(m: Machine, rnd: u8) -> Machine {
    apply_timers(step(advanced(m), cur_ins(m), rnd))
}

/// Scanning past released keys finds the same key: when the first `k` keys
/// are all released, the lowest pressed key overall is the lowest pressed key
/// at or above `k`.
pub proof fn lemma_first_pressed_prefix(keypad: Seq<u8>, k: int)
    requires
        0 <= k <= 16,
        forall|j: int| 0 <= j < k ==> keypad[j] == 0,
    ensures
        first_pressed(keypad) == first_pressed_from(keypad, k),
    decreases k,
{
    if k > 0 {
        lemma_first_pressed_prefix(keypad, k - 1);
        assert(first_pressed_from(keypad, k - 1) == first_pressed_from(keypad, k));
    }
}

/// Only a `Rand` instruction reads the drawn random byte: every other
/// instruction steps to the same state whatever was drawn.
pub proof fn lemma_step_rnd_irrelevant(m: Machine, ins: Instruction, rnd1: u8, rnd2: u8)
    requires
        !(ins is Rand),
    ensures
        step(m, ins, rnd1) == step(m, ins, rnd2),
{
}

/// Only the delay-timer write `SetDT` touches the delay timer during
/// execution.
proof fn lemma_step_preserves_delay(m: Machine, ins: Instruction, rnd: u8)
    requires
        !(ins is SetDT),
    ensures
        step(m, ins, rnd).delay_timer == m.delay_timer,
{
}

/// Timer decay: whenever the fetched instruction is not the delay-timer
/// write `SetDT`, a tick takes a nonzero delay timer down by exactly one and
/// leaves a zero delay timer at zero; it never underflows.
pub proof fn lemma_tick_timer_decay(m: Machine, rnd: u8)
    requires
        !(cur_ins(m) is SetDT),
    ensures
        m.delay_timer > 0 ==> tick_step(m, rnd).delay_timer == m.delay_timer - 1,
        m.delay_timer == 0 ==> tick_step(m, rnd).delay_timer == 0,
{
    lemma_step_preserves_delay(advanced(m), cur_ins(m), rnd);
}

/// The lowest-pressed-key scan reports what its name says: a pressed key
/// with every lower-indexed key released, or 16 when no key at or above `k`
/// is pressed.
proof fn lemma_first_pressed_from_spec(keypad: Seq<u8>, k: int)
    requires
        0 <= k <= 16,
    ensures
        k <= first_pressed_from(keypad, k) <= 16,
        first_pressed_from(keypad, k) < 16 ==> keypad[first_pressed_from(keypad, k)] != 0,
        forall|j: int| k <= j < first_pressed_from(keypad, k) ==> keypad[j] == 0,
        first_pressed_from(keypad, k) == 16 ==> forall|j: int| k <= j < 16 ==> keypad[j] == 0,
    decreases 16 - k,
{
    if k < 16 && keypad[k] == 0 {
        lemma_first_pressed_from_spec(keypad, k + 1);
    }
}

/// A tick that fetches `WaitKey` while no key is pressed leaves `pc` exactly
/// where it was: the advance of the fetch is undone by the rewind, so the
/// same instruction is fetched again on the next tick.
pub proof fn lemma_wait_key_repeats(m: Machine, rnd: u8, x: u8)
    requires
        cur_ins(m) == Instruction::WaitKey(x),
        forall|j: int| 0 <= j < 16 ==> m.keypad[j] == 0,
    ensures
        tick_step(m, rnd).pc == m.pc,
{
    lemma_first_pressed_prefix(m.keypad, 16);
    let p = m.pc as int;
    if p < 0xFFFE {
        vstd::arithmetic::div_mod::lemma_small_mod((p + 2) as nat, 0x10000);
        vstd::arithmetic::div_mod::lemma_small_mod(p as nat, 0x10000);
    } else {
        assert(p == 0xFFFE || p == 0xFFFF);
    }
}

/// A tick that fetches `WaitKey` while some key is pressed advances `pc`
/// normally and stores the lowest-indexed pressed key into VX; that key is
/// pressed and every key below it is released.
pub proof fn lemma_wait_key_stores_lowest(m: Machine, rnd: u8, x: u8, k: int)
    requires
        m.wf(),
        cur_ins(m) == Instruction::WaitKey(x),
        0 <= k < 16,
        m.keypad[k] != 0,
    ensures
        tick_step(m, rnd).pc == wrap16(m.pc + 2),
        tick_step(m, rnd).v[x as int] == first_pressed(m.keypad),
        m.keypad[first_pressed(m.keypad)] != 0,
        forall|j: int| 0 <= j < first_pressed(m.keypad) ==> m.keypad[j] == 0,
{
    crate::instruction::lemma_op_fields_bounded(fetch16(m));
    lemma_first_pressed_from_spec(m.keypad, 0);
    assert(first_pressed(m.keypad) <= k) by {
        if first_pressed(m.keypad) > k {
            assert(m.keypad[k] == 0);
        }
    }
}

} // verus!
