use crate::display::{blank_grid, draw_collision, draw_result, Display};
use crate::keypad::Keypad;
use vstd::prelude::*;

verus! {

/// Number of addressable memory cells.
pub const MEMORY_SIZE: usize = 4096;

/// Number of general-purpose registers.
pub const N_REGISTERS: usize = 16;

/// Number of return-address slots in the call stack.
pub const STACK_SIZE: usize = 16;

/// First address of the region a program image is loaded into.
pub const PROGRAM_START: usize = 0x200;

/// Base address of the system font glyphs. The loader must place the glyphs
/// there; this core only computes addresses into the region.
pub const FONT_BASE: u16 = 0;

/// Size in bytes of one font glyph.
pub const FONT_GLYPH_SIZE: u16 = 5;

/// Highest nibble of an opcode.
pub open spec fn nib1(op: u16) -> u16 {
    (op >> 12) & 0xF
}

/// Second nibble of an opcode: the `x` register field.
pub open spec fn nib2(op: u16) -> u16 {
    (op >> 8) & 0xF
}

/// Third nibble of an opcode: the `y` register field.
pub open spec fn nib3(op: u16) -> u16 {
    (op >> 4) & 0xF
}

/// Lowest nibble of an opcode.
pub open spec fn nib4(op: u16) -> u16 {
    op & 0xF
}

/// The 8-bit immediate held in an opcode's low byte.
pub open spec fn imm8(op: u16) -> u8 {
    (op & 0xFF) as u8
}

/// The 12-bit address held in an opcode's low three nibbles.
pub open spec fn imm12(op: u16) -> u16 {
    op & 0xFFF
}

/// Reduction of a value into the 8-bit register range.
pub open spec fn wrap8(v: int) -> u8 {
    (v % 256) as u8
}

/// Reduction of a value into the 16-bit register range.
pub open spec fn wrap16(v: int) -> u16 {
    (v % 0x10000) as u16
}

/// The lowest pressed key at or after index `k`, or 16 when none is pressed.
pub open spec fn first_pressed_from(keys: Seq<bool>, k: int) -> int
    decreases 16 - k,
{
    if k < 0 || k >= 16 {
        16
    } else if keys[k] {
        k
    } else {
        first_pressed_from(keys, k + 1)
    }
}

/// The lowest pressed key, or 16 when none is pressed.
pub open spec fn first_pressed(keys: Seq<bool>) -> int {
    first_pressed_from(keys, 0)
}

/// The fatal faults a single decode-execute step can report. A faulted step
/// leaves the machine state unchanged; the host decides whether to halt.
#[derive(Clone, Copy, Debug, PartialEq, Eq, Structural)]
pub enum Fault {
    /// A return was executed with an empty call stack.
    StackUnderflow,
    /// A call was executed with all 16 stack slots in use.
    StackOverflow,
    /// An index-register-relative access reached past the 4096 memory cells.
    MemoryOutOfBounds,
    /// A key-state query named a key index above 15.
    KeyOutOfRange,
}

/// The mathematical model of the whole machine state.
pub ghost struct CpuView {
    pub memory: Seq<u8>,
    pub regs: Seq<u8>,
    pub stack: Seq<u16>,
    pub pc: u16,
    pub sp: u8,
    pub delay: u8,
    pub sound: u8,
    pub index: u16,
    pub display: Seq<bool>,
    pub keys: Seq<bool>,
}

impl CpuView {
    /// Well-formedness: every state container has its architectural size and
    /// the stack pointer stays within the 16 slots.
    pub open spec fn wf(self) -> bool {
        &&& self.memory.len() == 4096
        &&& self.regs.len() == 16
        &&& self.stack.len() == 16
        &&& self.display.len() == 2048
        &&& self.keys.len() == 16
        &&& self.sp <= 16
    }
}

/// Memory after storing registers 0 through `x` inclusive at addresses
/// `i0` through `i0 + x`.
pub open spec fn block_stored(mem: Seq<u8>, regs: Seq<u8>, i0: int, x: int) -> Seq<u8> {
    Seq::new(mem.len(), |a: int| if i0 <= a <= i0 + x { regs[a - i0] } else { mem[a] })
}

/// Registers after loading registers 0 through `x` inclusive from addresses
/// `i0` through `i0 + x`.
pub open spec fn block_loaded(regs: Seq<u8>, mem: Seq<u8>, i0: int, x: int) -> Seq<u8> {
    Seq::new(regs.len(), |r: int| if r <= x { mem[i0 + r] } else { regs[r] })
}

/// Outcome of the sprite-draw rule: reads `n` sprite rows at the index
/// register, XOR-composites them at `(Vx, Vy)`, and records the collision in
/// VF. Faults when the sprite region reaches past memory.
pub open spec fn draw_step(pre: CpuView, x: int, y: int, n: int) -> (CpuView, Result<(), Fault>) {
    if pre.index + n > 4096 {
        (pre, Err(Fault::MemoryOutOfBounds))
    } else {
        let rows = pre.memory.subrange(pre.index as int, pre.index + n);
        let coll = draw_collision(pre.display, pre.regs[x], pre.regs[y], rows);
        (
            CpuView {
                display: draw_result(pre.display, pre.regs[x], pre.regs[y], rows),
                regs: pre.regs.update(15, if coll { 1u8 } else { 0u8 }),
                pc: wrap16(pre.pc + 2),
                ..pre
            },
            Ok(()),
        )
    }
}

/// Outcome of the block-store rule: registers 0 through `x` inclusive go to
/// memory at the index register. Faults when the block reaches past memory.
pub open spec fn store_block_step(pre: CpuView, x: int) -> (CpuView, Result<(), Fault>) {
    if pre.index + x >= 4096 {
        (pre, Err(Fault::MemoryOutOfBounds))
    } else {
        (
            CpuView {
                memory: block_stored(pre.memory, pre.regs, pre.index as int, x),
                pc: wrap16(pre.pc + 2),
                ..pre
            },
            Ok(()),
        )
    }
}

/// Outcome of the block-load rule: memory at the index register fills
/// registers 0 through `x` inclusive. Faults when the block reaches past
/// memory.
pub open spec fn load_block_step(pre: CpuView, x: int) -> (CpuView, Result<(), Fault>) {
    if pre.index + x >= 4096 {
        (pre, Err(Fault::MemoryOutOfBounds))
    } else {
        (
            CpuView {
                regs: block_loaded(pre.regs, pre.memory, pre.index as int, x),
                pc: wrap16(pre.pc + 2),
                ..pre
            },
            Ok(()),
        )
    }
}

/// Outcome of the key-wait rule: with no key pressed the state is left
/// untouched, so the host re-issues the same step until a key arrives; once
/// one is pressed, the lowest pressed index goes to Vx and the step
/// completes.
pub open spec fn wait_key_step(pre: CpuView, x: int) -> (CpuView, Result<(), Fault>) {
    let k = first_pressed(pre.keys);
    if k == 16 {
        (pre, Ok(()))
    } else {
        (CpuView { regs: pre.regs.update(x, k as u8), pc: wrap16(pre.pc + 2), ..pre }, Ok(()))
    }
}

/// The decode-execute transition: the machine state after interpreting one
/// opcode, together with the step's outcome. `rnd` is the byte the random
/// source supplied; only the random-mask rule reads it. A faulted step
/// returns the state unchanged.
pub open spec fn step_spec(pre: CpuView, op: u16, rnd: u8) -> (CpuView, Result<(), Fault>) {
    let x = nib2(op) as int;
    let y = nib3(op) as int;
    let n = nib4(op) as int;
    let kk = imm8(op);
    let nnn = imm12(op);
    if nib1(op) == 0x0 && nib2(op) == 0x0 && nib3(op) == 0xE && nib4(op) == 0x0 {
        // 00E0: clear the display.
        (CpuView { display: blank_grid(), pc: wrap16(pre.pc + 2), ..pre }, Ok(()))
    } else if nib1(op) == 0x0 && nib2(op) == 0x0 && nib3(op) == 0xE && nib4(op) == 0xE {
        // 00EE: pop the stack into the program counter.
        if pre.sp == 0 {
            (pre, Err(Fault::StackUnderflow))
        } else {
            (CpuView { pc: pre.stack[pre.sp - 1], sp: (pre.sp - 1) as u8, ..pre }, Ok(()))
        }
    } else if nib1(op) == 0x1 {
        // 1nnn: jump.
        (CpuView { pc: nnn, ..pre }, Ok(()))
    } else if nib1(op) == 0x2 {
        // 2nnn: call; the pushed address already points past the call.
        if pre.sp >= 16 {
            (pre, Err(Fault::StackOverflow))
        } else {
            (
                CpuView {
                    stack: pre.stack.update(pre.sp as int, wrap16(pre.pc + 2)),
                    sp: (pre.sp + 1) as u8,
                    pc: nnn,
                    ..pre
                },
                Ok(()),
            )
        }
    } else if nib1(op) == 0x3 {
        // 3xkk: skip next when Vx == kk.
        (CpuView { pc: wrap16(pre.pc + if pre.regs[x] == kk { 4int } else { 2 }), ..pre }, Ok(()))
    } else if nib1(op) == 0x4 {
        // 4xkk: skip next when Vx != kk.
        (CpuView { pc: wrap16(pre.pc + if pre.regs[x] != kk { 4int } else { 2 }), ..pre }, Ok(()))
    } else if nib1(op) == 0x5 && nib4(op) == 0x0 {
        // 5xy0: skip next when Vx == Vy.
        (
            CpuView { pc: wrap16(pre.pc + if pre.regs[x] == pre.regs[y] { 4int } else { 2 }), ..pre },
            Ok(()),
        )
    } else if nib1(op) == 0x6 {
        // 6xkk: load immediate.
        (CpuView { regs: pre.regs.update(x, kk), pc: wrap16(pre.pc + 2), ..pre }, Ok(()))
    } else if nib1(op) == 0x7 {
        // 7xkk: add immediate, 8-bit wraparound, no flag.
        (
            CpuView {
                regs: pre.regs.update(x, wrap8(pre.regs[x] + kk)),
                pc: wrap16(pre.pc + 2),
                ..pre
            },
            Ok(()),
        )
    } else if nib1(op) == 0x8 && nib4(op) == 0x0 {
        // 8xy0: assign.
        (CpuView { regs: pre.regs.update(x, pre.regs[y]), pc: wrap16(pre.pc + 2), ..pre }, Ok(()))
    } else if nib1(op) == 0x8 && nib4(op) == 0x1 {
        // 8xy1: bitwise OR.
        (
            CpuView {
                regs: pre.regs.update(x, pre.regs[x] | pre.regs[y]),
                pc: wrap16(pre.pc + 2),
                ..pre
            },
            Ok(()),
        )
    } else if nib1(op) == 0x8 && nib4(op) == 0x2 {
        // 8xy2: bitwise AND.
        (
            CpuView {
                regs: pre.regs.update(x, pre.regs[x] & pre.regs[y]),
                pc: wrap16(pre.pc + 2),
                ..pre
            },
            Ok(()),
        )
    } else if nib1(op) == 0x8 && nib4(op) == 0x3 {
        // 8xy3: bitwise XOR.
        (
            CpuView {
                regs: pre.regs.update(x, pre.regs[x] ^ pre.regs[y]),
                pc: wrap16(pre.pc + 2),
                ..pre
            },
            Ok(()),
        )
    } else if nib1(op) == 0x8 && nib4(op) == 0x4 {
        // 8xy4: add with the carry flag in VF; the sum is read before the
        // flag is written, the flag wins when x is 15.
        let sum = pre.regs[x] + pre.regs[y];
        (
            CpuView {
                regs: pre.regs.update(15, if sum > 255 { 1u8 } else { 0u8 }).update(x, wrap8(sum)),
                pc: wrap16(pre.pc + 2),
                ..pre
            },
            Ok(()),
        )
    } else if nib1(op) == 0x8 && nib4(op) == 0x5 {
        // 8xy5: subtract with the borrow flag in VF, set when Vx < Vy; the
        // flag is written before the operands are re-read.
        let flag = if pre.regs[x] < pre.regs[y] { 1u8 } else { 0u8 };
        let regs1 = pre.regs.update(15, flag);
        (
            CpuView {
                regs: regs1.update(x, wrap8(regs1[x] - regs1[y])),
                pc: wrap16(pre.pc + 2),
                ..pre
            },
            Ok(()),
        )
    } else if nib1(op) == 0x8 && nib4(op) == 0x6 {
        // 8xy6: shift right, least significant bit into VF.
        let flag = pre.regs[x] & 1;
        let regs1 = pre.regs.update(15, flag);
        (
            CpuView { regs: regs1.update(x, (regs1[x] / 2) as u8), pc: wrap16(pre.pc + 2), ..pre },
            Ok(()),
        )
    } else if nib1(op) == 0x8 && nib4(op) == 0x7 {
        // 8xy7: reverse subtract with the borrow flag in VF, set when
        // Vx < Vy; the flag is written before the operands are re-read.
        let flag = if pre.regs[x] < pre.regs[y] { 1u8 } else { 0u8 };
        let regs1 = pre.regs.update(15, flag);
        (
            CpuView {
                regs: regs1.update(x, wrap8(regs1[y] - regs1[x])),
                pc: wrap16(pre.pc + 2),
                ..pre
            },
            Ok(()),
        )
    } else if nib1(op) == 0x8 && nib4(op) == 0xE {
        // 8xyE: shift left, most significant bit into VF.
        let flag = pre.regs[x] >> 7;
        let regs1 = pre.regs.update(15, flag);
        (
            CpuView {
                regs: regs1.update(x, wrap8(regs1[x] * 2)),
                pc: wrap16(pre.pc + 2),
                ..pre
            },
            Ok(()),
        )
    } else if nib1(op) == 0x9 && nib4(op) == 0x0 {
        // 9xy0: skip next when Vx != Vy.
        (
            CpuView { pc: wrap16(pre.pc + if pre.regs[x] != pre.regs[y] { 4int } else { 2 }), ..pre },
            Ok(()),
        )
    } else if nib1(op) == 0xA {
        // Annn: load the index register.
        (CpuView { index: nnn, pc: wrap16(pre.pc + 2), ..pre }, Ok(()))
    } else if nib1(op) == 0xB {
        // Bnnn: jump to nnn plus V0.
        (CpuView { pc: (nnn + pre.regs[0]) as u16, ..pre }, Ok(()))
    } else if nib1(op) == 0xC {
        // Cxkk: random byte masked by kk.
        (CpuView { regs: pre.regs.update(x, rnd & kk), pc: wrap16(pre.pc + 2), ..pre }, Ok(()))
    } else if nib1(op) == 0xD {
        // Dxyn: draw an n-row sprite read at the index register.
        draw_step(pre, x, y, n)
    } else if nib1(op) == 0xE && nib3(op) == 0x9 && nib4(op) == 0xE {
        // Ex9E: skip next when key Vx is pressed.
        if pre.regs[x] >= 16 {
            (pre, Err(Fault::KeyOutOfRange))
        } else {
            (
                CpuView {
                    pc: wrap16(pre.pc + if pre.keys[pre.regs[x] as int] { 4int } else { 2 }),
                    ..pre
                },
                Ok(()),
            )
        }
    } else if nib1(op) == 0xE && nib3(op) == 0xA && nib4(op) == 0x1 {
        // ExA1: skip next when key Vx is not pressed.
        if pre.regs[x] >= 16 {
            (pre, Err(Fault::KeyOutOfRange))
        } else {
            (
                CpuView {
                    pc: wrap16(pre.pc + if !pre.keys[pre.regs[x] as int] { 4int } else { 2 }),
                    ..pre
                },
                Ok(()),
            )
        }
    } else if nib1(op) == 0xF && nib3(op) == 0x0 && nib4(op) == 0x7 {
        // Fx07: read the delay timer.
        (CpuView { regs: pre.regs.update(x, pre.delay), pc: wrap16(pre.pc + 2), ..pre }, Ok(()))
    } else if nib1(op) == 0xF && nib3(op) == 0x0 && nib4(op) == 0xA {
        // Fx0A: wait for a key press.
        wait_key_step(pre, x)
    } else if nib1(op) == 0xF && nib3(op) == 0x1 && nib4(op) == 0x5 {
        // Fx15: set the delay timer.
        (CpuView { delay: pre.regs[x], pc: wrap16(pre.pc + 2), ..pre }, Ok(()))
    } else if nib1(op) == 0xF && nib3(op) == 0x1 && nib4(op) == 0x8 {
        // Fx18: set the sound timer.
        (CpuView { sound: pre.regs[x], pc: wrap16(pre.pc + 2), ..pre }, Ok(()))
    } else if nib1(op) == 0xF && nib3(op) == 0x1 && nib4(op) == 0xE {
        // Fx1E: add Vx into the index register, 16-bit wraparound.
        (CpuView { index: wrap16(pre.index + pre.regs[x]), pc: wrap16(pre.pc + 2), ..pre }, Ok(()))
    } else if nib1(op) == 0xF && nib3(op) == 0x2 && nib4(op) == 0x9 {
        // Fx29: point the index register at the font glyph for Vx.
        (
            CpuView {
                index: (FONT_BASE + pre.regs[x] * FONT_GLYPH_SIZE) as u16,
                pc: wrap16(pre.pc + 2),
                ..pre
            },
            Ok(()),
        )
    } else if nib1(op) == 0xF && nib3(op) == 0x3 && nib4(op) == 0x3 {
        // Fx33: store the BCD digits of Vx.
        if pre.index + 2 >= 4096 {
            (pre, Err(Fault::MemoryOutOfBounds))
        } else {
            let v = pre.regs[x];
            (
                CpuView {
                    memory: pre.memory.update(pre.index as int, (v / 100) as u8).update(
                        pre.index + 1,
                        ((v / 10) % 10) as u8,
                    ).update(pre.index + 2, (v % 10) as u8),
                    pc: wrap16(pre.pc + 2),
                    ..pre
                },
                Ok(()),
            )
        }
    } else if nib1(op) == 0xF && nib3(op) == 0x5 && nib4(op) == 0x5 {
        // Fx55: store registers 0 through x into memory.
        store_block_step(pre, x)
    } else if nib1(op) == 0xF && nib3(op) == 0x6 && nib4(op) == 0x5 {
        // Fx65: load registers 0 through x from memory.
        load_block_step(pre, x)
    } else {
        // Unrecognized pattern: no-op, but the program counter still
        // advances so the instruction stream stays in sync.
        (CpuView { pc: wrap16(pre.pc + 2), ..pre }, Ok(()))
    }
}

/// Only the random-mask rule reads the random byte: for every other opcode
/// the transition is the same whatever byte the random source supplied.
pub proof fn lemma_step_ignores_random(pre: CpuView, op: u16, rnd1: u8, rnd2: u8)
    requires
        nib1(op) != 0xC,
    ensures
        step_spec(pre, op, rnd1) == step_spec(pre, op, rnd2),
{
}

/// A decode-execute step keeps the machine state well formed.
pub proof fn lemma_step_preserves_wf(pre: CpuView, op: u16, rnd: u8)
    requires
        pre.wf(),
    ensures
        step_spec(pre, op, rnd).0.wf(),
{
    lemma_nibble_ranges(op);
    lemma_first_pressed_bounds(pre.keys, 0);
}

/// The four nibble fields and the immediates stay inside their widths.
pub proof fn lemma_nibble_ranges(op: u16)
    ensures
        nib1(op) < 16,
        nib2(op) < 16,
        nib3(op) < 16,
        nib4(op) < 16,
        imm12(op) < 0x1000,
{
    assert((op >> 12) & 0xF < 16 && (op >> 8) & 0xF < 16 && (op >> 4) & 0xF < 16 && op & 0xF < 16
        && op & 0xFFF < 0x1000) by (bit_vector);
}

/// The first-pressed search stays within the key range and lands on a
/// pressed key when it finds one; below the result every key is up.
pub proof fn lemma_first_pressed_bounds(keys: Seq<bool>, j: int)
    requires
        0 <= j <= 16,
    ensures
        j <= first_pressed_from(keys, j) <= 16,
        first_pressed_from(keys, j) < 16 ==> keys[first_pressed_from(keys, j)],
        forall|m: int| j <= m < first_pressed_from(keys, j) ==> !keys[m],
    decreases 16 - j,
{
    if j < 16 && !keys[j] {
        lemma_first_pressed_bounds(keys, j + 1);
    }
}

/// The interpretation core: memory, registers, call stack, timers, program
/// counter, and the display and keypad it drives.
pub struct Cpu {
    pub display: Display,
    pub keypad: Keypad,
    pub memory: Vec<u8>,
    pub v_registers: Vec<u8>,
    pub stack: Vec<u16>,
    pub program_counter: u16,
    pub stack_pointer: u8,
    pub delay_timer: u8,
    pub sound_timer: u8,
    /// The memory address register `I`.
    pub i: u16,
}

impl View for Cpu {
    type V = CpuView;

    open spec fn view(&self) -> CpuView {
        CpuView {
            memory: self.memory@,
            regs: self.v_registers@,
            stack: self.stack@,
            pc: self.program_counter,
            sp: self.stack_pointer,
            delay: self.delay_timer,
            sound: self.sound_timer,
            index: self.i,
            display: self.display@,
            keys: self.keypad@,
        }
    }
}

/// The state a machine starts in: everything zeroed, display blank, no key
/// pressed.
pub open spec fn initial_cpu() -> CpuView {
    CpuView {
        memory: Seq::new(4096, |a: int| 0u8),
        regs: Seq::new(16, |r: int| 0u8),
        stack: Seq::new(16, |s: int| 0u16),
        pc: 0,
        sp: 0,
        delay: 0,
        sound: 0,
        index: 0,
        display: blank_grid(),
        keys: Seq::new(16, |k: int| false),
    }
}

/// Relies on rand::random: draws one byte from the thread-local generator.
/// Nothing is promised of its value.
#[verifier::external_body]
fn random_byte() -> (b: u8) {
    rand::random()
}

/// 16-bit addition that wraps around.
fn wrap_add_u16(a: u16, b: u16) -> (r: u16)
    ensures
        r == wrap16(a + b),
{
    (((a as u32) + (b as u32)) % 0x10000) as u16
}

/// 8-bit addition that wraps around.
fn wrap_add_u8(a: u8, b: u8) -> (r: u8)
    ensures
        r == wrap8(a + b),
{
    (((a as u16) + (b as u16)) % 256) as u8
}

/// 8-bit subtraction that wraps around.
fn wrap_sub_u8(a: u8, b: u8) -> (r: u8)
    ensures
        r == wrap8(a - b),
{
    proof {
        vstd::arithmetic::div_mod::lemma_mod_add_multiples_vanish(a - b, 256);
    }
    ((256 + (a as u16) - (b as u16)) % 256) as u8
}

impl Cpu {
    pub fn new() -> (cpu: Cpu)
        ensures
            cpu@.wf(),
            cpu@ == initial_cpu(),
    {
        let cpu = Cpu {
            display: Display::new(),
            keypad: Keypad::new(),
            memory: vec![0u8; MEMORY_SIZE],
            v_registers: vec![0u8; N_REGISTERS],
            stack: vec![0u16; STACK_SIZE],
            i: 0,
            program_counter: 0,
            stack_pointer: 0,
            delay_timer: 0,
            sound_timer: 0,
        };
        proof {
            assert(cpu@.memory =~= initial_cpu().memory);
            assert(cpu@.regs =~= initial_cpu().regs);
            assert(cpu@.stack =~= initial_cpu().stack);
            assert(cpu@.keys =~= initial_cpu().keys);
        }
        cpu
    }

    /// Write a program image into memory starting at the conventional
    /// program offset, leaving the rest of the machine untouched.
    pub fn load_program(&mut self, program: &Vec<u8>)
        requires
            old(self)@.wf(),
            program@.len() <= 4096 - 0x200,
        ensures
            final(self)@.wf(),
            final(self)@ == (CpuView {
                memory: Seq::new(
                    4096,
                    |a: int|
                        if 0x200 <= a < 0x200 + program@.len() {
                            program@[a - 0x200]
                        } else {
                            old(self)@.memory[a]
                        },
                ),
                ..old(self)@
            }),
    {
        let ghost mem0 = self.memory@;
        let mut k: usize = 0;
        while k < program.len()
            invariant
                k <= program@.len(),
                program@.len() <= 4096 - 0x200,
                self.memory@.len() == 4096,
                self.memory@ == Seq::new(
                    4096,
                    |a: int|
                        if 0x200 <= a < 0x200 + k { program@[a - 0x200] } else { mem0[a] },
                ),
                self.v_registers == old(self).v_registers,
                self.stack == old(self).stack,
                self.program_counter == old(self).program_counter,
                self.stack_pointer == old(self).stack_pointer,
                self.delay_timer == old(self).delay_timer,
                self.sound_timer == old(self).sound_timer,
                self.i == old(self).i,
                self.display == old(self).display,
                self.keypad == old(self).keypad,
            decreases program@.len() - k,
        {
            self.memory[PROGRAM_START + k] = program[k];
            proof {
                assert(self.memory@ =~= Seq::new(
                    4096,
                    |a: int|
                        if 0x200 <= a < 0x200 + (k + 1) { program@[a - 0x200] } else { mem0[a] },
                ));
            }
            k = k + 1;
        }
    }

    /// Decrement both timers by one, flooring at zero; the host calls this
    /// at its own fixed cadence, independent of instruction throughput.
    pub fn tick_timers(&mut self)
        requires
            old(self)@.wf(),
        ensures
            final(self)@.wf(),
            final(self)@ == (CpuView {
                delay: if old(self)@.delay > 0 { (old(self)@.delay - 1) as u8 } else { 0u8 },
                sound: if old(self)@.sound > 0 { (old(self)@.sound - 1) as u8 } else { 0u8 },
                ..old(self)@
            }),
    {
        if self.delay_timer > 0 {
            self.delay_timer = self.delay_timer - 1;
        }
        if self.sound_timer > 0 {
            self.sound_timer = self.sound_timer - 1;
        }
    }

    /// Decode and execute one opcode, drawing the random byte from the
    /// thread-local generator. The outcome is a decode-execute transition
    /// for some byte value; everything except the random-mask rule is
    /// independent of it.
    pub fn process_opcode(&mut self, opcode: u16) -> (r: Result<(), Fault>)
        requires
            old(self)@.wf(),
        ensures
            final(self)@.wf(),
            exists|b: u8| (final(self)@, r) == step_spec(old(self)@, opcode, b),
            nib1(opcode) != 0xC ==> (final(self)@, r) == step_spec(old(self)@, opcode, 0),
    {
        let b = random_byte();
        let r = self.process_opcode_with_random(opcode, b);
        proof {
            assert((self@, r) == step_spec(old(self)@, opcode, b));
            if nib1(opcode) != 0xC {
                lemma_step_ignores_random(old(self)@, opcode, b, 0);
            }
        }
        r
    }

    /// Decode and execute one opcode with the random byte supplied by the
    /// caller: the whole transition relation, verified for every byte value.
    pub fn process_opcode_with_random(&mut self, opcode: u16, rnd: u8) -> (r: Result<(), Fault>)
        requires
            old(self)@.wf(),
        ensures
            final(self)@.wf(),
            (final(self)@, r) == step_spec(old(self)@, opcode, rnd),
    {
        proof {
            lemma_nibble_ranges(opcode);
            lemma_step_preserves_wf(old(self)@, opcode, rnd);
        }
        let op_1: u16 = (opcode >> 12) & 0xF;
        let op_2: u16 = (opcode >> 8) & 0xF;
        let op_3: u16 = (opcode >> 4) & 0xF;
        let op_4: u16 = opcode & 0xF;
        let x: usize = op_2 as usize;
        let y: usize = op_3 as usize;
        let kk: u8 = (opcode & 0xFF) as u8;
        let nnn: u16 = opcode & 0xFFF;

        match (op_1, op_2, op_3, op_4) {
            // Clear the display.
            (0x0, 0x0, 0xE, 0x0) => {
                self.display.cls();
                self.program_counter = wrap_add_u16(self.program_counter, 2);
                Ok(())
            }
            // Return from subroutine.
            (0x0, 0x0, 0xE, 0xE) => {
                if self.stack_pointer == 0 {
                    return Err(Fault::StackUnderflow);
                }
                self.program_counter = self.stack[(self.stack_pointer - 1) as usize];
                self.stack_pointer = self.stack_pointer - 1;
                Ok(())
            }
            // Jump to nnn.
            (0x1, _, _, _) => {
                self.program_counter = nnn;
                Ok(())
            }
            // Call subroutine nnn.
            (0x2, _, _, _) => {
                if self.stack_pointer >= 16 {
                    return Err(Fault::StackOverflow);
                }
                self.stack[self.stack_pointer as usize] = wrap_add_u16(self.program_counter, 2);
                self.stack_pointer = self.stack_pointer + 1;
                self.program_counter = nnn;
                Ok(())
            }
            // Skip next when Vx == kk.
            (0x3, _, _, _) => {
                let step: u16 = if self.v_registers[x] == kk { 4 } else { 2 };
                self.program_counter = wrap_add_u16(self.program_counter, step);
                Ok(())
            }
            // Skip next when Vx != kk.
            (0x4, _, _, _) => {
                let step: u16 = if self.v_registers[x] != kk { 4 } else { 2 };
                self.program_counter = wrap_add_u16(self.program_counter, step);
                Ok(())
            }
            // Skip next when Vx == Vy.
            (0x5, _, _, 0x0) => {
                let step: u16 = if self.v_registers[x] == self.v_registers[y] { 4 } else { 2 };
                self.program_counter = wrap_add_u16(self.program_counter, step);
                Ok(())
            }
            // Load immediate.
            (0x6, _, _, _) => {
                self.v_registers[x] = kk;
                self.program_counter = wrap_add_u16(self.program_counter, 2);
                Ok(())
            }
            // Add immediate, 8-bit wraparound, no flag.
            (0x7, _, _, _) => {
                self.v_registers[x] = wrap_add_u8(self.v_registers[x], kk);
                self.program_counter = wrap_add_u16(self.program_counter, 2);
                Ok(())
            }
            // Assign Vy to Vx.
            (0x8, _, _, 0x0) => {
                self.v_registers[x] = self.v_registers[y];
                self.program_counter = wrap_add_u16(self.program_counter, 2);
                Ok(())
            }
            // Bitwise OR.
            (0x8, _, _, 0x1) => {
                self.v_registers[x] = self.v_registers[x] | self.v_registers[y];
                self.program_counter = wrap_add_u16(self.program_counter, 2);
                Ok(())
            }
            // Bitwise AND.
            (0x8, _, _, 0x2) => {
                self.v_registers[x] = self.v_registers[x] & self.v_registers[y];
                self.program_counter = wrap_add_u16(self.program_counter, 2);
                Ok(())
            }
            // Bitwise XOR.
            (0x8, _, _, 0x3) => {
                self.v_registers[x] = self.v_registers[x] ^ self.v_registers[y];
                self.program_counter = wrap_add_u16(self.program_counter, 2);
                Ok(())
            }
            // Add with the carry flag in VF.
            (0x8, _, _, 0x4) => {
                let sum: u16 = (self.v_registers[x] as u16) + (self.v_registers[y] as u16);
                self.v_registers[0xF] = if sum > 255 { 1 } else { 0 };
                self.v_registers[x] = (sum % 256) as u8;
                self.program_counter = wrap_add_u16(self.program_counter, 2);
                Ok(())
            }
            // Subtract with the borrow flag in VF.
            (0x8, _, _, 0x5) => {
                let flag: u8 = if self.v_registers[x] < self.v_registers[y] { 1 } else { 0 };
                self.v_registers[0xF] = flag;
                self.v_registers[x] = wrap_sub_u8(self.v_registers[x], self.v_registers[y]);
                self.program_counter = wrap_add_u16(self.program_counter, 2);
                Ok(())
            }
            // Shift right, least significant bit into VF.
            (0x8, _, _, 0x6) => {
                let flag: u8 = self.v_registers[x] & 1;
                self.v_registers[0xF] = flag;
                self.v_registers[x] = self.v_registers[x] / 2;
                self.program_counter = wrap_add_u16(self.program_counter, 2);
                Ok(())
            }
            // Reverse subtract with the borrow flag in VF.
            (0x8, _, _, 0x7) => {
                let flag: u8 = if self.v_registers[x] < self.v_registers[y] { 1 } else { 0 };
                self.v_registers[0xF] = flag;
                self.v_registers[x] = wrap_sub_u8(self.v_registers[y], self.v_registers[x]);
                self.program_counter = wrap_add_u16(self.program_counter, 2);
                Ok(())
            }
            // Shift left, most significant bit into VF.
            (0x8, _, _, 0xE) => {
                let flag: u8 = self.v_registers[x] >> 7;
                self.v_registers[0xF] = flag;
                self.v_registers[x] = wrap_add_u8(self.v_registers[x], self.v_registers[x]);
                self.program_counter = wrap_add_u16(self.program_counter, 2);
                Ok(())
            }
            // Skip next when Vx != Vy.
            (0x9, _, _, 0x0) => {
                let step: u16 = if self.v_registers[x] != self.v_registers[y] { 4 } else { 2 };
                self.program_counter = wrap_add_u16(self.program_counter, step);
                Ok(())
            }
            // Load the index register.
            (0xA, _, _, _) => {
                self.i = nnn;
                self.program_counter = wrap_add_u16(self.program_counter, 2);
                Ok(())
            }
            // Jump to nnn plus V0.
            (0xB, _, _, _) => {
                self.program_counter = nnn + (self.v_registers[0] as u16);
                Ok(())
            }
            // Random byte masked by kk.
            (0xC, _, _, _) => {
                self.v_registers[x] = rnd & kk;
                self.program_counter = wrap_add_u16(self.program_counter, 2);
                Ok(())
            }
            // Draw an n-row sprite read at the index register.
            (0xD, _, _, _) => self.op_draw(x, y, op_4 as usize),
            // Skip next when key Vx is pressed.
            (0xE, _, 0x9, 0xE) => {
                let vx = self.v_registers[x];
                if vx >= 16 {
                    return Err(Fault::KeyOutOfRange);
                }
                let step: u16 = if self.keypad.is_key_down(vx as usize) { 4 } else { 2 };
                self.program_counter = wrap_add_u16(self.program_counter, step);
                Ok(())
            }
            // Skip next when key Vx is not pressed.
            (0xE, _, 0xA, 0x1) => {
                let vx = self.v_registers[x];
                if vx >= 16 {
                    return Err(Fault::KeyOutOfRange);
                }
                let step: u16 = if !self.keypad.is_key_down(vx as usize) { 4 } else { 2 };
                self.program_counter = wrap_add_u16(self.program_counter, step);
                Ok(())
            }
            // Read the delay timer.
            (0xF, _, 0x0, 0x7) => {
                self.v_registers[x] = self.delay_timer;
                self.program_counter = wrap_add_u16(self.program_counter, 2);
                Ok(())
            }
            // Wait for a key press.
            (0xF, _, 0x0, 0xA) => {
                self.op_wait_key(x);
                Ok(())
            }
            // Set the delay timer.
            (0xF, _, 0x1, 0x5) => {
                self.delay_timer = self.v_registers[x];
                self.program_counter = wrap_add_u16(self.program_counter, 2);
                Ok(())
            }
            // Set the sound timer.
            (0xF, _, 0x1, 0x8) => {
                self.sound_timer = self.v_registers[x];
                self.program_counter = wrap_add_u16(self.program_counter, 2);
                Ok(())
            }
            // Add Vx into the index register.
            (0xF, _, 0x1, 0xE) => {
                self.i = wrap_add_u16(self.i, self.v_registers[x] as u16);
                self.program_counter = wrap_add_u16(self.program_counter, 2);
                Ok(())
            }
            // Point the index register at the font glyph for Vx.
            (0xF, _, 0x2, 0x9) => {
                self.i = FONT_BASE + (self.v_registers[x] as u16) * FONT_GLYPH_SIZE;
                self.program_counter = wrap_add_u16(self.program_counter, 2);
                Ok(())
            }
            // Store the BCD digits of Vx.
            (0xF, _, 0x3, 0x3) => {
                if (self.i as usize) + 2 >= MEMORY_SIZE {
                    return Err(Fault::MemoryOutOfBounds);
                }
                let location: usize = self.i as usize;
                let v: u8 = self.v_registers[x];
                self.memory[location] = v / 100;
                self.memory[location + 1] = (v / 10) % 10;
                self.memory[location + 2] = v % 10;
                self.program_counter = wrap_add_u16(self.program_counter, 2);
                Ok(())
            }
            // Store registers 0 through x into memory.
            (0xF, _, 0x5, 0x5) => self.op_store_block(x),
            // Load registers 0 through x from memory.
            (0xF, _, 0x6, 0x5) => self.op_load_block(x),
            // Unrecognized pattern: no-op, but keep the instruction stream
            // in sync.
            (_, _, _, _) => {
                self.program_counter = wrap_add_u16(self.program_counter, 2);
                Ok(())
            }
        }
    }

    /// The sprite-draw rule.
    fn op_draw(&mut self, x: usize, y: usize, n: usize) -> (r: Result<(), Fault>)
        requires
            old(self)@.wf(),
            x < 16,
            y < 16,
            n < 16,
        ensures
            final(self)@.wf(),
            (final(self)@, r) == draw_step(old(self)@, x as int, y as int, n as int),
    {
        let i0: usize = self.i as usize;
        if i0 + n > MEMORY_SIZE {
            return Err(Fault::MemoryOutOfBounds);
        }
        let mut rows: Vec<u8> = Vec::new();
        let mut k: usize = 0;
        while k < n
            invariant
                k <= n,
                i0 + n <= 4096,
                i0 == old(self)@.index,
                self == old(self),
                old(self)@.wf(),
                rows@ == old(self)@.memory.subrange(i0 as int, i0 + k),
            decreases n - k,
        {
            let b = self.memory[i0 + k];
            rows.push(b);
            proof {
                assert(rows@ =~= old(self)@.memory.subrange(i0 as int, i0 + k + 1));
            }
            k = k + 1;
        }
        let vx = self.v_registers[x];
        let vy = self.v_registers[y];
        let collision = self.display.draw_sprite(vx, vy, &rows);
        self.v_registers[0xF] = if collision {
            1
        } else {
            0
        };
        self.program_counter = wrap_add_u16(self.program_counter, 2);
        Ok(())
    }

    /// The block-store rule.
    fn op_store_block(&mut self, x: usize) -> (r: Result<(), Fault>)
        requires
            old(self)@.wf(),
            x < 16,
        ensures
            final(self)@.wf(),
            (final(self)@, r) == store_block_step(old(self)@, x as int),
    {
        let i0: usize = self.i as usize;
        if i0 + x >= MEMORY_SIZE {
            return Err(Fault::MemoryOutOfBounds);
        }
        let ghost mem0 = self.memory@;
        let mut k: usize = 0;
        while k <= x
            invariant
                k <= x + 1,
                x < 16,
                i0 + x < 4096,
                i0 == old(self)@.index,
                old(self)@.wf(),
                self.memory@.len() == 4096,
                self.v_registers == old(self).v_registers,
                self.stack == old(self).stack,
                self.program_counter == old(self).program_counter,
                self.stack_pointer == old(self).stack_pointer,
                self.delay_timer == old(self).delay_timer,
                self.sound_timer == old(self).sound_timer,
                self.i == old(self).i,
                self.display == old(self).display,
                self.keypad == old(self).keypad,
                self.memory@ == Seq::new(
                    4096,
                    |a: int|
                        if i0 <= a < i0 + k { old(self)@.regs[a - i0] } else { mem0[a] },
                ),
            decreases x + 1 - k,
        {
            self.memory[i0 + k] = self.v_registers[k];
            proof {
                assert(self.memory@ =~= Seq::new(
                    4096,
                    |a: int|
                        if i0 <= a < i0 + (k + 1) { old(self)@.regs[a - i0] } else { mem0[a] },
                ));
            }
            k = k + 1;
        }
        proof {
            assert(self.memory@ =~= block_stored(mem0, old(self)@.regs, i0 as int, x as int));
        }
        self.program_counter = wrap_add_u16(self.program_counter, 2);
        Ok(())
    }

    /// The block-load rule.
    fn op_load_block(&mut self, x: usize) -> (r: Result<(), Fault>)
        requires
            old(self)@.wf(),
            x < 16,
        ensures
            final(self)@.wf(),
            (final(self)@, r) == load_block_step(old(self)@, x as int),
    {
        let i0: usize = self.i as usize;
        if i0 + x >= MEMORY_SIZE {
            return Err(Fault::MemoryOutOfBounds);
        }
        let ghost regs0 = self.v_registers@;
        let mut k: usize = 0;
        while k <= x
            invariant
                k <= x + 1,
                x < 16,
                i0 + x < 4096,
                i0 == old(self)@.index,
                old(self)@.wf(),
                self.v_registers@.len() == 16,
                self.memory == old(self).memory,
                self.stack == old(self).stack,
                self.program_counter == old(self).program_counter,
                self.stack_pointer == old(self).stack_pointer,
                self.delay_timer == old(self).delay_timer,
                self.sound_timer == old(self).sound_timer,
                self.i == old(self).i,
                self.display == old(self).display,
                self.keypad == old(self).keypad,
                self.v_registers@ == Seq::new(
                    16,
                    |r: int|
                        if 0 <= r < k { old(self)@.memory[i0 + r] } else { regs0[r] },
                ),
            decreases x + 1 - k,
        {
            self.v_registers[k] = self.memory[i0 + k];
            proof {
                assert(self.v_registers@ =~= Seq::new(
                    16,
                    |r: int|
                        if 0 <= r < k + 1 { old(self)@.memory[i0 + r] } else { regs0[r] },
                ));
            }
            k = k + 1;
        }
        proof {
            assert(self.v_registers@ =~= block_loaded(regs0, old(self)@.memory, i0 as int, x as int));
        }
        self.program_counter = wrap_add_u16(self.program_counter, 2);
        Ok(())
    }

    /// The key-wait rule.
    fn op_wait_key(&mut self, x: usize)
        requires
            old(self)@.wf(),
            x < 16,
        ensures
            final(self)@.wf(),
            (final(self)@, Ok::<(), Fault>(())) == wait_key_step(old(self)@, x as int),
    {
        let ghost keys = old(self)@.keys;
        let mut found = false;
        let mut key: usize = 0;
        let mut k: usize = 0;
        while k < 16
            invariant
                k <= 16,
                self == old(self),
                old(self)@.wf(),
                keys == old(self)@.keys,
                !found ==> forall|j: int| 0 <= j < k ==> !keys[j],
                found ==> key < 16 && keys[key as int] && (forall|j: int|
                    0 <= j < key ==> !keys[j]),
            decreases 16 - k,
        {
            if !found && self.keypad.is_key_down(k) {
                found = true;
                key = k;
            }
            k = k + 1;
        }
        proof {
            lemma_first_pressed_bounds(keys, 0);
            if found {
                lemma_first_pressed_skip(keys, 0, key as int);
                assert(first_pressed(keys) == key);
            } else {
                lemma_first_pressed_skip(keys, 0, 16);
                assert(first_pressed(keys) == 16);
            }
        }
        if found {
            self.v_registers[x] = key as u8;
            self.program_counter = wrap_add_u16(self.program_counter, 2);
        }
    }
}

/// When every key below `k` is up, the search from `j` and the search from
/// `k` agree.
proof fn lemma_first_pressed_skip(keys: Seq<bool>, j: int, k: int)
    requires
        0 <= j <= k <= 16,
        forall|m: int| j <= m < k ==> !keys[m],
    ensures
        first_pressed_from(keys, j) == first_pressed_from(keys, k),
    decreases k - j,
{
    if j < k {
        lemma_first_pressed_skip(keys, j + 1, k);
    }
}

} // verus!
