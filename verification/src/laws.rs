use crate::cpu::{
    block_loaded, block_stored, imm12, imm8, lemma_step_preserves_wf, nib1, nib2, nib3, nib4,
    step_spec, wrap16, wrap8, CpuView, Fault,
};
use vstd::prelude::*;

verus! {

/// Field decomposition of an opcode assembled from a top nibble, a register
/// nibble and an 8-bit immediate.
proof fn lemma_fields_kk(top: u16, x: u16, kk: u16)
    requires
        top < 16,
        x < 16,
        kk < 256,
    ensures
        nib1(((top << 12) | (x << 8)) | kk) == top,
        nib2(((top << 12) | (x << 8)) | kk) == x,
        imm8(((top << 12) | (x << 8)) | kk) == kk as u8,
{
    assert(((((top << 12) | (x << 8)) | kk) >> 12) & 0xF == top && ((((top << 12) | (x << 8))
        | kk) >> 8) & 0xF == x && ((((top << 12) | (x << 8)) | kk) & 0xFF) == kk) by (bit_vector)
        requires
            top < 16,
            x < 16,
            kk < 256,
    ;
}

/// Field decomposition of an opcode assembled from four nibbles.
proof fn lemma_fields_xy(top: u16, x: u16, y: u16, n: u16)
    requires
        top < 16,
        x < 16,
        y < 16,
        n < 16,
    ensures
        nib1((((top << 12) | (x << 8)) | (y << 4)) | n) == top,
        nib2((((top << 12) | (x << 8)) | (y << 4)) | n) == x,
        nib3((((top << 12) | (x << 8)) | (y << 4)) | n) == y,
        nib4((((top << 12) | (x << 8)) | (y << 4)) | n) == n,
{
    assert((((((top << 12) | (x << 8)) | (y << 4)) | n) >> 12) & 0xF == top && (((((top << 12) | (x
        << 8)) | (y << 4)) | n) >> 8) & 0xF == x && (((((top << 12) | (x << 8)) | (y << 4)) | n)
        >> 4) & 0xF == y && ((((top << 12) | (x << 8)) | (y << 4)) | n) & 0xF == n) by (bit_vector)
        requires
            top < 16,
            x < 16,
            y < 16,
            n < 16,
    ;
}

/// Field decomposition of an opcode assembled from a top nibble and a 12-bit
/// address.
proof fn lemma_fields_nnn(top: u16, nnn: u16)
    requires
        top < 16,
        nnn < 0x1000,
    ensures
        nib1((top << 12) | nnn) == top,
        imm12((top << 12) | nnn) == nnn,
{
    assert((((top << 12) | nnn) >> 12) & 0xF == top && ((top << 12) | nnn) & 0xFFF == nnn)
        by (bit_vector)
        requires
            top < 16,
            nnn < 0x1000,
    ;
}

/// For every register x and immediate kk: after `6xkk`, Vx holds kk, the
/// program counter advanced by 2, and nothing else changed.
pub proof fn lemma_load_immediate(pre: CpuView, x: u16, kk: u8, rnd: u8)
    requires
        pre.wf(),
        x < 16,
    ensures
        step_spec(pre, ((0x6u16 << 12) | (x << 8)) | (kk as u16), rnd).1 == Ok::<(), Fault>(()),
        step_spec(pre, ((0x6u16 << 12) | (x << 8)) | (kk as u16), rnd).0 == (CpuView {
            regs: pre.regs.update(x as int, kk),
            pc: wrap16(pre.pc + 2),
            ..pre
        }),
{
    lemma_fields_kk(0x6, x, kk as u16);
}

/// For every register x and immediates a and b: starting from Vx == 0, after
/// `7xaa` then `7xbb`, Vx holds (a + b) mod 256 and no other register — in
/// particular no flag — changed.
pub proof fn lemma_add_immediate_twice(pre: CpuView, x: u16, a: u8, b: u8, rnd: u8)
    requires
        pre.wf(),
        x < 16,
        pre.regs[x as int] == 0,
    ensures
        ({
            let mid = step_spec(pre, ((0x7u16 << 12) | (x << 8)) | (a as u16), rnd).0;
            let post = step_spec(mid, ((0x7u16 << 12) | (x << 8)) | (b as u16), rnd).0;
            &&& step_spec(pre, ((0x7u16 << 12) | (x << 8)) | (a as u16), rnd).1 == Ok::<(), Fault>(())
            &&& step_spec(mid, ((0x7u16 << 12) | (x << 8)) | (b as u16), rnd).1 == Ok::<(), Fault>(())
            &&& post.regs[x as int] == wrap8(a + b)
            &&& forall|j: int| 0 <= j < 16 && j != x ==> post.regs[j] == pre.regs[j]
            &&& post.pc == wrap16(pre.pc + 4)
        }),
{
    lemma_fields_kk(0x7, x, a as u16);
    lemma_fields_kk(0x7, x, b as u16);
    lemma_step_preserves_wf(pre, ((0x7u16 << 12) | (x << 8)) | (a as u16), rnd);
    let mid = step_spec(pre, ((0x7u16 << 12) | (x << 8)) | (a as u16), rnd).0;
    assert(mid.regs[x as int] == wrap8(0 + a));
    assert(wrap8(0 + a) == a);
    let post = step_spec(mid, ((0x7u16 << 12) | (x << 8)) | (b as u16), rnd).0;
    assert(post.regs[x as int] == wrap8(a + b));
    assert(post.pc == wrap16(wrap16(pre.pc + 2) + 2));
    assert(post.pc == wrap16(pre.pc + 4)) by {
        vstd::arithmetic::div_mod::lemma_mod_add_multiples_vanish(pre.pc + 2, 0x10000);
        if pre.pc + 2 < 0x10000 {
        } else {
            assert(wrap16(pre.pc + 2) == pre.pc + 2 - 0x10000);
            vstd::arithmetic::div_mod::lemma_mod_add_multiples_vanish(pre.pc + 4 - 0x10000, 0x10000);
        }
    }
}

/// For every pair of registers: `8xy5` stores (Vx - Vy) mod 256 in Vx and
/// sets the flag register to 1 exactly when Vx < Vy — the flag marks a
/// borrow, not the conventional no-borrow polarity. Stated for x and y other
/// than the flag register itself, which the flag write would alias.
pub proof fn lemma_sub_sets_borrow_flag(pre: CpuView, x: u16, y: u16, rnd: u8)
    requires
        pre.wf(),
        x < 15,
        y < 15,
    ensures
        step_spec(pre, (((0x8u16 << 12) | (x << 8)) | (y << 4)) | 0x5, rnd).1 == Ok::<(), Fault>(()),
        ({
            let post = step_spec(pre, (((0x8u16 << 12) | (x << 8)) | (y << 4)) | 0x5, rnd).0;
            &&& post.regs[15] == (if pre.regs[x as int] < pre.regs[y as int] { 1u8 } else { 0u8 })
            &&& post.regs[x as int] == wrap8(pre.regs[x as int] - pre.regs[y as int])
            &&& post.pc == wrap16(pre.pc + 2)
        }),
{
    lemma_fields_xy(0x8, x, y, 0x5);
}

/// For every pair of registers: `8xy7` stores (Vy - Vx) mod 256 in Vx and
/// sets the flag register to 1 exactly when Vx < Vy, the same comparison the
/// subtract rule uses. Stated for x and y other than the flag register
/// itself, which the flag write would alias.
pub proof fn lemma_reverse_sub_sets_borrow_flag(pre: CpuView, x: u16, y: u16, rnd: u8)
    requires
        pre.wf(),
        x < 15,
        y < 15,
    ensures
        step_spec(pre, (((0x8u16 << 12) | (x << 8)) | (y << 4)) | 0x7, rnd).1 == Ok::<(), Fault>(()),
        ({
            let post = step_spec(pre, (((0x8u16 << 12) | (x << 8)) | (y << 4)) | 0x7, rnd).0;
            &&& post.regs[15] == (if pre.regs[x as int] < pre.regs[y as int] { 1u8 } else { 0u8 })
            &&& post.regs[x as int] == wrap8(pre.regs[y as int] - pre.regs[x as int])
            &&& post.pc == wrap16(pre.pc + 2)
        }),
{
    lemma_fields_xy(0x8, x, y, 0x7);
}

/// `3xkk` advances the program counter by 4 when Vx == kk and by 2
/// otherwise, and changes nothing else.
pub proof fn lemma_skip_eq_immediate(pre: CpuView, x: u16, kk: u8, rnd: u8)
    requires
        pre.wf(),
        x < 16,
    ensures
        step_spec(pre, ((0x3u16 << 12) | (x << 8)) | (kk as u16), rnd).1 == Ok::<(), Fault>(()),
        step_spec(pre, ((0x3u16 << 12) | (x << 8)) | (kk as u16), rnd).0 == (CpuView {
            pc: wrap16(pre.pc + if pre.regs[x as int] == kk { 4int } else { 2 }),
            ..pre
        }),
{
    lemma_fields_kk(0x3, x, kk as u16);
}

/// `4xkk` advances the program counter by 4 when Vx != kk and by 2
/// otherwise, and changes nothing else.
pub proof fn lemma_skip_ne_immediate(pre: CpuView, x: u16, kk: u8, rnd: u8)
    requires
        pre.wf(),
        x < 16,
    ensures
        step_spec(pre, ((0x4u16 << 12) | (x << 8)) | (kk as u16), rnd).1 == Ok::<(), Fault>(()),
        step_spec(pre, ((0x4u16 << 12) | (x << 8)) | (kk as u16), rnd).0 == (CpuView {
            pc: wrap16(pre.pc + if pre.regs[x as int] != kk { 4int } else { 2 }),
            ..pre
        }),
{
    lemma_fields_kk(0x4, x, kk as u16);
}

/// `5xy0` advances the program counter by 4 when Vx == Vy and by 2
/// otherwise, and changes nothing else.
pub proof fn lemma_skip_eq_register(pre: CpuView, x: u16, y: u16, rnd: u8)
    requires
        pre.wf(),
        x < 16,
        y < 16,
    ensures
        step_spec(pre, (((0x5u16 << 12) | (x << 8)) | (y << 4)) | 0x0, rnd).1 == Ok::<(), Fault>(()),
        step_spec(pre, (((0x5u16 << 12) | (x << 8)) | (y << 4)) | 0x0, rnd).0 == (CpuView {
            pc: wrap16(
                pre.pc + if pre.regs[x as int] == pre.regs[y as int] { 4int } else { 2 },
            ),
            ..pre
        }),
{
    lemma_fields_xy(0x5, x, y, 0x0);
}

/// `9xy0` advances the program counter by 4 when Vx != Vy and by 2
/// otherwise, and changes nothing else.
pub proof fn lemma_skip_ne_register(pre: CpuView, x: u16, y: u16, rnd: u8)
    requires
        pre.wf(),
        x < 16,
        y < 16,
    ensures
        step_spec(pre, (((0x9u16 << 12) | (x << 8)) | (y << 4)) | 0x0, rnd).1 == Ok::<(), Fault>(()),
        step_spec(pre, (((0x9u16 << 12) | (x << 8)) | (y << 4)) | 0x0, rnd).0 == (CpuView {
            pc: wrap16(
                pre.pc + if pre.regs[x as int] != pre.regs[y as int] { 4int } else { 2 },
            ),
            ..pre
        }),
{
    lemma_fields_xy(0x9, x, y, 0x0);
}

/// `Ex9E` advances the program counter by 4 when key Vx is pressed and by 2
/// otherwise, and changes nothing else; Vx must name one of the 16 keys.
pub proof fn lemma_skip_key_pressed(pre: CpuView, x: u16, rnd: u8)
    requires
        pre.wf(),
        x < 16,
        pre.regs[x as int] < 16,
    ensures
        step_spec(pre, (((0xEu16 << 12) | (x << 8)) | (0x9u16 << 4)) | 0xE, rnd).1 == Ok::<(), Fault>(()),
        step_spec(pre, (((0xEu16 << 12) | (x << 8)) | (0x9u16 << 4)) | 0xE, rnd).0 == (CpuView {
            pc: wrap16(
                pre.pc + if pre.keys[pre.regs[x as int] as int] { 4int } else { 2 },
            ),
            ..pre
        }),
{
    lemma_fields_xy(0xE, x, 0x9, 0xE);
}

/// `ExA1` advances the program counter by 4 when key Vx is not pressed and
/// by 2 otherwise, and changes nothing else; Vx must name one of the 16
/// keys.
pub proof fn lemma_skip_key_not_pressed(pre: CpuView, x: u16, rnd: u8)
    requires
        pre.wf(),
        x < 16,
        pre.regs[x as int] < 16,
    ensures
        step_spec(pre, (((0xEu16 << 12) | (x << 8)) | (0xAu16 << 4)) | 0x1, rnd).1 == Ok::<(), Fault>(()),
        step_spec(pre, (((0xEu16 << 12) | (x << 8)) | (0xAu16 << 4)) | 0x1, rnd).0 == (CpuView {
            pc: wrap16(
                pre.pc + if !pre.keys[pre.regs[x as int] as int] { 4int } else { 2 },
            ),
            ..pre
        }),
{
    lemma_fields_xy(0xE, x, 0xA, 0x1);
}

/// Call/return round trip: from any state with a free stack slot, `2nnn`
/// jumps to nnn after pushing the address of the following instruction, and
/// a subsequent `00EE` pops it back, restoring the program counter and the
/// stack pointer.
pub proof fn lemma_call_return_round_trip(pre: CpuView, nnn: u16, rnd: u8)
    requires
        pre.wf(),
        pre.sp < 16,
        nnn < 0x1000,
    ensures
        ({
            let mid = step_spec(pre, (0x2u16 << 12) | nnn, rnd).0;
            let post = step_spec(mid, 0x00EE, rnd).0;
            &&& step_spec(pre, (0x2u16 << 12) | nnn, rnd).1 == Ok::<(), Fault>(())
            &&& step_spec(mid, 0x00EE, rnd).1 == Ok::<(), Fault>(())
            &&& mid.pc == nnn
            &&& mid.sp == pre.sp + 1
            &&& mid.stack[pre.sp as int] == wrap16(pre.pc + 2)
            &&& post == (CpuView { pc: wrap16(pre.pc + 2), stack: mid.stack, ..pre })
        }),
{
    lemma_fields_nnn(0x2, nnn);
    assert((0x00EEu16 >> 12) & 0xF == 0 && (0x00EEu16 >> 8) & 0xF == 0 && (0x00EEu16 >> 4) & 0xF
        == 0xE && 0x00EEu16 & 0xF == 0xE) by (bit_vector);
}

/// Block store/load round trip: for any register contents, `Fx55` followed —
/// after the registers are arbitrarily clobbered — by `Fx65` with the same
/// index register restores registers 0 through x exactly, leaves the higher
/// registers as the clobbering set them, and leaves memory outside the
/// stored block untouched.
pub proof fn lemma_store_load_round_trip(pre: CpuView, x: u16, scratch: Seq<u8>, rnd: u8)
    requires
        pre.wf(),
        x < 16,
        pre.index + x < 4096,
        scratch.len() == 16,
    ensures
        ({
            let stored = step_spec(pre, (((0xFu16 << 12) | (x << 8)) | (0x5u16 << 4)) | 0x5, rnd).0;
            let mid = CpuView { regs: scratch, ..stored };
            let post = step_spec(mid, (((0xFu16 << 12) | (x << 8)) | (0x6u16 << 4)) | 0x5, rnd).0;
            &&& step_spec(pre, (((0xFu16 << 12) | (x << 8)) | (0x5u16 << 4)) | 0x5, rnd).1 == Ok::<
                (),
                Fault,
            >(())
            &&& step_spec(mid, (((0xFu16 << 12) | (x << 8)) | (0x6u16 << 4)) | 0x5, rnd).1 == Ok::<
                (),
                Fault,
            >(())
            &&& forall|j: int| 0 <= j <= x ==> post.regs[j] == pre.regs[j]
            &&& forall|j: int| x < j < 16 ==> post.regs[j] == scratch[j]
            &&& forall|a: int|
                0 <= a < 4096 && !(pre.index <= a <= pre.index + x) ==> stored.memory[a]
                    == pre.memory[a]
        }),
{
    lemma_fields_xy(0xF, x, 0x5, 0x5);
    lemma_fields_xy(0xF, x, 0x6, 0x5);
    let stored = step_spec(pre, (((0xFu16 << 12) | (x << 8)) | (0x5u16 << 4)) | 0x5, rnd).0;
    assert(stored.memory == block_stored(pre.memory, pre.regs, pre.index as int, x as int));
    let mid = CpuView { regs: scratch, ..stored };
    let post = step_spec(mid, (((0xFu16 << 12) | (x << 8)) | (0x6u16 << 4)) | 0x5, rnd).0;
    assert(post.regs == block_loaded(scratch, stored.memory, pre.index as int, x as int));
    assert forall|j: int| 0 <= j <= x implies post.regs[j] == pre.regs[j] by {
        assert(stored.memory[pre.index + j] == pre.regs[j]);
    }
}

} // verus!
