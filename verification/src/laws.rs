use vstd::prelude::*;

use crate::errors::ChipError;
use crate::opcode::{encode, lemma_decode_encode, op_byte, op_header, op_n, op_x, op_y};
use crate::registers::{pop_result, push_result, RegistersView, STACK_SIZE};
use crate::system::{step_spec, with_gp, wrap16, SystemView};

verus! {

/// Loading an immediate into a register round-trips: for every register
/// index and every byte, executing the load-immediate word leaves exactly
/// that byte in exactly that register, and everything else alone.
pub proof fn lemma_load_immediate_roundtrip(pre: SystemView, x: u16, v: u8, rnd: u8)
    requires
        pre.wf(),
        x < 16,
    ensures
        (step_spec(pre, encode(0x6, x, v as u16 / 16, v as u16 % 16), rnd) matches Ok(post)
            && post == with_gp(pre, pre.regs.gp.update(x as int, v)) && post.regs.gp[x as int]
            == v),
{
    lemma_decode_encode(0x6, x, v as u16 / 16, v as u16 % 16);
}

/// The widened add: when the operands sum to 255 or less the flag register
/// clears and the destination takes the exact sum; past 255 the flag sets
/// and the destination takes the sum modulo 256. Stated for destinations
/// other than the flag register itself, which the result would overwrite.
pub proof fn lemma_add_carry(pre: SystemView, x: u16, y: u16, rnd: u8)
    requires
        pre.wf(),
        x < 15,
        y < 16,
    ensures
        step_spec(pre, encode(0x8, x, y, 0x4), rnd) matches Ok(post) && {
            let sum = pre.regs.gp[x as int] + pre.regs.gp[y as int];
            &&& sum <= 255 ==> post.regs.gp[15] == 0u8 && post.regs.gp[x as int] == sum
            &&& sum > 255 ==> post.regs.gp[15] == 1u8 && post.regs.gp[x as int] == sum % 256
        },
{
    lemma_decode_encode(0x8, x, y, 0x4);
}

/// The subtract: when the minuend is at least the subtrahend the flag
/// register takes 1 and the destination the exact difference; otherwise the
/// flag takes 0 and the difference wraps modulo 256 rather than failing.
/// Stated for destinations other than the flag register itself.
pub proof fn lemma_sub_borrow(pre: SystemView, x: u16, y: u16, rnd: u8)
    requires
        pre.wf(),
        x < 15,
        y < 16,
    ensures
        step_spec(pre, encode(0x8, x, y, 0x5), rnd) matches Ok(post) && {
            let vx = pre.regs.gp[x as int];
            let vy = pre.regs.gp[y as int];
            &&& vx >= vy ==> post.regs.gp[15] == 1u8 && post.regs.gp[x as int] == vx - vy
            &&& vx < vy ==> post.regs.gp[15] == 0u8 && post.regs.gp[x as int] == (vx - vy + 256)
                % 256
        },
{
    lemma_decode_encode(0x8, x, y, 0x5);
}

/// The call stack refuses exactly at its bounds: a push fails with
/// `StackOverflow` just when 16 addresses are already held, and a pop fails
/// with `StackUnderflow` just when none is.
pub proof fn lemma_stack_limits(r: RegistersView, addr: u16)
    requires
        r.wf(),
    ensures
        push_result(r, addr) is Err <==> r.sp == STACK_SIZE,
        push_result(r, addr) is Err ==> push_result(r, addr)
            == Err::<RegistersView, ChipError>(ChipError::StackOverflow),
        pop_result(r) is Err <==> r.sp == 0,
        pop_result(r) is Err ==> pop_result(r) == Err::<(RegistersView, u16), ChipError>(
            ChipError::StackUnderflow,
        ),
{
}

/// A run of pushes, one per address, first address first.
pub open spec fn push_all(r: RegistersView, addrs: Seq<u16>) -> Result<RegistersView, ChipError>
    decreases addrs.len(),
{
    if addrs.len() == 0 {
        Ok(r)
    } else {
        match push_result(r, addrs[0]) {
            Ok(r2) => push_all(r2, addrs.drop_first()),
            Err(e) => Err(e),
        }
    }
}

/// As many addresses as the stack has room for all push successfully, land
/// in order above the old pointer, and raise it by their count: an empty
/// stack takes sixteen.
pub proof fn lemma_pushes_within_capacity_succeed(r: RegistersView, addrs: Seq<u16>)
    requires
        r.wf(),
        r.sp + addrs.len() <= STACK_SIZE,
    ensures
        (push_all(r, addrs) matches Ok(r2) && {
            &&& r2.wf()
            &&& r2.sp == r.sp + addrs.len()
            &&& forall|j: int| 0 <= j < addrs.len() ==> r2.stack[r.sp + j] == addrs[j]
            &&& forall|j: int| 0 <= j < r.sp ==> r2.stack[j] == r.stack[j]
        }),
    decreases addrs.len(),
{
    if addrs.len() > 0 {
        let r1 = push_result(r, addrs[0])->Ok_0;
        lemma_pushes_within_capacity_succeed(r1, addrs.drop_first());
        let r2 = push_all(r1, addrs.drop_first())->Ok_0;
        assert(r2.stack[r.sp] == addrs[0]);
        assert forall|j: int| 0 < j < addrs.len() implies r2.stack[r.sp + j] == addrs[j] by {
            assert(r2.stack[r1.sp + (j - 1)] == addrs.drop_first()[j - 1]);
        }
    }
}

/// Pushing an address and then popping hands the same address back and
/// returns the stack pointer to where it stood.
pub proof fn lemma_push_pop_roundtrip(r: RegistersView, addr: u16)
    requires
        r.wf(),
        r.sp < STACK_SIZE,
    ensures
        push_result(r, addr) matches Ok(pushed) && pop_result(pushed) matches Ok(ra) && ra.1
            == addr && ra.0.sp == r.sp,
{
}

/// Whether the condition of one of the four skip opcodes holds of a state.
pub open spec fn skip_condition(pre: SystemView, word: u16) -> bool {
    let h = op_header(word);
    let vx = pre.regs.gp[op_x(word) as int];
    let vy = pre.regs.gp[op_y(word) as int];
    let kk = op_byte(word);
    if h == 0x3 {
        vx == kk
    } else if h == 0x4 {
        vx != kk
    } else if h == 0x5 {
        vx == vy
    } else {
        vx != vy
    }
}

/// The four skip opcodes move the program counter by exactly 2 extra when
/// their condition holds and by nothing otherwise, and touch nothing else;
/// the ordinary step to the next instruction is the driver's business, not
/// theirs.
pub proof fn lemma_skip_opcodes(pre: SystemView, word: u16, rnd: u8)
    requires
        pre.wf(),
        op_header(word) == 0x3 || op_header(word) == 0x4 || op_header(word) == 0x5 || op_header(
            word,
        ) == 0x9,
    ensures
        step_spec(pre, word, rnd) matches Ok(post) && {
            &&& skip_condition(pre, word) ==> post.regs.pc == wrap16(pre.regs.pc + 2)
            &&& !skip_condition(pre, word) ==> post.regs.pc == pre.regs.pc
            &&& post == (SystemView { regs: RegistersView { pc: post.regs.pc, ..pre.regs }, ..pre })
        },
{
}

/// Which header/sub-selector pairs the dispatch table covers.
pub open spec fn covered(word: u16) -> bool {
    let h = op_header(word);
    let n = op_n(word);
    let kk = op_byte(word);
    if h == 0x0 {
        n == 0x0 || n == 0xE
    } else if h == 0x8 {
        n <= 0x7 || n == 0xE
    } else if h == 0xE {
        kk == 0x9E || kk == 0xA1
    } else if h == 0xF {
        kk == 0x07 || kk == 0x0A || kk == 0x15 || kk == 0x18 || kk == 0x1E || kk == 0x29 || kk
            == 0x33 || kk == 0x55 || kk == 0x65
    } else {
        true
    }
}

/// A word steps to `InvalidInstruction` exactly when its header and
/// sub-selector fall outside the dispatch table; a covered word may still
/// fail, but never with that error.
pub proof fn lemma_invalid_instruction(pre: SystemView, word: u16, rnd: u8)
    requires
        pre.wf(),
    ensures
        step_spec(pre, word, rnd) == Err::<SystemView, ChipError>(ChipError::InvalidInstruction)
            <==> !covered(word),
{
    crate::opcode::lemma_opcode_fields(word);
}

} // verus!
