use vstd::prelude::*;
use crate::spec;
use crate::spec::State;

verus! {

/// The random byte matters to Cxkk alone: every other opcode has one
/// outcome.
pub proof fn lemma_random_byte_only_read_by_rnd(s: State, r1: u8, r2: u8)
    requires
        spec::op_class(s.opcode) != 0xC,
    ensures
        spec::execute(s, r1) == spec::execute(s, r2),
{
}

/// The opcodes that name an instruction; all others are ignored.
pub open spec fn names_instruction(op: u16) -> bool {
    let c = spec::op_class(op);
    let n = spec::op_n(op);
    let b = op % 256;
    if c == 0 {
        op == 0x00E0 || op == 0x00EE
    } else if c == 8 {
        n <= 7 || n == 0xE
    } else if c == 0xE {
        b == 0x9E || b == 0xA1
    } else if c == 0xF {
        b == 0x07 || b == 0x0A || b == 0x15 || b == 0x18 || b == 0x1E || b == 0x29 || b == 0x33
            || b == 0x55 || b == 0x65
    } else {
        true
    }
}

/// An opcode that names no instruction leaves the machine unchanged.
pub proof fn lemma_unknown_opcode_is_ignored(s: State, r: u8)
    requires
        !names_instruction(s.opcode),
    ensures
        spec::executable(s),
        spec::execute(s, r) == s,
{
}

/// CALL followed by RET comes back to the instruction after the CALL: the
/// program counter and the stack pointer are those from before the CALL.
pub proof fn lemma_call_then_return(s: State)
    requires
        spec::op_class(s.opcode) == 2,
        spec::call_ok(s),
    ensures
        ({
            let called = spec::execute(s, 0);
            let ret = State { opcode: 0x00EE, ..called };
            &&& spec::executable(ret)
            &&& spec::execute(ret, 0).program_counter == s.program_counter
            &&& spec::execute(ret, 0).stack_pointer == s.stack_pointer
        }),
{
}

/// Drawing the same sprite twice at the same place restores the display,
/// when neither coordinate register is VF (which the first drawing
/// overwrites).
pub proof fn lemma_draw_twice_restores_display(s: State)
    requires
        spec::wf(s),
        spec::op_class(s.opcode) == 0xD,
        spec::op_x(s.opcode) != 15,
        spec::op_y(s.opcode) != 15,
        spec::draw_ok(s),
    ensures
        spec::executable(spec::execute(s, 0)),
        spec::execute(spec::execute(s, 0), 0).graphics == s.graphics,
        ({
            let t = spec::execute(spec::execute(s, 0), 0);
            &&& t == (State { register: t.register, ..s })
            &&& forall|i: int| 0 <= i < 15 ==> #[trigger] t.register[i] == s.register[i]
        }),
{
    let s1 = spec::execute(s, 0);
    assert(spec::vx(s1) == spec::vx(s));
    assert(spec::vy(s1) == spec::vy(s));
    assert forall|row: int, col: int| #![auto]
        spec::sprite_bit(s1, row, col) == spec::sprite_bit(s, row, col) by {}
    assert forall|i: int| #![auto] spec::covers(s1, i) == spec::covers(s, i) by {}
    assert(spec::execute(s1, 0).graphics =~= s.graphics);
}

/// Storing V0..Vx with Fx55 and reading them back with Fx65 from the same
/// address gives the registers as they were.
pub proof fn lemma_store_then_load_registers(s: State)
    requires
        spec::wf(s),
        spec::op_class(s.opcode) == 0xF,
        s.opcode % 256 == 0x55,
        spec::block_ok(s),
    ensures
        ({
            let stored = spec::execute(s, 0);
            let load = State { opcode: (s.opcode + 0x10) as u16, ..stored };
            &&& spec::executable(load)
            &&& spec::execute(load, 0).register == s.register
            &&& spec::execute(load, 0).mem == stored.mem
        }),
{
    let stored = spec::execute(s, 0);
    let load = State { opcode: (s.opcode + 0x10) as u16, ..stored };
    assert(spec::op_x(load.opcode) == spec::op_x(s.opcode));
    assert(spec::execute(load, 0).register =~= s.register);
}

/// Fx33 writes the decimal digits of Vx: each below ten, and together
/// they make up Vx.
pub proof fn lemma_bcd_digits(s: State)
    requires
        spec::wf(s),
        spec::op_class(s.opcode) == 0xF,
        s.opcode % 256 == 0x33,
        spec::bcd_ok(s),
    ensures
        ({
            let m = spec::execute(s, 0).mem;
            let i = s.index_reg as int;
            &&& m[i] < 10 && m[i + 1] < 10 && m[i + 2] < 10
            &&& 100 * m[i] + 10 * m[i + 1] + m[i + 2] == spec::vx(s)
        }),
{
}

/// 8xy4 loses nothing: 256 * VF + Vx afterwards is the sum of Vx and Vy
/// before (when x is not F).
pub proof fn lemma_add_with_carry(s: State)
    requires
        spec::wf(s),
        spec::op_class(s.opcode) == 8,
        spec::op_n(s.opcode) == 4,
        spec::op_x(s.opcode) != 15,
    ensures
        ({
            let t = spec::execute(s, 0);
            256 * t.register[15] + t.register[spec::op_x(s.opcode)] == spec::vx(s) + spec::vy(s)
        }),
{
}

/// 8xy5 with neither operand in VF: VF is NOT borrow (1 when Vx > Vy),
/// and the new Vx is Vx - Vy modulo 256.
pub proof fn lemma_subtract_with_flag(s: State)
    requires
        spec::wf(s),
        spec::op_class(s.opcode) == 8,
        spec::op_n(s.opcode) == 5,
        spec::op_x(s.opcode) != 15,
        spec::op_y(s.opcode) != 15,
    ensures
        ({
            let t = spec::execute(s, 0);
            &&& t.register[15] == (if spec::vx(s) > spec::vy(s) { 1u8 } else { 0u8 })
            &&& t.register[spec::op_x(s.opcode)] == (spec::vx(s) - spec::vy(s)) % 256
            &&& (t.register[spec::op_x(s.opcode)] + spec::vy(s)) % 256 == spec::vx(s)
        }),
{
}

/// 8xy7 with neither operand in VF: VF is NOT borrow (1 when Vy > Vx),
/// and the new Vx is Vy - Vx modulo 256.
pub proof fn lemma_subtract_reversed_with_flag(s: State)
    requires
        spec::wf(s),
        spec::op_class(s.opcode) == 8,
        spec::op_n(s.opcode) == 7,
        spec::op_x(s.opcode) != 15,
        spec::op_y(s.opcode) != 15,
    ensures
        ({
            let t = spec::execute(s, 0);
            &&& t.register[15] == (if spec::vy(s) > spec::vx(s) { 1u8 } else { 0u8 })
            &&& t.register[spec::op_x(s.opcode)] == (spec::vy(s) - spec::vx(s)) % 256
        }),
{
}

/// 7xkk adds modulo 256 and leaves every other register, VF included,
/// as it was.
pub proof fn lemma_add_byte_wraps(s: State)
    requires
        spec::wf(s),
        spec::op_class(s.opcode) == 7,
    ensures
        ({
            let t = spec::execute(s, 0);
            &&& t.register[spec::op_x(s.opcode)] == (spec::vx(s) + spec::op_kk(s.opcode)) % 256
            &&& forall|i: int|
                0 <= i < 16 && i != spec::op_x(s.opcode) ==> #[trigger] t.register[i]
                    == s.register[i]
            &&& t == (State { register: t.register, ..s })
        }),
{
}

/// With the sixteen-level stack of a new machine, CALL runs at every stack
/// depth below sixteen: it saves the return address in the slot at the
/// stack pointer, leaves the other slots alone and moves the stack pointer
/// up by one.  Sixteen CALLs can therefore nest.
pub proof fn lemma_sixteen_level_stack(s: State)
    requires
        s.stack.len() == spec::STACK_LEVELS,
        s.stack_pointer < spec::STACK_LEVELS,
        spec::op_class(s.opcode) == 2,
    ensures
        spec::initial_state().stack.len() == spec::STACK_LEVELS,
        spec::executable(s),
        spec::execute(s, 0).stack == s.stack.update(s.stack_pointer as int, s.program_counter),
        spec::execute(s, 0).stack_pointer == s.stack_pointer + 1,
        spec::execute(s, 0).program_counter == spec::op_nnn(s.opcode),
{
}

/// Two cycles running CALL q and then the RET at q come back to the
/// instruction after the CALL, with the stack pointer, the registers,
/// memory, the display and I as they were.
pub proof fn lemma_call_then_return_cycles(s: State, q: u16, r1: u8, r2: u8)
    requires
        spec::wf(s),
        s.program_counter + 1 < 4096,
        q + 1 < 4096,
        q + 1 < s.program_counter || s.program_counter + 1 < q,
        s.mem[s.program_counter as int] == 0x20 + q / 256,
        s.mem[s.program_counter + 1] == q % 256,
        s.mem[q as int] == 0x00,
        s.mem[q + 1] == 0xEE,
        spec::call_ok(s),
    ensures
        spec::cycle_ok(s),
        spec::cycle_ok(spec::cycle(s, r1)),
        ({
            let t = spec::cycle(spec::cycle(s, r1), r2);
            &&& t.program_counter == s.program_counter + 2
            &&& t.stack_pointer == s.stack_pointer
            &&& t.register == s.register
            &&& t.mem == s.mem
            &&& t.graphics == s.graphics
            &&& t.index_reg == s.index_reg
        }),
{
    assert(spec::fetch(s).opcode == 0x2000 + q);
}

/// 5xy0 and 9xy0 on the same registers skip in complementary cases: exactly
/// one of them moves the program counter on by two, and neither changes
/// anything else.
#[verifier::spinoff_prover]
#[verifier::rlimit(40)]
pub proof fn lemma_equal_and_unequal_skips_complement(s: State)
    requires
        spec::op_class(s.opcode) == 5,
        s.program_counter <= 0xFFFD,
    ensures
        ({
            let ne = State { opcode: (s.opcode + 0x4000) as u16, ..s };
            let t5 = spec::execute(s, 0);
            let t9 = spec::execute(ne, 0);
            &&& spec::executable(s) && spec::executable(ne)
            &&& t9.program_counter == if spec::vx(s) != spec::vy(s) {
                s.program_counter + 2
            } else {
                s.program_counter as int
            }
            &&& (t5.program_counter == s.program_counter + 2) != (t9.program_counter
                == s.program_counter + 2)
            &&& t5 == (State { program_counter: t5.program_counter, ..s })
            &&& t9 == (State { program_counter: t9.program_counter, ..ne })
        }),
{
    let ne = State { opcode: (s.opcode + 0x4000) as u16, ..s };
    assert(ne.opcode == s.opcode + 0x4000);
    assert(spec::op_class(ne.opcode) == 9);
    assert(spec::op_x(ne.opcode) == spec::op_x(s.opcode));
    assert(spec::op_y(ne.opcode) == spec::op_y(s.opcode));
    assert(spec::vx(ne) == spec::vx(s) && spec::vy(ne) == spec::vy(s));
    assert(spec::execute(ne, 0) == spec::skip_if(ne, spec::vx(s) != spec::vy(s)));
    assert(spec::execute(s, 0) == spec::skip_if(s, spec::vx(s) == spec::vy(s)));
}

/// A cycle counts each timer down by one, stopping at zero, unless the
/// instruction it runs is the one that sets that timer (Fx15, Fx18).
pub proof fn lemma_cycle_counts_timers_down(s: State, r: u8)
    ensures
        ({
            let op = spec::fetch(s).opcode;
            let sets_delay = spec::op_class(op) == 0xF && op % 256 == 0x15;
            let sets_sound = spec::op_class(op) == 0xF && op % 256 == 0x18;
            let t = spec::cycle(s, r);
            &&& (!sets_delay && s.delay_timer > 0) ==> t.delay_timer + 1 == s.delay_timer
            &&& (!sets_delay && s.delay_timer == 0) ==> t.delay_timer == 0
            &&& (!sets_sound && s.sound_timer > 0) ==> t.sound_timer + 1 == s.sound_timer
            &&& (!sets_sound && s.sound_timer == 0) ==> t.sound_timer == 0
        }),
{
}

/// Instructions that do not branch (6xkk, 7xkk, 8xyN, Annn, Cxkk, Dxyn and
/// the Fx group but Fx0A) leave the program counter just past themselves.
pub proof fn lemma_straight_line_instructions_advance(s: State, r: u8)
    requires
        s.program_counter + 1 < 4096,
        ({
            let op = spec::fetch(s).opcode;
            let c = spec::op_class(op);
            c == 6 || c == 7 || c == 8 || c == 0xA || c == 0xC || c == 0xD || (c == 0xF && op
                % 256 != 0x0A)
        }),
    ensures
        spec::cycle(s, r).program_counter == s.program_counter + 2,
{
}

/// After a program is loaded at the start address, the first cycle fetches
/// its first two bytes, high byte first.
pub proof fn lemma_loaded_program_is_fetched(s: State, data: Seq<u8>)
    requires
        spec::wf(s),
        2 <= data.len(),
        spec::START_ADDRESS + data.len() <= spec::MEM_SIZE,
        s.program_counter == spec::START_ADDRESS,
    ensures
        spec::fetch(spec::with_bytes(s, spec::START_ADDRESS as int, data)).opcode == data[0]
            * 256 + data[1],
{
}

} // verus!
