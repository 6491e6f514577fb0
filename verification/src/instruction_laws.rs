use vstd::prelude::*;
use crate::spec;
use crate::spec::State;

verus! {

// Each law here says what one instruction does in terms of the machine state
// before and after it, with the instruction's fields read straight from the
// opcode's hex digits.

/// The leading hex digit of an instruction.
pub open spec fn digit_class(op: u16) -> int {
    op as int / 0x1000
}

/// The second hex digit of an instruction.
pub open spec fn digit_x(op: u16) -> int {
    (op as int / 0x100) % 0x10
}

/// The third hex digit of an instruction.
pub open spec fn digit_y(op: u16) -> int {
    (op as int / 0x10) % 0x10
}

/// The last two hex digits of an instruction.
pub open spec fn low_two_digits(op: u16) -> int {
    op as int % 0x100
}

/// The last three hex digits of an instruction.
pub open spec fn low_three_digits(op: u16) -> int {
    op as int % 0x1000
}

// ---------------------------------------------------------------------------
// Dxyn
// ---------------------------------------------------------------------------

/// Bit `7 - col` of sprite row `row`: the pixel in column `col`, counted
/// from the most significant bit.
pub open spec fn sprite_pixel_on(s: State, row: int, col: int) -> bool {
    (s.mem[s.index_reg + row] >> ((7 - col) as u8)) & 1u8 == 1u8
}

/// Sprite pixel (`row`, `col`) lands on display index `i`: the sprite's
/// corner is at column Vx mod 64 of line Vy mod 32, and a line holds 64
/// pixels.
pub open spec fn lands_at(s: State, row: int, col: int, i: int) -> bool {
    let x0 = s.register[digit_x(s.opcode)] % 64;
    let y0 = s.register[digit_y(s.opcode)] % 32;
    (y0 + row) * 64 + x0 + col == i
}

/// A set pixel of the n-row sprite lands on display index `i`.
pub open spec fn sprite_hits(s: State, i: int) -> bool {
    exists|row: int, col: int|
        0 <= row < s.opcode as int % 0x10 && 0 <= col < 8 && #[trigger] sprite_pixel_on(s, row, col)
            && #[trigger] lands_at(s, row, col, i)
}

proof fn lemma_pixel_bit(b: u8, c: u8)
    requires
        c < 8,
    ensures
        (b & (0x80u8 >> c) != 0u8) == ((b >> ((7 - c) as u8)) & 1u8 == 1u8),
{
    let d: u8 = (7 - c) as u8;
    assert((b & (0x80u8 >> c) != 0u8) == ((b >> d) & 1u8 == 1u8)) by (bit_vector)
        requires
            c < 8,
            d == 7 - c,
    ;
}

proof fn lemma_sprite_hits_is_covers(s: State, i: int)
    ensures
        sprite_hits(s, i) == spec::covers(s, i),
{
    let origin = spec::sprite_origin(s);
    let d = i - origin;
    assert(digit_x(s.opcode) == spec::op_x(s.opcode));
    assert(digit_y(s.opcode) == spec::op_y(s.opcode));
    if spec::covers(s, i) {
        let row = d / 64;
        let col = d % 64;
        assert(d == row * 64 + col);
        lemma_pixel_bit(s.mem[s.index_reg + row], col as u8);
        assert(sprite_pixel_on(s, row, col));
        assert(lands_at(s, row, col, i));
    }
    if sprite_hits(s, i) {
        let (row, col) = choose|row: int, col: int|
            0 <= row < s.opcode as int % 0x10 && 0 <= col < 8 && #[trigger] sprite_pixel_on(
                s,
                row,
                col,
            ) && #[trigger] lands_at(s, row, col, i);
        assert(d == row * 64 + col);
        assert(d / 64 == row);
        assert(d % 64 == col);
        lemma_pixel_bit(s.mem[s.index_reg + row], col as u8);
    }
}

/// Dxyn flips exactly the display pixels on which a set sprite pixel
/// lands; VF becomes 1 when some pixel went from on to off and 0 when none
/// did, whatever VF held before; nothing else changes.
pub proof fn lemma_draw_flips_sprite_pixels_and_flags_collision(s: State)
    requires
        spec::wf(s),
        digit_class(s.opcode) == 0xD,
        spec::executable(s),
    ensures
        ({
            let t = spec::execute(s, 0);
            &&& t.graphics.len() == 2048
            &&& forall|i: int|
                0 <= i < 2048 ==> #[trigger] t.graphics[i] == (s.graphics[i] != sprite_hits(s, i))
            &&& t.register[15] == if exists|i: int|
                0 <= i < 2048 && #[trigger] s.graphics[i] && !t.graphics[i] {
                1u8
            } else {
                0u8
            }
            &&& forall|j: int| 0 <= j < 15 ==> #[trigger] t.register[j] == s.register[j]
            &&& t == (State { graphics: t.graphics, register: t.register, ..s })
        }),
{
    let t = spec::execute(s, 0);
    assert(t == spec::draw(s));
    assert forall|i: int| 0 <= i < 2048 implies #[trigger] t.graphics[i] == (s.graphics[i]
        != sprite_hits(s, i)) by {
        lemma_sprite_hits_is_covers(s, i);
    }
    if spec::collision(s) {
        let w = choose|i: int| 0 <= i < 2048 && spec::covers(s, i) && s.graphics[i];
        assert(s.graphics[w] && !t.graphics[w]);
    }
    if exists|i: int| 0 <= i < 2048 && #[trigger] s.graphics[i] && !t.graphics[i] {
        let w = choose|i: int| 0 <= i < 2048 && #[trigger] s.graphics[i] && !t.graphics[i];
        assert(spec::covers(s, w));
    }
}

// ---------------------------------------------------------------------------
// 8xy6, 8xyE
// ---------------------------------------------------------------------------

/// 8xy6 (x not F): VF is the bit shifted out at the bottom and Vx the rest,
/// so 2 * Vx' + VF is the old Vx; the other registers stay.
pub proof fn lemma_shift_right_splits_low_bit(s: State)
    requires
        spec::wf(s),
        digit_class(s.opcode) == 8,
        s.opcode as int % 0x10 == 6,
        digit_x(s.opcode) != 15,
    ensures
        ({
            let t = spec::execute(s, 0);
            let x = digit_x(s.opcode);
            &&& t.register[15] <= 1
            &&& 2 * t.register[x] + t.register[15] == s.register[x]
            &&& forall|j: int| 0 <= j < 15 && j != x ==> #[trigger] t.register[j] == s.register[j]
            &&& t == (State { register: t.register, ..s })
        }),
{
}

/// 8xyE (x not F): VF is the bit shifted out at the top and Vx the rest, so
/// 256 * VF + Vx' is twice the old Vx; the other registers stay.
pub proof fn lemma_shift_left_splits_high_bit(s: State)
    requires
        spec::wf(s),
        digit_class(s.opcode) == 8,
        s.opcode as int % 0x10 == 0xE,
        digit_x(s.opcode) != 15,
    ensures
        ({
            let t = spec::execute(s, 0);
            let x = digit_x(s.opcode);
            &&& t.register[15] <= 1
            &&& 256 * t.register[15] + t.register[x] == 2 * s.register[x]
            &&& forall|j: int| 0 <= j < 15 && j != x ==> #[trigger] t.register[j] == s.register[j]
            &&& t == (State { register: t.register, ..s })
        }),
{
}

// ---------------------------------------------------------------------------
// Fx0A
// ---------------------------------------------------------------------------

/// Fx0A: with key k pressed and no lower-numbered key pressed, Vx becomes k
/// and the program goes on; with no key pressed nothing changes but the
/// program counter, which moves back two so the instruction runs again.
pub proof fn lemma_wait_key_takes_lowest_pressed_key(s: State, k: int)
    requires
        spec::wf(s),
        digit_class(s.opcode) == 0xF,
        low_two_digits(s.opcode) == 0x0A,
        spec::executable(s),
    ensures
        ({
            let t = spec::execute(s, 0);
            &&& (0 <= k < 16 && s.input_key[k] && forall|j: int| 0 <= j < k ==> !s.input_key[j])
                ==> t.register[digit_x(s.opcode)] == k && t == (State {
                register: s.register.update(digit_x(s.opcode), k as u8),
                ..s
            })
            &&& (forall|j: int| 0 <= j < 16 ==> !s.input_key[j]) ==> t == (State {
                program_counter: (s.program_counter - 2) as u16,
                ..s
            })
            &&& (forall|j: int| 0 <= j < 16 ==> !s.input_key[j]) ==> t.program_counter
                == s.program_counter - 2
        }),
{
    let keys = s.input_key;
    if 0 <= k < 16 && keys[k] && forall|j: int| 0 <= j < k ==> !keys[j] {
        let f = spec::first_pressed(keys);
        assert(0 <= f < 16 && keys[f] && forall|j: int| 0 <= j < f ==> !keys[j]);
        assert(f == k);
    }
}

// ---------------------------------------------------------------------------
// Bnnn
// ---------------------------------------------------------------------------

/// Bnnn: the program counter becomes the sum of V0 and nnn; nothing else
/// changes.
pub proof fn lemma_jump_offset_adds_v0(s: State)
    requires
        spec::wf(s),
        digit_class(s.opcode) == 0xB,
    ensures
        spec::execute(s, 0).program_counter == s.register[0] + low_three_digits(s.opcode),
        spec::execute(s, 0) == (State {
            program_counter: spec::execute(s, 0).program_counter,
            ..s
        }),
{
}

// ---------------------------------------------------------------------------
// Loading bytes
// ---------------------------------------------------------------------------

/// Writing `data` at `at` puts its byte j at address at + j, for every j,
/// and leaves every other address and everything but memory as it was.
pub proof fn lemma_written_bytes_land_in_place(s: State, at: int, data: Seq<u8>)
    requires
        spec::wf(s),
        0 <= at,
        at + data.len() <= 4096,
    ensures
        ({
            let t = spec::with_bytes(s, at, data);
            &&& t.mem.len() == 4096
            &&& forall|j: int| 0 <= j < data.len() ==> #[trigger] t.mem[at + j] == data[j]
            &&& forall|a: int|
                0 <= a < 4096 && !(at <= a < at + data.len()) ==> #[trigger] t.mem[a] == s.mem[a]
            &&& t == (State { mem: t.mem, ..s })
        }),
{
}

// ---------------------------------------------------------------------------
// The other instructions
// ---------------------------------------------------------------------------

/// 00E0: every pixel is off afterwards; nothing else changes.
pub proof fn lemma_clear_screen_blanks_display(s: State)
    requires
        spec::wf(s),
        s.opcode == 0x00E0,
    ensures
        ({
            let t = spec::execute(s, 0);
            &&& t.graphics.len() == 2048
            &&& forall|i: int| 0 <= i < 2048 ==> !#[trigger] t.graphics[i]
            &&& t == (State { graphics: t.graphics, ..s })
        }),
{
}

/// 00EE: the program counter becomes the address saved just below the
/// stack pointer, and the stack pointer moves down by one.
pub proof fn lemma_return_pops_saved_address(s: State)
    requires
        spec::wf(s),
        s.opcode == 0x00EE,
        spec::executable(s),
    ensures
        ({
            let t = spec::execute(s, 0);
            &&& t.stack_pointer + 1 == s.stack_pointer
            &&& t.program_counter == s.stack[s.stack_pointer - 1]
            &&& t == (State {
                program_counter: t.program_counter,
                stack_pointer: t.stack_pointer,
                ..s
            })
        }),
{
}

/// 1nnn: the program counter becomes nnn; 2nnn: the same, after the old
/// program counter is saved in the stack slot at the stack pointer and the
/// stack pointer moves up by one.
pub proof fn lemma_jump_and_call_targets(s: State)
    requires
        spec::wf(s),
        digit_class(s.opcode) == 1 || digit_class(s.opcode) == 2,
        spec::executable(s),
    ensures
        ({
            let t = spec::execute(s, 0);
            &&& t.program_counter == low_three_digits(s.opcode)
            &&& digit_class(s.opcode) == 1 ==> t == (State {
                program_counter: t.program_counter,
                ..s
            })
            &&& digit_class(s.opcode) == 2 ==> {
                &&& t.stack_pointer == s.stack_pointer + 1
                &&& t.stack.len() == s.stack.len()
                &&& t.stack[s.stack_pointer as int] == s.program_counter
                &&& forall|j: int|
                    0 <= j < s.stack.len() && j != s.stack_pointer ==> #[trigger] t.stack[j]
                        == s.stack[j]
                &&& t == (State {
                    program_counter: t.program_counter,
                    stack_pointer: t.stack_pointer,
                    stack: t.stack,
                    ..s
                })
            }
        }),
{
}

/// 3xkk, 4xkk, 5xy0, 9xy0: the program counter moves on by two exactly
/// when Vx equals kk, differs from kk, equals Vy, differs from Vy
/// respectively; nothing else changes.
pub proof fn lemma_conditional_skips(s: State)
    requires
        spec::wf(s),
        digit_class(s.opcode) == 3 || digit_class(s.opcode) == 4 || digit_class(s.opcode) == 5
            || digit_class(s.opcode) == 9,
        spec::executable(s),
    ensures
        ({
            let t = spec::execute(s, 0);
            let c = digit_class(s.opcode);
            let vx = s.register[digit_x(s.opcode)] as int;
            let vy = s.register[digit_y(s.opcode)] as int;
            let kk = low_two_digits(s.opcode);
            let taken = if c == 3 {
                vx == kk
            } else if c == 4 {
                vx != kk
            } else if c == 5 {
                vx == vy
            } else {
                vx != vy
            };
            &&& t.program_counter == s.program_counter + if taken { 2int } else { 0int }
            &&& t == (State { program_counter: t.program_counter, ..s })
        }),
{
}

/// Ex9E, ExA1: the program counter moves on by two exactly when the key
/// numbered Vx is pressed, respectively not pressed; nothing else changes.
pub proof fn lemma_key_skips(s: State)
    requires
        spec::wf(s),
        digit_class(s.opcode) == 0xE,
        low_two_digits(s.opcode) == 0x9E || low_two_digits(s.opcode) == 0xA1,
        spec::executable(s),
    ensures
        ({
            let t = spec::execute(s, 0);
            let pressed = s.input_key[s.register[digit_x(s.opcode)] as int];
            let taken = if low_two_digits(s.opcode) == 0x9E {
                pressed
            } else {
                !pressed
            };
            &&& s.register[digit_x(s.opcode)] < 16
            &&& t.program_counter == s.program_counter + if taken { 2int } else { 0int }
            &&& t == (State { program_counter: t.program_counter, ..s })
        }),
{
}

/// 6xkk, 7xkk and 8xy0-8xy3 change register Vx alone: to kk, to Vx + kk
/// modulo 256, to Vy, Vx OR Vy, Vx AND Vy, Vx XOR Vy.
pub proof fn lemma_register_loads_and_logic(s: State)
    requires
        spec::wf(s),
        digit_class(s.opcode) == 6 || digit_class(s.opcode) == 7 || (digit_class(s.opcode) == 8
            && s.opcode as int % 0x10 <= 3),
    ensures
        ({
            let t = spec::execute(s, 0);
            let c = digit_class(s.opcode);
            let n = s.opcode as int % 0x10;
            let x = digit_x(s.opcode);
            let vx = s.register[x];
            let vy = s.register[digit_y(s.opcode)];
            let kk = low_two_digits(s.opcode);
            &&& c == 6 ==> t.register[x] == kk
            &&& c == 7 ==> t.register[x] == (vx + kk) % 256
            &&& (c == 8 && n == 0) ==> t.register[x] == vy
            &&& (c == 8 && n == 1) ==> t.register[x] == vx | vy
            &&& (c == 8 && n == 2) ==> t.register[x] == vx & vy
            &&& (c == 8 && n == 3) ==> t.register[x] == vx ^ vy
            &&& forall|j: int| 0 <= j < 16 && j != x ==> #[trigger] t.register[j] == s.register[j]
            &&& t == (State { register: t.register, ..s })
        }),
{
}

/// 8xy4, 8xy5, 8xy7 (x, y not F): VF is the carry, respectively NOT borrow,
/// so that 256 * VF + Vx' = Vx + Vy, respectively Vx' = 256 * VF + Vx - Vy
/// and Vx' = 256 * VF + Vy - Vx; the other registers stay.
pub proof fn lemma_add_and_subtract_flags(s: State)
    requires
        spec::wf(s),
        digit_class(s.opcode) == 8,
        s.opcode as int % 0x10 == 4 || s.opcode as int % 0x10 == 5 || s.opcode as int % 0x10
            == 7,
        digit_x(s.opcode) != 15,
        digit_y(s.opcode) != 15,
    ensures
        ({
            let t = spec::execute(s, 0);
            let n = s.opcode as int % 0x10;
            let x = digit_x(s.opcode);
            let vx = s.register[x] as int;
            let vy = s.register[digit_y(s.opcode)] as int;
            let f = t.register[15] as int;
            &&& f <= 1
            &&& n == 4 ==> 256 * f + t.register[x] == vx + vy
            &&& n == 5 ==> f == (if vx > vy { 1int } else { 0int })
            &&& n == 5 ==> t.register[x] == 256 * (if vx >= vy { 0int } else { 1int }) + vx - vy
            &&& n == 7 ==> f == (if vy > vx { 1int } else { 0int })
            &&& n == 7 ==> t.register[x] == 256 * (if vy >= vx { 0int } else { 1int }) + vy - vx
            &&& forall|j: int| 0 <= j < 15 && j != x ==> #[trigger] t.register[j] == s.register[j]
            &&& t == (State { register: t.register, ..s })
        }),
{
}

/// Annn sets I to nnn; Fx1E adds Vx to I; Fx29 points I at the five-byte
/// font sprite of digit Vx, which starts at 0x50.
pub proof fn lemma_index_register_updates(s: State)
    requires
        spec::wf(s),
        digit_class(s.opcode) == 0xA || (digit_class(s.opcode) == 0xF && (low_two_digits(
            s.opcode,
        ) == 0x1E || low_two_digits(s.opcode) == 0x29)),
        spec::executable(s),
    ensures
        ({
            let t = spec::execute(s, 0);
            let vx = s.register[digit_x(s.opcode)] as int;
            &&& digit_class(s.opcode) == 0xA ==> t.index_reg == low_three_digits(s.opcode)
            &&& (digit_class(s.opcode) == 0xF && low_two_digits(s.opcode) == 0x1E) ==> t.index_reg
                == s.index_reg + vx
            &&& (digit_class(s.opcode) == 0xF && low_two_digits(s.opcode) == 0x29) ==> t.index_reg
                == 0x50 + 5 * vx
            &&& t == (State { index_reg: t.index_reg, ..s })
        }),
{
}

/// Fx07 copies the delay timer into Vx; Fx15 and Fx18 copy Vx into the delay
/// and sound timers.
pub proof fn lemma_timer_transfers(s: State)
    requires
        spec::wf(s),
        digit_class(s.opcode) == 0xF,
        low_two_digits(s.opcode) == 0x07 || low_two_digits(s.opcode) == 0x15 || low_two_digits(
            s.opcode,
        ) == 0x18,
    ensures
        ({
            let t = spec::execute(s, 0);
            let b = low_two_digits(s.opcode);
            let x = digit_x(s.opcode);
            &&& b == 0x07 ==> t == (State {
                register: s.register.update(x, s.delay_timer),
                ..s
            })
            &&& b == 0x15 ==> t == (State { delay_timer: s.register[x], ..s })
            &&& b == 0x18 ==> t == (State { sound_timer: s.register[x], ..s })
        }),
{
}

/// Cxkk: Vx has no bit outside kk, and every byte whose bits lie within kk
/// is the outcome for some random byte; nothing else changes.
pub proof fn lemma_random_within_mask(s: State, r: u8, v: u8)
    requires
        spec::wf(s),
        digit_class(s.opcode) == 0xC,
    ensures
        ({
            let t = spec::execute(s, r);
            let x = digit_x(s.opcode);
            let kk = low_two_digits(s.opcode) as u8;
            &&& t.register[x] | kk == kk
            &&& (v | kk == kk) ==> spec::execute(s, v).register[x] == v
            &&& t == (State { register: s.register.update(x, t.register[x]), ..s })
        }),
{
    let x = digit_x(s.opcode);
    let kk = low_two_digits(s.opcode) as u8;
    let w = r & kk;
    assert(w | kk == kk) by (bit_vector)
        requires
            w == r & kk,
    ;
    if v | kk == kk {
        assert(v & kk == v) by (bit_vector)
            requires
                v | kk == kk,
        ;
    }
}

/// Fx33: I, I + 1, I + 2 hold digits below ten that make up Vx, hundreds
/// first; no other address and nothing else changes.
pub proof fn lemma_bcd_writes_decimal_digits(s: State)
    requires
        spec::wf(s),
        digit_class(s.opcode) == 0xF,
        low_two_digits(s.opcode) == 0x33,
        spec::executable(s),
    ensures
        ({
            let t = spec::execute(s, 0);
            let i = s.index_reg as int;
            &&& t.mem.len() == 4096
            &&& t.mem[i] < 10 && t.mem[i + 1] < 10 && t.mem[i + 2] < 10
            &&& 100 * t.mem[i] + 10 * t.mem[i + 1] + t.mem[i + 2] == s.register[digit_x(s.opcode)]
            &&& forall|a: int|
                0 <= a < 4096 && a != i && a != i + 1 && a != i + 2 ==> #[trigger] t.mem[a]
                    == s.mem[a]
            &&& t == (State { mem: t.mem, ..s })
        }),
{
}

/// Fx55 writes V0 through Vx to I through I + x and leaves the rest of
/// memory; Fx65 reads I through I + x into V0 through Vx and leaves the
/// other registers.
pub proof fn lemma_register_block_transfers(s: State)
    requires
        spec::wf(s),
        digit_class(s.opcode) == 0xF,
        low_two_digits(s.opcode) == 0x55 || low_two_digits(s.opcode) == 0x65,
        spec::executable(s),
    ensures
        ({
            let t = spec::execute(s, 0);
            let x = digit_x(s.opcode);
            let i = s.index_reg as int;
            &&& low_two_digits(s.opcode) == 0x55 ==> {
                &&& t.mem.len() == 4096
                &&& forall|j: int| 0 <= j <= x ==> #[trigger] t.mem[i + j] == s.register[j]
                &&& forall|a: int|
                    0 <= a < 4096 && !(i <= a <= i + x) ==> #[trigger] t.mem[a] == s.mem[a]
                &&& t == (State { mem: t.mem, ..s })
            }
            &&& low_two_digits(s.opcode) == 0x65 ==> {
                &&& t.register.len() == 16
                &&& forall|j: int| 0 <= j <= x ==> #[trigger] t.register[j] == s.mem[i + j]
                &&& forall|j: int| x < j < 16 ==> #[trigger] t.register[j] == s.register[j]
                &&& t == (State { register: t.register, ..s })
            }
        }),
{
}

/// A cycle runs the big-endian word at the program counter: the high byte
/// at the program counter, the low byte just after it.
pub proof fn lemma_cycle_runs_word_at_program_counter(s: State, r: u8)
    requires
        spec::wf(s),
        s.program_counter + 1 < 4096,
    ensures
        spec::cycle(s, r).opcode == 256 * s.mem[s.program_counter as int] + s.mem[s.program_counter
            + 1],
{
}

/// The frame buffer has one word per display pixel, non-zero exactly where
/// the pixel is on.
pub proof fn lemma_frame_shows_lit_pixels(s: State)
    requires
        spec::wf(s),
    ensures
        spec::frame(s).len() == 2048,
        forall|i: int|
            0 <= i < 2048 ==> (#[trigger] spec::frame(s)[i] != 0) == s.graphics[i]
                && (s.graphics[i] ==> spec::frame(s)[i] == 0x00FFFFFF),
{
}

} // verus!
