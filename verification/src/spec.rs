use vstd::prelude::*;

verus! {

/// Width of the display in pixels.
pub const VIDEO_WIDTH: usize = 64;

/// Height of the display in pixels.
pub const VIDEO_HEIGHT: usize = 32;

/// Number of bytes of addressable memory.
pub const MEM_SIZE: usize = 4096;

/// Address at which the built-in hexadecimal font is stored.
pub const FONTSET_START_ADDRESS: usize = 0x50;

/// Address at which a program is loaded; loading it points the program
/// counter there.
pub const START_ADDRESS: usize = 0x200;

/// The abstract state of the machine: every field of `Memory`, with the
/// fixed-size arrays and the call stack seen as sequences.
#[verifier::ext_equal]
pub struct State {
    pub mem: Seq<u8>,
    pub register: Seq<u8>,
    pub index_reg: u16,
    pub program_counter: u16,
    pub stack: Seq<u16>,
    pub stack_pointer: u8,
    pub delay_timer: u8,
    pub sound_timer: u8,
    pub input_key: Seq<bool>,
    pub graphics: Seq<bool>,
    pub opcode: u16,
    pub rng_state: u32,
}

/// The shapes that every state of a `Memory` has.
pub open spec fn wf(s: State) -> bool {
    &&& s.mem.len() == 4096
    &&& s.register.len() == 16
    &&& s.input_key.len() == 16
    &&& s.graphics.len() == 2048
}

/// The number of levels of the call stack.
pub const STACK_LEVELS: usize = 16;

/// The state of a freshly created machine: everything zero, no key pressed,
/// a blank screen and a sixteen-level stack of zero return addresses.
pub open spec fn initial_state() -> State {
    State {
        mem: Seq::new(4096, |i: int| 0u8),
        register: Seq::new(16, |i: int| 0u8),
        index_reg: 0,
        program_counter: 0,
        stack: Seq::new(16, |i: int| 0u16),
        stack_pointer: 0,
        delay_timer: 0,
        sound_timer: 0,
        input_key: Seq::new(16, |i: int| false),
        graphics: Seq::new(2048, |i: int| false),
        opcode: 0,
        rng_state: 0,
    }
}


/// Number of bytes in the built-in font: five rows for each of the sixteen
/// hex digits.
pub const FONTSET_SIZE: usize = 80;

/// The built-in font: digit `d` is the five-byte sprite at `5 * d`, one byte
/// per row, the high four bits being the pixels.
pub open spec fn fontset() -> Seq<u8> {
    seq![
        0xF0u8, 0x90, 0x90, 0x90, 0xF0, // 0
        0x20, 0x60, 0x20, 0x20, 0x70, // 1
        0xF0, 0x10, 0xF0, 0x80, 0xF0, // 2
        0xF0, 0x10, 0xF0, 0x10, 0xF0, // 3
        0x90, 0x90, 0xF0, 0x10, 0x10, // 4
        0xF0, 0x80, 0xF0, 0x10, 0xF0, // 5
        0xF0, 0x80, 0xF0, 0x90, 0xF0, // 6
        0xF0, 0x10, 0x20, 0x40, 0x40, // 7
        0xF0, 0x90, 0xF0, 0x90, 0xF0, // 8
        0xF0, 0x90, 0xF0, 0x10, 0xF0, // 9
        0xF0, 0x90, 0xF0, 0x90, 0x90, // A
        0xE0, 0x90, 0xE0, 0x90, 0xE0, // B
        0xF0, 0x80, 0x80, 0x80, 0xF0, // C
        0xE0, 0x90, 0x90, 0x90, 0xE0, // D
        0xF0, 0x80, 0xF0, 0x80, 0xF0, // E
        0xF0, 0x80, 0xF0, 0x80, 0x80, // F
    ]
}

/// `s` with `data` written to memory from address `at` on.
pub open spec fn with_bytes(s: State, at: int, data: Seq<u8>) -> State {
    State {
        mem: Seq::new(
            4096,
            |a: int| if at <= a < at + data.len() { data[a - at] } else { s.mem[a] },
        ),
        ..s
    }
}

/// The display as 32-bit pixels: white (0x00FFFFFF) where a pixel is on,
/// black (0) where it is off.
pub open spec fn frame(s: State) -> Seq<u32> {
    Seq::new(2048, |i: int| if s.graphics[i] { 0x00FFFFFFu32 } else { 0u32 })
}

// ---------------------------------------------------------------------------
// Instruction fields.  An instruction is a 16-bit word written as four hex
// digits; `x` and `y` name registers, `n` is a nibble, `kk` a byte and `nnn`
// an address.
// ---------------------------------------------------------------------------

/// The leading hex digit, which selects the instruction group.
pub open spec fn op_class(op: u16) -> int {
    (op / 4096) as int
}

/// The register named by the second hex digit.
pub open spec fn op_x(op: u16) -> int {
    ((op / 256) % 16) as int
}

/// The register named by the third hex digit.
pub open spec fn op_y(op: u16) -> int {
    ((op / 16) % 16) as int
}

/// The last hex digit.
pub open spec fn op_n(op: u16) -> int {
    (op % 16) as int
}

/// The low byte.
pub open spec fn op_kk(op: u16) -> u8 {
    (op % 256) as u8
}

/// The low twelve bits: an address.
pub open spec fn op_nnn(op: u16) -> u16 {
    op % 4096
}

/// Value of register Vx of the current instruction.
pub open spec fn vx(s: State) -> u8 {
    s.register[op_x(s.opcode)]
}

/// Value of register Vy of the current instruction.
pub open spec fn vy(s: State) -> u8 {
    s.register[op_y(s.opcode)]
}

/// `s` with register `i` set to `v`.
pub open spec fn set_reg(s: State, i: int, v: u8) -> State {
    State { register: s.register.update(i, v), ..s }
}

/// `s` with the next instruction skipped when `cond` holds.
pub open spec fn skip_if(s: State, cond: bool) -> State {
    if cond {
        State { program_counter: (s.program_counter + 2) as u16, ..s }
    } else {
        s
    }
}

/// A skip fits in the 16-bit program counter.
pub open spec fn skip_ok(s: State, cond: bool) -> bool {
    cond ==> s.program_counter + 2 <= u16::MAX
}

// ---------------------------------------------------------------------------
// Instruction semantics.
// ---------------------------------------------------------------------------

/// 00E0 CLS: every pixel off.
pub open spec fn clear_screen(s: State) -> State {
    State { graphics: Seq::new(2048, |i: int| false), ..s }
}

/// 00EE RET needs a saved return address below the stack pointer.
pub open spec fn return_ok(s: State) -> bool {
    1 <= s.stack_pointer && s.stack_pointer - 1 < s.stack.len()
}

/// 00EE RET: pop the return address into the program counter.
pub open spec fn return_from(s: State) -> State {
    State {
        stack_pointer: (s.stack_pointer - 1) as u8,
        program_counter: s.stack[s.stack_pointer - 1],
        ..s
    }
}

/// 1nnn JP addr.
pub open spec fn jump(s: State) -> State {
    State { program_counter: op_nnn(s.opcode), ..s }
}

/// 2nnn CALL needs a free stack slot and room in the 8-bit stack pointer.
pub open spec fn call_ok(s: State) -> bool {
    s.stack_pointer < s.stack.len() && s.stack_pointer < 255
}

/// 2nnn CALL addr: push the program counter, then jump.
pub open spec fn call(s: State) -> State {
    State {
        stack: s.stack.update(s.stack_pointer as int, s.program_counter),
        stack_pointer: (s.stack_pointer + 1) as u8,
        program_counter: op_nnn(s.opcode),
        ..s
    }
}

/// 7xkk ADD Vx, byte: Vx = Vx + kk modulo 256; VF is not touched (unless
/// it is Vx).
pub open spec fn add_byte(s: State) -> State {
    set_reg(s, op_x(s.opcode), ((vx(s) + op_kk(s.opcode)) % 256) as u8)
}

/// 8xy4 ADD Vx, Vy: VF is the carry, Vx keeps the low eight bits of the sum.
pub open spec fn add_carry(s: State) -> State {
    let sum = vx(s) + vy(s);
    let s1 = set_reg(s, 15, if sum > 255 { 1u8 } else { 0u8 });
    set_reg(s1, op_x(s.opcode), (sum % 256) as u8)
}

/// 8xy5 SUB Vx, Vy, step one: VF is set to 1 when Vx > Vy, else 0.
pub open spec fn subtract_flagged(s: State) -> State {
    set_reg(s, 15, if vx(s) > vy(s) { 1u8 } else { 0u8 })
}

/// 8xy5 SUB Vx, Vy: VF is set first, then Vx = Vx - Vy modulo 256 (read
/// after VF).
pub open spec fn subtract(s: State) -> State {
    let s1 = subtract_flagged(s);
    set_reg(s1, op_x(s.opcode), ((vx(s1) - vy(s1)) % 256) as u8)
}

/// 8xy6 SHR Vx: VF is the low bit of Vx, then Vx is halved.
pub open spec fn shift_right(s: State) -> State {
    let s1 = set_reg(s, 15, vx(s) % 2);
    set_reg(s1, op_x(s.opcode), vx(s1) / 2)
}

/// 8xy7 SUBN Vx, Vy, step one: VF is set to 1 when Vy > Vx, else 0.
pub open spec fn subn_flagged(s: State) -> State {
    set_reg(s, 15, if vy(s) > vx(s) { 1u8 } else { 0u8 })
}

/// 8xy7 SUBN Vx, Vy: VF is set first, then Vx = Vy - Vx modulo 256 (read
/// after VF).
pub open spec fn subn(s: State) -> State {
    let s1 = subn_flagged(s);
    set_reg(s1, op_x(s.opcode), ((vy(s1) - vx(s1)) % 256) as u8)
}

/// 8xyE SHL Vx: VF is the high bit of Vx, then Vx is doubled modulo 256.
pub open spec fn shift_left(s: State) -> State {
    let s1 = set_reg(s, 15, vx(s) / 128);
    set_reg(s1, op_x(s.opcode), ((vx(s1) * 2) % 256) as u8)
}

/// Bnnn JP V0, addr.
pub open spec fn jump_offset(s: State) -> State {
    State { program_counter: (s.register[0] + op_nnn(s.opcode)) as u16, ..s }
}

/// Cxkk RND Vx, byte, for the random byte `r`.
pub open spec fn random_and(s: State, r: u8) -> State {
    set_reg(s, op_x(s.opcode), r & op_kk(s.opcode))
}

/// Ex9E / ExA1 look up the key named by Vx, which must be one of the sixteen.
pub open spec fn key_ok(s: State, pressed: bool) -> bool {
    vx(s) < 16 && skip_ok(s, s.input_key[vx(s) as int] == pressed)
}

/// The lowest-numbered pressed key, or 16 when none is pressed.
pub open spec fn first_pressed(keys: Seq<bool>) -> int {
    if exists|k: int| 0 <= k < 16 && #[trigger] keys[k] {
        choose|k: int| 0 <= k < 16 && keys[k] && forall|j: int| 0 <= j < k ==> !keys[j]
    } else {
        16
    }
}

/// Fx0A LD Vx, K: with no key pressed the instruction repeats, moving the
/// program counter back by two.
pub open spec fn wait_key_ok(s: State) -> bool {
    first_pressed(s.input_key) == 16 ==> s.program_counter >= 2
}

/// Fx0A LD Vx, K: Vx is the lowest pressed key; with none pressed the
/// instruction is executed again.
pub open spec fn wait_key(s: State) -> State {
    let k = first_pressed(s.input_key);
    if k < 16 {
        set_reg(s, op_x(s.opcode), k as u8)
    } else {
        State { program_counter: (s.program_counter - 2) as u16, ..s }
    }
}

/// Fx1E ADD I, Vx stays within sixteen bits.
pub open spec fn add_index_ok(s: State) -> bool {
    s.index_reg + vx(s) <= u16::MAX
}

/// Fx33 LD B, Vx writes three bytes from I.
pub open spec fn bcd_ok(s: State) -> bool {
    s.index_reg + 2 < 4096
}

/// Fx33 LD B, Vx: hundreds, tens and ones digit of Vx at I, I+1 and I+2.
pub open spec fn bcd(s: State) -> State {
    let v = vx(s);
    let i = s.index_reg as int;
    State {
        mem: s.mem.update(i, v / 100).update(i + 1, (v / 10) % 10).update(i + 2, v % 10),
        ..s
    }
}

/// Fx55 / Fx65 touch the addresses I through I + x.
pub open spec fn block_ok(s: State) -> bool {
    s.index_reg + op_x(s.opcode) < 4096
}

/// Fx55 LD [I], Vx: registers V0 through Vx stored from address I on.
pub open spec fn store_registers(s: State) -> State {
    let i = s.index_reg as int;
    let x = op_x(s.opcode);
    State {
        mem: Seq::new(4096, |a: int| if i <= a <= i + x { s.register[a - i] } else { s.mem[a] }),
        ..s
    }
}

/// Fx65 LD Vx, [I]: registers V0 through Vx read from address I on.
pub open spec fn load_registers(s: State) -> State {
    let i = s.index_reg as int;
    let x = op_x(s.opcode);
    State {
        register: Seq::new(16, |r: int| if r <= x { s.mem[i + r] } else { s.register[r] }),
        ..s
    }
}

// ---------------------------------------------------------------------------
// Dxyn: sprites.  Row `row` of an n-byte sprite is the byte at I + row; its
// bit 7 - col is the pixel in column `col`.  The sprite's top left corner is
// (Vx mod 64, Vy mod 32); pixel (row, col) lands at index
// (y0 + row) * 64 + x0 + col, so a column past the right edge continues on
// the next display line.
// ---------------------------------------------------------------------------

/// Display index of the sprite's top left corner.
pub open spec fn sprite_origin(s: State) -> int {
    (vy(s) % 32) as int * 64 + (vx(s) % 64) as int
}

/// The sprite pixel at (`row`, `col`) is set.
pub open spec fn sprite_bit(s: State, row: int, col: int) -> bool {
    s.mem[s.index_reg + row] & (0x80u8 >> (col as u8)) != 0u8
}

/// Display index of sprite pixel (`row`, `col`).
pub open spec fn pixel_index(s: State, row: int, col: int) -> int {
    sprite_origin(s) + row * 64 + col
}

/// Dxyn reads its rows inside memory and every set pixel lands on the
/// display.
pub open spec fn draw_ok(s: State) -> bool {
    &&& (op_n(s.opcode) == 0 || s.index_reg + op_n(s.opcode) <= 4096)
    &&& forall|row: int, col: int|
        0 <= row < op_n(s.opcode) && 0 <= col < 8 && #[trigger] sprite_bit(s, row, col)
            ==> pixel_index(s, row, col) < 2048
}

/// Display index `i` is the place of a set sprite pixel.
pub open spec fn covers(s: State, i: int) -> bool {
    let d = i - sprite_origin(s);
    &&& 0 <= d
    &&& d / 64 < op_n(s.opcode)
    &&& d % 64 < 8
    &&& sprite_bit(s, d / 64, d % 64)
}

/// Rank of display index `i` in the row-major order of the sprite's cells.
pub open spec fn cell_rank(s: State, i: int) -> int {
    let d = i - sprite_origin(s);
    (d / 64) * 8 + d % 64
}

/// `covers(s, i)` for the sprite cells of rank below `k`: what a drawing
/// has flipped once it has gone through the first `k` cells.
pub open spec fn covers_before(s: State, i: int, k: int) -> bool {
    covers(s, i) && cell_rank(s, i) < k
}

/// Among the sprite cells of rank below `k`, a set pixel lands on a pixel
/// that is on.
pub open spec fn collision_before(s: State, k: int) -> bool {
    exists|i: int| 0 <= i < 2048 && #[trigger] covers_before(s, i, k) && s.graphics[i]
}

/// Some set sprite pixel lands on a pixel that is already on.
pub open spec fn collision(s: State) -> bool {
    exists|i: int| 0 <= i < 2048 && covers(s, i) && s.graphics[i]
}

/// Dxyn DRW Vx, Vy, n: every pixel under a set sprite pixel is flipped; VF
/// is 1 when one of them was on, else 0.
pub open spec fn draw(s: State) -> State {
    State {
        graphics: Seq::new(2048, |i: int| s.graphics[i] != covers(s, i)),
        register: s.register.update(15, if collision(s) { 1u8 } else { 0u8 }),
        ..s
    }
}

// ---------------------------------------------------------------------------
// Decoding.
// ---------------------------------------------------------------------------

/// The instruction in `s.opcode` executes without fault.
pub open spec fn executable(s: State) -> bool {
    let op = s.opcode;
    let c = op_class(op);
    if c == 0 {
        op == 0x00EE ==> return_ok(s)
    } else if c == 2 {
        call_ok(s)
    } else if c == 3 {
        skip_ok(s, vx(s) == op_kk(op))
    } else if c == 4 {
        skip_ok(s, vx(s) != op_kk(op))
    } else if c == 5 {
        skip_ok(s, vx(s) == vy(s))
    } else if c == 9 {
        skip_ok(s, vx(s) != vy(s))
    } else if c == 0xD {
        draw_ok(s)
    } else if c == 0xE {
        (op % 256 == 0x9E ==> key_ok(s, true)) && (op % 256 == 0xA1 ==> key_ok(s, false))
    } else if c == 0xF {
        let b = op % 256;
        &&& b == 0x0A ==> wait_key_ok(s)
        &&& b == 0x1E ==> add_index_ok(s)
        &&& b == 0x33 ==> bcd_ok(s)
        &&& (b == 0x55 || b == 0x65) ==> block_ok(s)
    } else {
        true
    }
}

/// The effect of the instruction in `s.opcode`, where `r` is the byte that
/// the random number generator gives (only Cxkk reads it).  Instructions
/// that are not defined leave the state as it is.
pub open spec fn execute(s: State, r: u8) -> State {
    let op = s.opcode;
    let c = op_class(op);
    if c == 0 {
        if op == 0x00E0 {
            clear_screen(s)
        } else if op == 0x00EE {
            return_from(s)
        } else {
            s
        }
    } else if c == 1 {
        jump(s)
    } else if c == 2 {
        call(s)
    } else if c == 3 {
        skip_if(s, vx(s) == op_kk(op))
    } else if c == 4 {
        skip_if(s, vx(s) != op_kk(op))
    } else if c == 5 {
        skip_if(s, vx(s) == vy(s))
    } else if c == 6 {
        set_reg(s, op_x(op), op_kk(op))
    } else if c == 7 {
        add_byte(s)
    } else if c == 8 {
        let n = op_n(op);
        if n == 0 {
            set_reg(s, op_x(op), vy(s))
        } else if n == 1 {
            set_reg(s, op_x(op), vx(s) | vy(s))
        } else if n == 2 {
            set_reg(s, op_x(op), vx(s) & vy(s))
        } else if n == 3 {
            set_reg(s, op_x(op), vx(s) ^ vy(s))
        } else if n == 4 {
            add_carry(s)
        } else if n == 5 {
            subtract(s)
        } else if n == 6 {
            shift_right(s)
        } else if n == 7 {
            subn(s)
        } else if n == 0xE {
            shift_left(s)
        } else {
            s
        }
    } else if c == 9 {
        skip_if(s, vx(s) != vy(s))
    } else if c == 0xA {
        State { index_reg: op_nnn(op), ..s }
    } else if c == 0xB {
        jump_offset(s)
    } else if c == 0xC {
        random_and(s, r)
    } else if c == 0xD {
        draw(s)
    } else if c == 0xE {
        let b = op % 256;
        if b == 0x9E {
            skip_if(s, s.input_key[vx(s) as int])
        } else if b == 0xA1 {
            skip_if(s, !s.input_key[vx(s) as int])
        } else {
            s
        }
    } else {
        let b = op % 256;
        if b == 0x07 {
            set_reg(s, op_x(op), s.delay_timer)
        } else if b == 0x0A {
            wait_key(s)
        } else if b == 0x15 {
            State { delay_timer: vx(s), ..s }
        } else if b == 0x18 {
            State { sound_timer: vx(s), ..s }
        } else if b == 0x1E {
            State { index_reg: (s.index_reg + vx(s)) as u16, ..s }
        } else if b == 0x29 {
            State { index_reg: (FONTSET_START_ADDRESS + 5 * vx(s)) as u16, ..s }
        } else if b == 0x33 {
            bcd(s)
        } else if b == 0x55 {
            store_registers(s)
        } else if b == 0x65 {
            load_registers(s)
        } else {
            s
        }
    }
}

// ---------------------------------------------------------------------------
// The cycle.
// ---------------------------------------------------------------------------

/// Fetch: the big-endian word at the program counter becomes the opcode and
/// the program counter moves past it.
pub open spec fn fetch(s: State) -> State {
    State {
        opcode: (s.mem[s.program_counter as int] * 256 + s.mem[s.program_counter + 1]) as u16,
        program_counter: (s.program_counter + 2) as u16,
        ..s
    }
}

/// One step down of a timer that stops at zero.
pub open spec fn count_down(t: u8) -> u8 {
    if t > 0 {
        (t - 1) as u8
    } else {
        0
    }
}

/// Both timers count down once.
pub open spec fn tick(s: State) -> State {
    State { delay_timer: count_down(s.delay_timer), sound_timer: count_down(s.sound_timer), ..s }
}

/// A cycle runs without fault: the instruction lies in memory and executes.
pub open spec fn cycle_ok(s: State) -> bool {
    s.program_counter + 1 < 4096 && executable(fetch(s))
}

/// Fetch, decode and execute one instruction, then count the timers down.
pub open spec fn cycle(s: State, r: u8) -> State {
    tick(execute(fetch(s), r))
}

} // verus!
