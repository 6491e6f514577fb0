use vstd::prelude::*;
use crate::spec;
use crate::spec::State;
use crate::random::random_byte;
use crate::loading::rom;

verus! {

/// The complete state of a CHIP-8 machine.
///
/// Memory spans the 4096 addresses 0x000-0xFFF: the font lives at
/// 0x050-0x09F and programs are loaded from 0x200.  There are sixteen 8-bit
/// registers V0-VF, a 16-bit index register and program counter, a call
/// stack with its stack pointer, two 8-bit timers that count down once per
/// cycle, the pressed state of the sixteen keys and a 64x32 monochrome
/// display indexed by `y * 64 + x`.
#[derive(Debug)]
pub struct Memory {
    pub mem: [u8; 4096],
    pub register: [u8; 16],
    pub index_reg: u16,
    pub program_counter: u16,
    pub stack: Vec<u16>,
    pub stack_pointer: u8,
    pub delay_timer: u8,
    pub sound_timer: u8,
    pub input_key: [bool; 16],
    pub graphics: [bool; 2048],
    pub opcode: u16,
    pub rng_state: u32,
}

impl View for Memory {
    type V = State;

    open spec fn view(&self) -> State {
        State {
            mem: self.mem@,
            register: self.register@,
            index_reg: self.index_reg,
            program_counter: self.program_counter,
            stack: self.stack@,
            stack_pointer: self.stack_pointer,
            delay_timer: self.delay_timer,
            sound_timer: self.sound_timer,
            input_key: self.input_key@,
            graphics: self.graphics@,
            opcode: self.opcode,
            rng_state: self.rng_state,
        }
    }
}

impl Memory {
    /// A machine with all memory, registers and timers zero, no key pressed,
    /// a blank screen and a sixteen-level stack of zero return addresses.
    pub fn new() -> (m: Self)
        ensures
            m@ == spec::initial_state(),
    {
        Self {
            mem: [0; 4096],
            register: [0; 16],
            index_reg: 0,
            program_counter: 0,
            stack: vec![0; 16],
            stack_pointer: 0,
            delay_timer: 0,
            sound_timer: 0,
            input_key: [false; 16],
            graphics: [false; 2048],
            opcode: 0,
            rng_state: 0,
        }
    }
}

/// The built-in font as bytes.
fn fontset_bytes() -> (f: [u8; 80])
    ensures
        f@ == spec::fontset(),
{
    let f: [u8; 80] = [
        0xF0, 0x90, 0x90, 0x90, 0xF0, // 0
        0x20, 0x60, 0x20, 0x20, 0x70, // 1
        0xF0, 0x10, 0xF0, 0x80, 0xF0, // 2
        0xF0, 0x10, 0xF0, 0x10, 0xF0, // 3
        0x90, 0x90, 0xF0, 0x10, 0x10, // 4
        0xF0, 0x80, 0xF0, 0x10, 0xF0, // 5
        0xF0, 0x80, 0xF0, 0x90, 0xF0, // 6
        0xF0, 0x10, 0x20, 0x40, 0x40, // 7
        0xF0, 0x90, 0xF0, 0x90, 0xF0, // 8
        0xF0, 0x90, 0xF0, 0x10, 0xF0, // 9
        0xF0, 0x90, 0xF0, 0x90, 0x90, // A
        0xE0, 0x90, 0xE0, 0x90, 0xE0, // B
        0xF0, 0x80, 0x80, 0x80, 0xF0, // C
        0xE0, 0x90, 0x90, 0x90, 0xE0, // D
        0xF0, 0x80, 0xF0, 0x80, 0xF0, // E
        0xF0, 0x80, 0xF0, 0x80, 0x80, // F
    ];
    assert(f@ =~= spec::fontset());
    f
}

impl Memory {
    /// Copy `data` into memory from address `at` on.
    fn write_bytes(&mut self, at: usize, data: &[u8])
        requires
            at + data@.len() <= 4096,
        ensures
            final(self)@ == spec::with_bytes(old(self)@, at as int, data@),
    {
        let ghost s0 = self@;
        let mut i: usize = 0;
        while i < data.len()
            invariant
                at + data@.len() <= 4096,
                i <= data@.len(),
                self@ == (State { mem: self.mem@, ..s0 }),
                forall|a: int|
                    0 <= a < 4096 ==> #[trigger] self.mem@[a] == if at <= a < at + i {
                        data@[a - at]
                    } else {
                        s0.mem[a]
                    },
            decreases data@.len() - i,
        {
            self.mem[at + i] = data[i];
            i += 1;
        }
        assert(self.mem@ =~= spec::with_bytes(s0, at as int, data@).mem);
    }

    /// Store the built-in font from address 0x50 on, where Fx29 looks for
    /// the digit sprites.
    pub fn load_fontset(&mut self)
        ensures
            final(self)@ == spec::with_bytes(
                old(self)@,
                spec::FONTSET_START_ADDRESS as int,
                spec::fontset(),
            ),
            forall|j: int| 0 <= j < 80 ==> #[trigger] final(self).mem@[0x50 + j] == spec::fontset()[j],
            forall|a: int|
                0 <= a < 4096 && !(0x50 <= a < 0xA0) ==> #[trigger] final(self).mem@[a]
                    == old(self).mem@[a],
    {
        let font = fontset_bytes();
        self.write_bytes(spec::FONTSET_START_ADDRESS, font.as_slice());
    }

    /// Copy the program `rom` into memory from the start address 0x200 on
    /// and point the program counter at its first instruction.
    pub fn load_rom(&mut self, rom: &rom)
        requires
            spec::START_ADDRESS + rom.data@.len() <= spec::MEM_SIZE,
        ensures
            final(self)@ == (State {
                program_counter: spec::START_ADDRESS as u16,
                ..spec::with_bytes(old(self)@, spec::START_ADDRESS as int, rom.data@)
            }),
            final(self).program_counter == 0x200,
            forall|j: int|
                0 <= j < rom.data@.len() ==> #[trigger] final(self).mem@[0x200 + j] == rom.data@[j],
            forall|a: int|
                0 <= a < 4096 && !(0x200 <= a < 0x200 + rom.data@.len())
                    ==> #[trigger] final(self).mem@[a] == old(self).mem@[a],
    {
        self.write_bytes(spec::START_ADDRESS, rom.data.as_slice());
        self.program_counter = spec::START_ADDRESS as u16;
    }

    /// Record which of the sixteen keys are pressed.
    pub fn input(&mut self, keys: [bool; 16])
        ensures
            final(self)@ == (State { input_key: keys@, ..old(self)@ }),
    {
        self.input_key = keys;
    }

    /// The display as 32-bit pixels, row after row: 0x00FFFFFF where a
    /// pixel is on, 0 where it is off.
    pub fn frame_buffer(&self) -> (buffer: Vec<u32>)
        ensures
            buffer@ == spec::frame(self@),
    {
        let mut buffer: Vec<u32> = Vec::new();
        let mut i: usize = 0;
        while i < 2048
            invariant
                i <= 2048,
                buffer@.len() == i,
                forall|j: int| 0 <= j < i ==> #[trigger] buffer@[j] == spec::frame(self@)[j],
            decreases 2048 - i,
        {
            buffer.push(if self.graphics[i] { 0x00FFFFFF } else { 0x00000000 });
            i += 1;
        }
        assert(buffer@ =~= spec::frame(self@));
        buffer
    }
}

/// Register named by the second hex digit of `op`.
fn reg_x(op: u16) -> (r: usize)
    ensures
        r == spec::op_x(op),
        r < 16,
{
    ((op / 256) % 16) as usize
}

/// Register named by the third hex digit of `op`.
fn reg_y(op: u16) -> (r: usize)
    ensures
        r == spec::op_y(op),
        r < 16,
{
    ((op / 16) % 16) as usize
}

/// Low byte of `op`.
fn low_byte(op: u16) -> (b: u8)
    ensures
        b == spec::op_kk(op),
{
    (op % 256) as u8
}

/// Low twelve bits of `op`.
fn address(op: u16) -> (a: u16)
    ensures
        a == spec::op_nnn(op),
        a < 4096,
{
    op % 4096
}

/// Going through one more sprite cell adds exactly that cell's pixel, if it
/// is set, to what has been covered.
proof fn lemma_covers_step(s: State, row: int, col: int, i: int)
    requires
        0 <= row,
        0 <= col < 8,
    ensures
        spec::covers_before(s, i, row * 8 + col + 1) == (spec::covers_before(s, i, row * 8 + col)
            || (i == spec::pixel_index(s, row, col) && row < spec::op_n(s.opcode)
            && spec::sprite_bit(s, row, col))),
{
    let d = i - spec::sprite_origin(s);
    if i == spec::pixel_index(s, row, col) {
        assert(d == row * 64 + col);
        assert(d / 64 == row);
        assert(d % 64 == col);
    } else if 0 <= d && d % 64 < 8 {
        assert(d == (d / 64) * 64 + d % 64);
        if (d / 64) * 8 + d % 64 == row * 8 + col {
            assert(d / 64 == row);
            assert(false);
        }
    }
}

/// Once every cell of the sprite has been gone through, exactly the covered
/// pixels have been.
proof fn lemma_covers_all(s: State, i: int)
    ensures
        spec::covers_before(s, i, spec::op_n(s.opcode) * 8) == spec::covers(s, i),
        !spec::covers_before(s, i, 0),
{
}

#[allow(non_snake_case)]
impl Memory {
    /// Decode the current opcode and execute it.  Opcodes that name no
    /// instruction are ignored.
    pub fn execute_opcode(&mut self)
        requires
            spec::executable(old(self)@),
        ensures
            exists|r: u8| final(self)@ == spec::execute(old(self)@, r),
    {
        let ghost s0 = self@;
        let ghost mut r: u8 = 0;
        match self.opcode / 4096 {
            0x0 => match self.opcode {
                0x00E0 => self.op_00E0(),
                0x00EE => self.op_00EE(),
                _ => {},
            },
            0x1 => self.op_1nnn(),
            0x2 => self.op_2nnn(),
            0x3 => self.op_3xkk(),
            0x4 => self.op_4xkk(),
            0x5 => self.op_5xy0(),
            0x6 => self.op_6xkk(),
            0x7 => self.op_7xkk(),
            0x8 => match self.opcode % 16 {
                0x0 => self.op_8xy0(),
                0x1 => self.op_8xy1(),
                0x2 => self.op_8xy2(),
                0x3 => self.op_8xy3(),
                0x4 => self.op_8xy4(),
                0x5 => self.op_8xy5(),
                0x6 => self.op_8xy6(),
                0x7 => self.op_8xy7(),
                0xE => self.op_8xyE(),
                _ => {},
            },
            0x9 => self.op_9xy0(),
            0xA => self.op_Annn(),
            0xB => self.op_Bnnn(),
            0xC => {
                self.op_Cxkk();
                proof {
                    r = choose|r: u8| self@ == spec::random_and(s0, r);
                }
            },
            0xD => self.op_Dxyn(),
            0xE => match self.opcode % 256 {
                0x9E => self.op_Ex9E(),
                0xA1 => self.op_ExA1(),
                _ => {},
            },
            0xF => match self.opcode % 256 {
                0x07 => self.op_Fx07(),
                0x0A => self.op_Fx0A(),
                0x15 => self.op_Fx15(),
                0x18 => self.op_Fx18(),
                0x1E => self.op_Fx1E(),
                0x29 => self.op_Fx29(),
                0x33 => self.op_Fx33(),
                0x55 => self.op_Fx55(),
                0x65 => self.op_Fx65(),
                _ => {},
            },
            _ => {},
        }
        assert(self@ == spec::execute(s0, r));
    }

    /// One machine cycle: fetch the big-endian instruction at the program
    /// counter, move the program counter past it, execute it, then count
    /// both timers down by one unless they are already zero.
    pub fn cycle(&mut self)
        requires
            spec::cycle_ok(old(self)@),
        ensures
            exists|r: u8| final(self)@ == spec::cycle(old(self)@, r),
    {
        let ghost s0 = self@;
        let pc = self.program_counter as usize;
        let hi: u8 = self.mem[pc];
        let lo: u8 = self.mem[pc + 1];
        assert(((hi as u16) << 8u16) | (lo as u16) == hi * 256 + lo) by (bit_vector);
        self.opcode = ((hi as u16) << 8) | (lo as u16);
        self.program_counter += 2;
        assert(self@ == spec::fetch(s0));
        self.execute_opcode();
        let ghost r = choose|r: u8| self@ == spec::execute(spec::fetch(s0), r);
        if self.delay_timer > 0 {
            self.delay_timer -= 1;
        }
        if self.sound_timer > 0 {
            self.sound_timer -= 1;
        }
        assert(self@ == spec::cycle(s0, r));
    }

    /// Whether `cycle` runs without fault in the current state: the
    /// instruction at the program counter lies in memory and can execute.
    pub fn can_cycle(&self) -> (b: bool)
        ensures
            b == spec::cycle_ok(self@),
    {
        if self.program_counter >= 4095 {
            return false;
        }
        let pc = self.program_counter as usize;
        let hi: u8 = self.mem[pc];
        let lo: u8 = self.mem[pc + 1];
        let opcode: u16 = hi as u16 * 256 + lo as u16;
        self.can_execute_at(opcode, self.program_counter + 2)
    }

    /// Whether `execute_opcode` runs without fault in the current state.
    pub fn can_execute(&self) -> (b: bool)
        ensures
            b == spec::executable(self@),
    {
        self.can_execute_at(self.opcode, self.program_counter)
    }

    /// Whether the instruction `opcode` executes without fault when the
    /// program counter is `pc` and the rest of the state is as it is.
    fn can_execute_at(&self, opcode: u16, pc: u16) -> (b: bool)
        ensures
            b == spec::executable(State { opcode, program_counter: pc, ..self@ }),
    {
        let class = opcode / 4096;
        let x = reg_x(opcode);
        let y = reg_y(opcode);
        let kk = low_byte(opcode);
        let vx = self.register[x];
        let vy = self.register[y];
        let fits_skip = pc <= 0xFFFD;
        if class == 0 {
            opcode != 0x00EE || (self.stack_pointer >= 1 && ((self.stack_pointer - 1) as usize)
                < self.stack.len())
        } else if class == 2 {
            (self.stack_pointer as usize) < self.stack.len() && self.stack_pointer < 255
        } else if class == 3 {
            vx != kk || fits_skip
        } else if class == 4 {
            vx == kk || fits_skip
        } else if class == 5 {
            vx != vy || fits_skip
        } else if class == 9 {
            vx == vy || fits_skip
        } else if class == 0xD {
            self.can_draw(opcode, pc)
        } else if class == 0xE {
            let b = opcode % 256;
            if b == 0x9E || b == 0xA1 {
                vx < 16 && (self.input_key[vx as usize] != (b == 0x9E) || fits_skip)
            } else {
                true
            }
        } else if class == 0xF {
            let b = opcode % 256;
            if b == 0x0A {
                self.first_pressed_key() < 16 || pc >= 2
            } else if b == 0x1E {
                self.index_reg as u32 + vx as u32 <= 0xFFFF
            } else if b == 0x33 {
                (self.index_reg as u32) + 2 < 4096
            } else if b == 0x55 || b == 0x65 {
                (self.index_reg as usize) + x < 4096
            } else {
                true
            }
        } else {
            true
        }
    }

    /// Whether the sprite instruction `opcode` reads its rows inside memory
    /// and puts every set pixel on the display.
    fn can_draw(&self, opcode: u16, pc: u16) -> (b: bool)
        ensures
            b == spec::draw_ok(State { opcode, program_counter: pc, ..self@ }),
    {
        let ghost s = State { opcode, program_counter: pc, ..self@ };
        let height: u16 = opcode % 16;
        if height == 0 {
            return true;
        }
        if self.index_reg as u32 + height as u32 > 4096 {
            return false;
        }
        let x = reg_x(opcode);
        let y = reg_y(opcode);
        let pos_x: usize = (self.register[x] % 64) as usize;
        let pos_y: usize = (self.register[y] % 32) as usize;
        let mut row: u16 = 0;
        while row < height
            invariant
                s == (State { opcode, program_counter: pc, ..self@ }),
                height == spec::op_n(opcode),
                0 < height,
                s.index_reg + height <= 4096,
                pos_x == spec::vx(s) % 64,
                pos_y == spec::vy(s) % 32,
                row <= height,
                forall|r: int, c: int|
                    0 <= r < row && 0 <= c < 8 && #[trigger] spec::sprite_bit(s, r, c)
                        ==> spec::pixel_index(s, r, c) < 2048,
            decreases height - row,
        {
            let sprite_byte: u8 = self.mem[(self.index_reg + row) as usize];
            let mut col: u8 = 0;
            while col < 8
                invariant
                    s == (State { opcode, program_counter: pc, ..self@ }),
                    height == spec::op_n(opcode),
                    s.index_reg + height <= 4096,
                    pos_x == spec::vx(s) % 64,
                    pos_y == spec::vy(s) % 32,
                    row < height,
                    col <= 8,
                    sprite_byte == s.mem[s.index_reg + row],
                    forall|r: int, c: int|
                        0 <= r < row && 0 <= c < 8 && #[trigger] spec::sprite_bit(s, r, c)
                            ==> spec::pixel_index(s, r, c) < 2048,
                    forall|c: int|
                        0 <= c < col && #[trigger] spec::sprite_bit(s, row as int, c)
                            ==> spec::pixel_index(s, row as int, c) < 2048,
                decreases 8 - col,
            {
                let set = sprite_byte & (0x80u8 >> col) != 0;
                assert(set == spec::sprite_bit(s, row as int, col as int));
                if set && (pos_y + row as usize) * 64 + pos_x + col as usize >= 2048 {
                    return false;
                }
                col += 1;
            }
            row += 1;
        }
        true
    }

    /// The lowest-numbered pressed key, or 16 when no key is pressed.
    fn first_pressed_key(&self) -> (key: usize)
        ensures
            key == spec::first_pressed(self.input_key@),
            key <= 16,
    {
        let mut key: usize = 0;
        while key < 16
            invariant
                key <= 16,
                forall|j: int| 0 <= j < key ==> !self.input_key@[j],
            ensures
                key <= 16,
                forall|j: int| 0 <= j < key ==> !self.input_key@[j],
                key < 16 ==> self.input_key@[key as int],
            decreases 16 - key,
        {
            if self.input_key[key] {
                break;
            }
            key += 1;
        }
        proof {
            let keys = self.input_key@;
            if key < 16 {
                assert(0 <= key < 16 && keys[key as int] && forall|j: int|
                    0 <= j < key ==> !keys[j]);
                let k = spec::first_pressed(keys);
                assert(0 <= k < 16 && keys[k] && forall|j: int| 0 <= j < k ==> !keys[j]);
                assert(k == key);
            } else {
                assert(!(exists|k: int| 0 <= k < 16 && #[trigger] keys[k]));
            }
        }
        key
    }

    /// 00E0 CLS: clear the display.
    fn op_00E0(&mut self)
        ensures
            final(self)@ == spec::clear_screen(old(self)@),
    {
        self.graphics = [false; 2048];
    }

    /// 00EE RET: return from a subroutine.
    fn op_00EE(&mut self)
        requires
            spec::return_ok(old(self)@),
        ensures
            final(self)@ == spec::return_from(old(self)@),
    {
        self.stack_pointer -= 1;
        self.program_counter = self.stack[self.stack_pointer as usize];
    }

    /// 1nnn JP addr: jump to nnn.
    fn op_1nnn(&mut self)
        ensures
            final(self)@ == spec::jump(old(self)@),
    {
        self.program_counter = address(self.opcode);
    }

    /// 2nnn CALL addr: save the program counter on the stack, then jump to nnn.
    fn op_2nnn(&mut self)
        requires
            spec::call_ok(old(self)@),
        ensures
            final(self)@ == spec::call(old(self)@),
    {
        let address = address(self.opcode);
        let sp = self.stack_pointer as usize;
        self.stack.set(sp, self.program_counter);
        self.stack_pointer += 1;
        self.program_counter = address;
    }

    /// 3xkk SE Vx, byte: skip the next instruction if Vx = kk.
    fn op_3xkk(&mut self)
        requires
            spec::skip_ok(old(self)@, spec::vx(old(self)@) == spec::op_kk(old(self)@.opcode)),
        ensures
            final(self)@ == spec::skip_if(
                old(self)@,
                spec::vx(old(self)@) == spec::op_kk(old(self)@.opcode),
            ),
    {
        let vx = reg_x(self.opcode);
        let byte = low_byte(self.opcode);
        if self.register[vx] == byte {
            self.program_counter += 2;
        }
    }

    /// 4xkk SNE Vx, byte: skip the next instruction if Vx != kk.
    fn op_4xkk(&mut self)
        requires
            spec::skip_ok(old(self)@, spec::vx(old(self)@) != spec::op_kk(old(self)@.opcode)),
        ensures
            final(self)@ == spec::skip_if(
                old(self)@,
                spec::vx(old(self)@) != spec::op_kk(old(self)@.opcode),
            ),
    {
        let vx = reg_x(self.opcode);
        let byte = low_byte(self.opcode);
        if self.register[vx] != byte {
            self.program_counter += 2;
        }
    }

    /// 5xy0 SE Vx, Vy: skip the next instruction if Vx = Vy.
    fn op_5xy0(&mut self)
        requires
            spec::skip_ok(old(self)@, spec::vx(old(self)@) == spec::vy(old(self)@)),
        ensures
            final(self)@ == spec::skip_if(old(self)@, spec::vx(old(self)@) == spec::vy(old(self)@)),
    {
        let vx = reg_x(self.opcode);
        let vy = reg_y(self.opcode);
        if self.register[vx] == self.register[vy] {
            self.program_counter += 2;
        }
    }

    /// 6xkk LD Vx, byte: Vx = kk.
    fn op_6xkk(&mut self)
        ensures
            final(self)@ == spec::set_reg(
                old(self)@,
                spec::op_x(old(self)@.opcode),
                spec::op_kk(old(self)@.opcode),
            ),
    {
        let vx = reg_x(self.opcode);
        let byte = low_byte(self.opcode);
        self.register[vx] = byte;
    }

    /// 7xkk ADD Vx, byte: Vx = Vx + kk, keeping the low eight bits.
    fn op_7xkk(&mut self)
        ensures
            final(self)@ == spec::add_byte(old(self)@),
    {
        let vx = reg_x(self.opcode);
        let byte = low_byte(self.opcode);
        self.register[vx] = self.register[vx].wrapping_add(byte);
    }

    /// 8xy0 LD Vx, Vy: Vx = Vy.
    fn op_8xy0(&mut self)
        ensures
            final(self)@ == spec::set_reg(
                old(self)@,
                spec::op_x(old(self)@.opcode),
                spec::vy(old(self)@),
            ),
    {
        let vx = reg_x(self.opcode);
        let vy = reg_y(self.opcode);
        self.register[vx] = self.register[vy];
    }

    /// 8xy1 OR Vx, Vy: Vx = Vx OR Vy.
    fn op_8xy1(&mut self)
        ensures
            final(self)@ == spec::set_reg(
                old(self)@,
                spec::op_x(old(self)@.opcode),
                spec::vx(old(self)@) | spec::vy(old(self)@),
            ),
    {
        let vx = reg_x(self.opcode);
        let vy = reg_y(self.opcode);
        self.register[vx] = self.register[vx] | self.register[vy];
    }

    /// 8xy2 AND Vx, Vy: Vx = Vx AND Vy.
    fn op_8xy2(&mut self)
        ensures
            final(self)@ == spec::set_reg(
                old(self)@,
                spec::op_x(old(self)@.opcode),
                spec::vx(old(self)@) & spec::vy(old(self)@),
            ),
    {
        let vx = reg_x(self.opcode);
        let vy = reg_y(self.opcode);
        self.register[vx] = self.register[vx] & self.register[vy];
    }

    /// 8xy3 XOR Vx, Vy: Vx = Vx XOR Vy.
    fn op_8xy3(&mut self)
        ensures
            final(self)@ == spec::set_reg(
                old(self)@,
                spec::op_x(old(self)@.opcode),
                spec::vx(old(self)@) ^ spec::vy(old(self)@),
            ),
    {
        let vx = reg_x(self.opcode);
        let vy = reg_y(self.opcode);
        self.register[vx] = self.register[vx] ^ self.register[vy];
    }

    /// 8xy4 ADD Vx, Vy: Vx = Vx + Vy, keeping the low eight bits; VF = carry.
    fn op_8xy4(&mut self)
        ensures
            final(self)@ == spec::add_carry(old(self)@),
    {
        let vx = reg_x(self.opcode);
        let vy = reg_y(self.opcode);
        let sum: u16 = self.register[vx] as u16 + self.register[vy] as u16;
        self.register[15] = if sum > 0xFF { 1 } else { 0 };
        self.register[vx] = (sum % 256) as u8;
    }

    /// 8xy5 SUB Vx, Vy: VF = 1 if Vx > Vy (NOT borrow), else 0; then
    /// Vx = Vx - Vy, keeping the low eight bits.
    fn op_8xy5(&mut self)
        ensures
            final(self)@ == spec::subtract(old(self)@),
    {
        let vx = reg_x(self.opcode);
        let vy = reg_y(self.opcode);
        self.register[15] = if self.register[vx] > self.register[vy] { 1 } else { 0 };
        self.register[vx] = self.register[vx].wrapping_sub(self.register[vy]);
    }

    /// 8xy6 SHR Vx: VF = the least significant bit of Vx; then Vx = Vx / 2.
    fn op_8xy6(&mut self)
        ensures
            final(self)@ == spec::shift_right(old(self)@),
    {
        let vx = reg_x(self.opcode);
        let v = self.register[vx];
        assert(v & 1 == v % 2) by (bit_vector);
        self.register[15] = v & 0x1;
        let w = self.register[vx];
        assert(w >> 1 == w / 2) by (bit_vector);
        self.register[vx] = w >> 1;
    }

    /// 8xy7 SUBN Vx, Vy: VF = 1 if Vy > Vx (NOT borrow), else 0; then
    /// Vx = Vy - Vx, keeping the low eight bits.
    fn op_8xy7(&mut self)
        ensures
            final(self)@ == spec::subn(old(self)@),
    {
        let vx = reg_x(self.opcode);
        let vy = reg_y(self.opcode);
        if self.register[vy] > self.register[vx] {
            self.register[15] = 1;
        } else {
            self.register[15] = 0;
        }
        self.register[vx] = self.register[vy].wrapping_sub(self.register[vx]);
    }

    /// 8xyE SHL Vx: VF = the most significant bit of Vx; then Vx = Vx * 2,
    /// keeping the low eight bits.
    fn op_8xyE(&mut self)
        ensures
            final(self)@ == spec::shift_left(old(self)@),
    {
        let vx = reg_x(self.opcode);
        let v = self.register[vx];
        assert((v & 0x80) >> 7 == v / 128) by (bit_vector);
        self.register[15] = (v & 0x80) >> 7;
        let w = self.register[vx];
        assert(w << 1 == (w * 2) % 256) by (bit_vector);
        self.register[vx] = w << 1;
    }

    /// 9xy0 SNE Vx, Vy: skip the next instruction if Vx != Vy.
    fn op_9xy0(&mut self)
        requires
            spec::skip_ok(old(self)@, spec::vx(old(self)@) != spec::vy(old(self)@)),
        ensures
            final(self)@ == spec::skip_if(old(self)@, spec::vx(old(self)@) != spec::vy(old(self)@)),
    {
        let vx = reg_x(self.opcode);
        let vy = reg_y(self.opcode);
        if self.register[vx] != self.register[vy] {
            self.program_counter += 2;
        }
    }

    /// Annn LD I, addr: I = nnn.
    fn op_Annn(&mut self)
        ensures
            final(self)@ == (State { index_reg: spec::op_nnn(old(self)@.opcode), ..old(self)@ }),
    {
        self.index_reg = address(self.opcode);
    }

    /// Bnnn JP V0, addr: jump to nnn + V0.
    fn op_Bnnn(&mut self)
        ensures
            final(self)@ == spec::jump_offset(old(self)@),
    {
        let address = address(self.opcode);
        self.program_counter = self.register[0] as u16 + address;
    }

    /// Cxkk RND Vx, byte: Vx = a random byte AND kk.
    fn op_Cxkk(&mut self)
        ensures
            exists|r: u8| final(self)@ == spec::random_and(old(self)@, r),
    {
        let rand: u8 = random_byte();
        self.set_random_and(rand);
    }

    /// The rest of Cxkk once the random byte `rand` has been drawn.
    fn set_random_and(&mut self, rand: u8)
        ensures
            final(self)@ == spec::random_and(old(self)@, rand),
    {
        let vx = reg_x(self.opcode);
        let byte = low_byte(self.opcode);
        self.register[vx] = rand & byte;
    }

    /// Ex9E SKP Vx: skip the next instruction if the key numbered Vx is
    /// pressed.
    fn op_Ex9E(&mut self)
        requires
            spec::key_ok(old(self)@, true),
        ensures
            final(self)@ == spec::skip_if(
                old(self)@,
                old(self)@.input_key[spec::vx(old(self)@) as int],
            ),
    {
        let vx = reg_x(self.opcode);
        let key = self.register[vx];
        if self.input_key[key as usize] {
            self.program_counter += 2;
        }
    }

    /// ExA1 SKNP Vx: skip the next instruction if the key numbered Vx is not
    /// pressed.
    fn op_ExA1(&mut self)
        requires
            spec::key_ok(old(self)@, false),
        ensures
            final(self)@ == spec::skip_if(
                old(self)@,
                !old(self)@.input_key[spec::vx(old(self)@) as int],
            ),
    {
        let vx = reg_x(self.opcode);
        let key = self.register[vx];
        if !self.input_key[key as usize] {
            self.program_counter += 2;
        }
    }

    /// Fx07 LD Vx, DT: Vx = delay timer.
    fn op_Fx07(&mut self)
        ensures
            final(self)@ == spec::set_reg(
                old(self)@,
                spec::op_x(old(self)@.opcode),
                old(self)@.delay_timer,
            ),
    {
        let vx = reg_x(self.opcode);
        self.register[vx] = self.delay_timer;
    }

    /// Fx0A LD Vx, K: wait for a key press.  Vx becomes the lowest-numbered
    /// pressed key; with no key pressed the instruction runs again.
    fn op_Fx0A(&mut self)
        requires
            spec::wait_key_ok(old(self)@),
        ensures
            final(self)@ == spec::wait_key(old(self)@),
    {
        let vx = reg_x(self.opcode);
        let key = self.first_pressed_key();
        if key < 16 {
            self.register[vx] = key as u8;
        } else {
            self.program_counter -= 2;
        }
    }

    /// Fx15 LD DT, Vx: delay timer = Vx.
    fn op_Fx15(&mut self)
        ensures
            final(self)@ == (State { delay_timer: spec::vx(old(self)@), ..old(self)@ }),
    {
        let vx = reg_x(self.opcode);
        self.delay_timer = self.register[vx];
    }

    /// Fx18 LD ST, Vx: sound timer = Vx.
    fn op_Fx18(&mut self)
        ensures
            final(self)@ == (State { sound_timer: spec::vx(old(self)@), ..old(self)@ }),
    {
        let vx = reg_x(self.opcode);
        self.sound_timer = self.register[vx];
    }

    /// Fx1E ADD I, Vx: I = I + Vx.
    fn op_Fx1E(&mut self)
        requires
            spec::add_index_ok(old(self)@),
        ensures
            final(self)@ == (State {
                index_reg: (old(self)@.index_reg + spec::vx(old(self)@)) as u16,
                ..old(self)@
            }),
    {
        let vx = reg_x(self.opcode);
        self.index_reg += self.register[vx] as u16;
    }

    /// Fx29 LD F, Vx: I = address of the font sprite for digit Vx.
    fn op_Fx29(&mut self)
        ensures
            final(self)@ == (State {
                index_reg: (spec::FONTSET_START_ADDRESS + 5 * spec::vx(old(self)@)) as u16,
                ..old(self)@
            }),
    {
        let vx = reg_x(self.opcode);
        let digit = self.register[vx];
        self.index_reg = spec::FONTSET_START_ADDRESS as u16 + 5 * digit as u16;
    }

    /// Fx33 LD B, Vx: the hundreds, tens and ones digits of Vx go to I,
    /// I + 1 and I + 2.
    fn op_Fx33(&mut self)
        requires
            spec::bcd_ok(old(self)@),
        ensures
            final(self)@ == spec::bcd(old(self)@),
    {
        let vx = reg_x(self.opcode);
        let mut value = self.register[vx];
        self.mem[(self.index_reg + 2) as usize] = value % 10;
        value /= 10;
        self.mem[(self.index_reg + 1) as usize] = value % 10;
        value /= 10;
        self.mem[self.index_reg as usize] = value % 10;
    }

    /// Fx55 LD [I], Vx: store V0 through Vx in memory from address I on.
    fn op_Fx55(&mut self)
        requires
            spec::block_ok(old(self)@),
        ensures
            final(self)@ == spec::store_registers(old(self)@),
    {
        let ghost s0 = self@;
        let vx = reg_x(self.opcode);
        let base = self.index_reg as usize;
        let mut i: usize = 0;
        while i <= vx
            invariant
                s0 == old(self)@,
                vx == spec::op_x(s0.opcode),
                base == s0.index_reg,
                base + vx < 4096,
                i <= vx + 1,
                self@ == (State { mem: self.mem@, ..s0 }),
                forall|a: int|
                    0 <= a < 4096 ==> #[trigger] self.mem@[a] == if base <= a < base + i {
                        s0.register[a - base]
                    } else {
                        s0.mem[a]
                    },
            decreases vx + 1 - i,
        {
            self.mem[base + i] = self.register[i];
            i += 1;
        }
        assert(self.mem@ =~= spec::store_registers(s0).mem);
    }

    /// Fx65 LD Vx, [I]: read V0 through Vx from memory from address I on.
    fn op_Fx65(&mut self)
        requires
            spec::block_ok(old(self)@),
        ensures
            final(self)@ == spec::load_registers(old(self)@),
    {
        let ghost s0 = self@;
        let vx = reg_x(self.opcode);
        let base = self.index_reg as usize;
        let mut i: usize = 0;
        while i <= vx
            invariant
                s0 == old(self)@,
                vx == spec::op_x(s0.opcode),
                base == s0.index_reg,
                base + vx < 4096,
                i <= vx + 1,
                self@ == (State { register: self.register@, ..s0 }),
                forall|r: int|
                    0 <= r < 16 ==> #[trigger] self.register@[r] == if r < i {
                        s0.mem[base + r]
                    } else {
                        s0.register[r]
                    },
            decreases vx + 1 - i,
        {
            self.register[i] = self.mem[base + i];
            i += 1;
        }
        assert(self.register@ =~= spec::load_registers(s0).register);
    }

    /// Dxyn DRW Vx, Vy, nibble: draw the n-byte sprite stored from address I
    /// at (Vx mod 64, Vy mod 32), flipping the pixels under its set bits;
    /// VF = 1 if one of them was on (a collision), else 0.
    fn op_Dxyn(&mut self)
        requires
            spec::draw_ok(old(self)@),
        ensures
            final(self)@ == spec::draw(old(self)@),
    {
        let ghost s0 = self@;
        let vx = reg_x(self.opcode);
        let vy = reg_y(self.opcode);
        let height: u16 = self.opcode % 16;
        let pos_x: u8 = self.register[vx] % (spec::VIDEO_WIDTH as u8);
        let pos_y: u8 = self.register[vy] % (spec::VIDEO_HEIGHT as u8);
        let mut pixels: [bool; 2048] = self.graphics;
        let mut flag: u8 = 0;
        let mut row: u16 = 0;
        proof {
            assert forall|i: int| 0 <= i < 2048 implies pixels@[i] == (s0.graphics[i]
                != spec::covers_before(s0, i, 0)) by {
                lemma_covers_all(s0, i);
            }
            assert forall|i: int| 0 <= i < 2048 implies !#[trigger] spec::covers_before(s0, i, 0) by {
                lemma_covers_all(s0, i);
            }
        }
        while row < height
            invariant
                self@ == s0,
                spec::draw_ok(s0),
                height == spec::op_n(s0.opcode),
                pos_x == spec::vx(s0) % 64,
                pos_y == spec::vy(s0) % 32,
                row <= height,
                forall|i: int|
                    0 <= i < 2048 ==> #[trigger] pixels@[i] == (s0.graphics[i]
                        != spec::covers_before(s0, i, row * 8)),
                flag == if spec::collision_before(s0, row * 8) {
                    1u8
                } else {
                    0u8
                },
            decreases height - row,
        {
            let sprite_byte: u8 = self.mem[(self.index_reg + row) as usize];
            let mut col: u8 = 0;
            while col < 8
                invariant
                    self@ == s0,
                    spec::draw_ok(s0),
                    height == spec::op_n(s0.opcode),
                    pos_x == spec::vx(s0) % 64,
                    pos_y == spec::vy(s0) % 32,
                    row < height,
                    col <= 8,
                    sprite_byte == s0.mem[s0.index_reg + row],
                    forall|i: int|
                        0 <= i < 2048 ==> #[trigger] pixels@[i] == (s0.graphics[i]
                            != spec::covers_before(s0, i, row * 8 + col)),
                    flag == if spec::collision_before(s0, row * 8 + col) {
                        1u8
                    } else {
                        0u8
                    },
                decreases 8 - col,
            {
                let ghost k: int = row * 8 + col;
                let sprite_pixel: u8 = sprite_byte & (0x80u8 >> col);
                let index: usize = (pos_y as usize + row as usize) * spec::VIDEO_WIDTH + (
                pos_x as usize + col as usize);
                proof {
                    assert(index == spec::pixel_index(s0, row as int, col as int));
                    assert((sprite_pixel != 0) == spec::sprite_bit(s0, row as int, col as int));
                    assert forall|i: int| #![auto]
                        spec::covers_before(s0, i, k + 1) == (spec::covers_before(s0, i, k) || (
                        i == index && sprite_pixel != 0)) by {
                        lemma_covers_step(s0, row as int, col as int, i);
                    }
                }
                if sprite_pixel != 0 {
                    if pixels[index] {
                        flag = 1;
                    }
                    pixels[index] = !pixels[index];
                }
                proof {
                    if sprite_pixel != 0 && s0.graphics[index as int] {
                        assert(spec::covers_before(s0, index as int, k + 1));
                    }
                    if spec::collision_before(s0, k + 1) {
                        let w = choose|i: int|
                            0 <= i < 2048 && #[trigger] spec::covers_before(s0, i, k + 1)
                                && s0.graphics[i];
                        if w != index as int || sprite_pixel == 0 {
                            assert(spec::covers_before(s0, w, k));
                        }
                    }
                    if spec::collision_before(s0, k) {
                        let w = choose|i: int|
                            0 <= i < 2048 && #[trigger] spec::covers_before(s0, i, k)
                                && s0.graphics[i];
                        assert(spec::covers_before(s0, w, k + 1));
                    }
                    assert forall|i: int| 0 <= i < 2048 implies #[trigger] pixels@[i] == (
                    s0.graphics[i] != spec::covers_before(s0, i, k + 1)) by {
                        assert(spec::covers_before(s0, i, k + 1) == (spec::covers_before(s0, i, k)
                            || (i == index && sprite_pixel != 0)));
                    }
                }
                col += 1;
            }
            row += 1;
        }
        proof {
            assert forall|i: int| #![auto]
                spec::covers_before(s0, i, height * 8) == spec::covers(s0, i) by {
                lemma_covers_all(s0, i);
            }
            if spec::collision(s0) {
                let w = choose|i: int| 0 <= i < 2048 && spec::covers(s0, i) && s0.graphics[i];
                assert(spec::covers_before(s0, w, height * 8));
            }
            if spec::collision_before(s0, height * 8) {
                let w = choose|i: int|
                    0 <= i < 2048 && #[trigger] spec::covers_before(s0, i, height * 8)
                        && s0.graphics[i];
                assert(spec::covers(s0, w));
            }
        }
        self.graphics = pixels;
        self.register[15] = flag;
        assert(self.graphics@ =~= spec::draw(s0).graphics);
    }
}

} // verus!
