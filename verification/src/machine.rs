use crate::fault::Fault;
use crate::instruction::{decode_spec, Instruction};
use vstd::prelude::*;

verus! {

/// Width of the display in pixels.
pub const SCREEN_W: usize = 64;

/// Height of the display in pixels.
pub const SCREEN_H: usize = 32;

/// Number of display cells, `SCREEN_W * SCREEN_H`.
pub const SCREEN_SIZE: usize = 2048;

/// Number of addressable bytes.
pub const MEM_SIZE: usize = 4096;

/// Number of general registers.
pub const REG_COUNT: usize = 16;

/// Number of return addresses that the call stack holds.
pub const STACK_SIZE: usize = 16;

/// Number of keys on the keypad.
pub const KEY_COUNT: usize = 16;

/// Where a loaded program begins, and where the program counter starts.
pub const START_ADDR: u16 = 0x200;

/// Number of bytes that the built-in font takes at the bottom of memory.
pub const FONT_SIZE: usize = 80;

/// Number of bytes in one glyph of the font.
pub const GLYPH_SIZE: u16 = 5;

/// The register that arithmetic and drawing use to report carry, borrow,
/// a bit shifted out, or a collision.
pub const FLAG: usize = 0xF;

/// The built-in font: glyphs `0` to `F`, five bytes each, every byte one
/// row of a glyph four pixels wide.
pub open spec fn font() -> Seq<u8> {
    seq![
        0xF0u8, 0x90, 0x90, 0x90, 0xF0,
        0x20, 0x60, 0x20, 0x20, 0x70,
        0xF0, 0x10, 0xF0, 0x80, 0xF0,
        0xF0, 0x10, 0xF0, 0x10, 0xF0,
        0x90, 0x90, 0xF0, 0x10, 0x10,
        0xF0, 0x80, 0xF0, 0x10, 0xF0,
        0xF0, 0x80, 0xF0, 0x90, 0xF0,
        0xF0, 0x10, 0x20, 0x40, 0x40,
        0xF0, 0x90, 0xF0, 0x90, 0xF0,
        0xF0, 0x90, 0xF0, 0x10, 0xF0,
        0xF0, 0x90, 0xF0, 0x90, 0x90,
        0xE0, 0x90, 0xE0, 0x90, 0xE0,
        0xF0, 0x80, 0x80, 0x80, 0xF0,
        0xE0, 0x90, 0x90, 0x90, 0xE0,
        0xF0, 0x80, 0xF0, 0x80, 0xF0,
        0xF0, 0x80, 0xF0, 0x80, 0x80,
    ]
}

/// The display cell of the pixel at column `x`, row `y`. The display is
/// row-major, and both coordinates wrap round its edges.
pub open spec fn cell_index(x: int, y: int) -> int {
    x % 64 + (y % 32) * 64
}

/// Whether the pixel in column `col` of a sprite row is lit. Column 0 is
/// the leftmost pixel and the most significant bit of the byte.
pub open spec fn sprite_bit(byte: u8, col: int) -> bool {
    byte & (0x80u8 >> (col as u8)) != 0
}

/// The value of an integer as an 8-bit register holds it.
pub open spec fn wrap8(v: int) -> u8 {
    (v % 0x100) as u8
}

/// The whole state of the machine as mathematical values.
#[verifier::ext_equal]
pub struct Machine {
    /// Address of the next instruction word.
    pub pc: u16,
    /// The 4096 bytes of memory.
    pub memory: Seq<u8>,
    /// The 2048 display cells, row by row; `true` is a lit pixel.
    pub display: Seq<bool>,
    /// The 16 general registers.
    pub registers: Seq<u8>,
    /// The index register.
    pub index: u16,
    /// Number of return addresses on the stack.
    pub sp: nat,
    /// The 16 stack slots; those below `sp` are in use.
    pub stack: Seq<u16>,
    /// The 16 keys; `true` is a pressed key.
    pub keys: Seq<bool>,
    /// The delay timer.
    pub delay_timer: u8,
    /// The sound timer.
    pub sound_timer: u8,
}

impl Machine {
    /// Every part has its fixed size and the stack pointer is within the
    /// stack.
    pub open spec fn wf(self) -> bool {
        &&& self.memory.len() == MEM_SIZE
        &&& self.display.len() == SCREEN_SIZE
        &&& self.registers.len() == REG_COUNT
        &&& self.stack.len() == STACK_SIZE
        &&& self.keys.len() == KEY_COUNT
        &&& self.sp <= STACK_SIZE
    }

    /// The machine as it is built and as a reset leaves it: all zero, but
    /// for the font at the bottom of memory and the program counter at the
    /// program origin.
    pub open spec fn initial() -> Machine {
        Machine {
            pc: START_ADDR,
            memory: Seq::new(
                MEM_SIZE as nat,
                |a: int|
                    if a < FONT_SIZE {
                        font()[a]
                    } else {
                        0u8
                    },
            ),
            display: Seq::new(SCREEN_SIZE as nat, |p: int| false),
            registers: Seq::new(REG_COUNT as nat, |i: int| 0u8),
            index: 0,
            sp: 0,
            stack: Seq::new(STACK_SIZE as nat, |i: int| 0u16),
            keys: Seq::new(KEY_COUNT as nat, |k: int| false),
            delay_timer: 0,
            sound_timer: 0,
        }
    }

    /// Whether a program of `len` bytes fits between the program origin
    /// and the end of memory.
    pub open spec fn fits(len: nat) -> bool {
        len <= MEM_SIZE - START_ADDR
    }

    /// The machine with `data` copied into memory from the program origin
    /// on.
    pub open spec fn load(self, data: Seq<u8>) -> Machine {
        Machine {
            memory: Seq::new(
                MEM_SIZE as nat,
                |a: int|
                    if START_ADDR <= a < START_ADDR + data.len() {
                        data[a - START_ADDR]
                    } else {
                        self.memory[a]
                    },
            ),
            ..self
        }
    }

    /// The machine with key `idx` pressed or released.
    pub open spec fn key_press(self, idx: int, pressed: bool) -> Machine {
        Machine { keys: self.keys.update(idx, pressed), ..self }
    }

    /// The machine after one tick of the timers: each timer that is not
    /// zero goes down by one.
    pub open spec fn tick(self) -> Machine {
        Machine {
            delay_timer: if self.delay_timer > 0 {
                (self.delay_timer - 1) as u8
            } else {
                0
            },
            sound_timer: if self.sound_timer > 0 {
                (self.sound_timer - 1) as u8
            } else {
                0
            },
            ..self
        }
    }

    /// Whether the next tick takes the sound timer from 1 to 0 and so
    /// ends the tone.
    pub open spec fn tone_ends(self) -> bool {
        self.sound_timer == 1
    }

    /// What register `x` holds.
    pub open spec fn reg(self, x: u8) -> u8 {
        self.registers[x as int]
    }

    /// The machine with `v` in register `x`.
    pub open spec fn with_reg(self, x: u8, v: u8) -> Machine {
        Machine { registers: self.registers.update(x as int, v), ..self }
    }

    /// The machine with 1 or 0 in the flag register.
    pub open spec fn with_flag(self, set: bool) -> Machine {
        Machine {
            registers: self.registers.update(
                FLAG as int,
                if set {
                    1u8
                } else {
                    0u8
                },
            ),
            ..self
        }
    }

    /// The machine with the program counter moved past one more
    /// instruction where `cond` holds, and unchanged where it does not.
    pub open spec fn skip_if(self, cond: bool) -> Machine {
        if cond {
            Machine { pc: (self.pc + 2) as u16, ..self }
        } else {
            self
        }
    }

    /// Whether pixel (`row`, `col`) of the sprite at the index register is
    /// lit.
    pub open spec fn sprite_pixel(self, row: int, col: int) -> bool {
        sprite_bit(self.memory[self.index + row], col)
    }

    /// The sprite column that falls on display cell `p` when the sprite's
    /// left edge is at `vx`; 8 or more where the sprite does not reach.
    pub open spec fn sprite_col(vx: u8, p: int) -> int {
        (p % 64 - vx) % 64
    }

    /// The sprite row that falls on display cell `p` when the sprite's
    /// top edge is at `vy`.
    pub open spec fn sprite_row(vy: u8, p: int) -> int {
        (p / 64 - vy) % 32
    }

    /// Whether a sprite of `n` rows drawn at (`vx`, `vy`) has a lit pixel
    /// on display cell `p`.
    pub open spec fn sprite_covers(self, vx: u8, vy: u8, n: u8, p: int) -> bool {
        let col = Self::sprite_col(vx, p);
        let row = Self::sprite_row(vy, p);
        col < 8 && row < n && self.sprite_pixel(row, col)
    }

    /// Whether drawing a sprite of `n` rows at (`vx`, `vy`) turns off a
    /// pixel that is lit.
    pub open spec fn collides(self, vx: u8, vy: u8, n: u8) -> bool {
        exists|p: int| 0 <= p < SCREEN_SIZE && self.display[p] && self.sprite_covers(vx, vy, n, p)
    }

    /// The display after a sprite of `n` rows is drawn at (`vx`, `vy`):
    /// every cell under a lit sprite pixel is toggled.
    pub open spec fn drawn(self, vx: u8, vy: u8, n: u8) -> Seq<bool> {
        Seq::new(
            SCREEN_SIZE as nat,
            |p: int| self.display[p] != self.sprite_covers(vx, vy, n, p),
        )
    }

    /// `DXYN`: draws the sprite of `n` rows at the index register with
    /// its top left corner at (register `x`, register `y`), and records
    /// in the flag register whether a lit pixel went out.
    pub open spec fn draw(self, x: u8, y: u8, n: u8) -> Result<Machine, Fault> {
        let vx = self.reg(x);
        let vy = self.reg(y);
        if n > 0 && self.index + n > MEM_SIZE {
            Err(Fault::MemoryOutOfBounds)
        } else {
            Ok(
                Machine { display: self.drawn(vx, vy, n), ..self }.with_flag(
                    self.collides(vx, vy, n),
                ),
            )
        }
    }

    /// Whether some key is pressed.
    pub open spec fn any_key_pressed(self) -> bool {
        exists|k: int| 0 <= k < KEY_COUNT && self.keys[k]
    }

    /// Whether `k` is the pressed key of lowest number.
    pub open spec fn is_first_pressed(self, k: int) -> bool {
        &&& 0 <= k < KEY_COUNT
        &&& self.keys[k]
        &&& forall|j: int| 0 <= j < k ==> !self.keys[j]
    }

    /// The pressed key of lowest number, where a key is pressed.
    pub open spec fn first_pressed(self) -> int {
        choose|k: int| self.is_first_pressed(k)
    }

    /// `FX0A`: with a key pressed, the lowest such key goes to register
    /// `x`. With none, the program counter goes back to this instruction,
    /// which so runs again at the next step.
    pub open spec fn wait_for_key(self, x: u8) -> Machine {
        if self.any_key_pressed() {
            self.with_reg(x, self.first_pressed() as u8)
        } else {
            Machine { pc: (self.pc - 2) as u16, ..self }
        }
    }

    /// `FX33`: the hundreds, tens and ones of register `x` go to the
    /// three bytes at the index register.
    pub open spec fn store_decimal(self, x: u8) -> Result<Machine, Fault> {
        let v = self.reg(x);
        let i = self.index as int;
        if i + 2 >= MEM_SIZE {
            Err(Fault::MemoryOutOfBounds)
        } else {
            Ok(
                Machine {
                    memory: self.memory.update(i, v / 100).update(i + 1, v / 10 % 10).update(
                        i + 2,
                        v % 10,
                    ),
                    ..self
                },
            )
        }
    }

    /// `FX55`: registers 0 to `x` go to memory from the index register
    /// on.
    pub open spec fn dump_registers(self, x: u8) -> Result<Machine, Fault> {
        let i = self.index as int;
        if i + x >= MEM_SIZE {
            Err(Fault::MemoryOutOfBounds)
        } else {
            Ok(
                Machine {
                    memory: Seq::new(
                        MEM_SIZE as nat,
                        |a: int|
                            if i <= a <= i + x {
                                self.registers[a - i]
                            } else {
                                self.memory[a]
                            },
                    ),
                    ..self
                },
            )
        }
    }

    /// `FX65`: registers 0 to `x` are read from memory at the index
    /// register.
    pub open spec fn load_registers(self, x: u8) -> Result<Machine, Fault> {
        let i = self.index as int;
        if i + x >= MEM_SIZE {
            Err(Fault::MemoryOutOfBounds)
        } else {
            Ok(
                Machine {
                    registers: Seq::new(
                        REG_COUNT as nat,
                        |r: int|
                            if r <= x {
                                self.memory[i + r]
                            } else {
                                self.registers[r]
                            },
                    ),
                    ..self
                },
            )
        }
    }

    /// What instruction `ins` makes of the machine, the program counter
    /// being past the instruction already. `random` is the byte that
    /// `CXNN` draws. A fault leaves no trace: the caller keeps the machine
    /// it had.
    pub open spec fn execute(self, ins: Instruction, random: u8) -> Result<Machine, Fault> {
        match ins {
            Instruction::ClearScreen => Ok(
                Machine { display: Seq::new(SCREEN_SIZE as nat, |p: int| false), ..self },
            ),
            Instruction::Return => if self.sp == 0 {
                Err(Fault::StackUnderflow)
            } else {
                Ok(Machine { sp: (self.sp - 1) as nat, pc: self.stack[self.sp - 1], ..self })
            },
            Instruction::MachineRoutine { addr } => Ok(self),
            Instruction::Jump { addr } => Ok(Machine { pc: addr, ..self }),
            Instruction::Call { addr } => if self.sp >= STACK_SIZE {
                Err(Fault::StackOverflow)
            } else {
                Ok(
                    Machine {
                        stack: self.stack.update(self.sp as int, self.pc),
                        sp: self.sp + 1,
                        pc: addr,
                        ..self
                    },
                )
            },
            Instruction::SkipIfEqual { x, nn } => Ok(self.skip_if(self.reg(x) == nn)),
            Instruction::SkipIfNotEqual { x, nn } => Ok(self.skip_if(self.reg(x) != nn)),
            Instruction::SkipIfRegistersEqual { x, y } => Ok(
                self.skip_if(self.reg(x) == self.reg(y)),
            ),
            Instruction::SetImmediate { x, nn } => Ok(self.with_reg(x, nn)),
            Instruction::AddImmediate { x, nn } => Ok(self.with_reg(x, wrap8(self.reg(x) + nn))),
            Instruction::Copy { x, y } => Ok(self.with_reg(x, self.reg(y))),
            Instruction::Or { x, y } => Ok(self.with_reg(x, self.reg(x) | self.reg(y))),
            Instruction::And { x, y } => Ok(self.with_reg(x, self.reg(x) & self.reg(y))),
            Instruction::Xor { x, y } => Ok(self.with_reg(x, self.reg(x) ^ self.reg(y))),
            Instruction::AddWithCarry { x, y } => {
                let sum = self.reg(x) + self.reg(y);
                Ok(self.with_reg(x, wrap8(sum)).with_flag(sum > 0xFF))
            },
            Instruction::Subtract { x, y } => {
                let vx = self.reg(x);
                let vy = self.reg(y);
                Ok(self.with_reg(x, wrap8(vx - vy)).with_flag(vx >= vy))
            },
            Instruction::ShiftRight { x } => {
                let flagged = self.with_flag(self.reg(x) % 2 == 1);
                Ok(flagged.with_reg(x, flagged.reg(x) / 2))
            },
            Instruction::ReverseSubtract { x, y } => {
                let vx = self.reg(x);
                let vy = self.reg(y);
                Ok(self.with_reg(x, wrap8(vy - vx)).with_flag(vy >= vx))
            },
            Instruction::ShiftLeft { x } => {
                let flagged = self.with_flag(self.reg(x) >= 0x80);
                Ok(flagged.with_reg(x, wrap8(flagged.reg(x) * 2)))
            },
            Instruction::SkipIfRegistersNotEqual { x, y } => Ok(
                self.skip_if(self.reg(x) != self.reg(y)),
            ),
            Instruction::SetIndex { addr } => Ok(Machine { index: addr, ..self }),
            Instruction::JumpWithOffset { addr } => Ok(
                Machine { pc: (addr + self.registers[0]) as u16, ..self },
            ),
            Instruction::Random { x, nn } => Ok(self.with_reg(x, nn & random)),
            Instruction::Draw { x, y, n } => self.draw(x, y, n),
            Instruction::SkipIfKeyPressed { x } => if self.reg(x) >= KEY_COUNT {
                Err(Fault::KeyOutOfRange)
            } else {
                Ok(self.skip_if(self.keys[self.reg(x) as int]))
            },
            Instruction::SkipIfKeyNotPressed { x } => if self.reg(x) >= KEY_COUNT {
                Err(Fault::KeyOutOfRange)
            } else {
                Ok(self.skip_if(!self.keys[self.reg(x) as int]))
            },
            Instruction::ReadDelayTimer { x } => Ok(self.with_reg(x, self.delay_timer)),
            Instruction::WaitForKey { x } => Ok(self.wait_for_key(x)),
            Instruction::SetDelayTimer { x } => Ok(Machine { delay_timer: self.reg(x), ..self }),
            Instruction::SetSoundTimer { x } => Ok(Machine { sound_timer: self.reg(x), ..self }),
            Instruction::AddToIndex { x } => Ok(
                Machine { index: ((self.index + self.reg(x)) % 0x1_0000) as u16, ..self },
            ),
            Instruction::SelectGlyph { x } => Ok(
                Machine { index: (self.reg(x) * GLYPH_SIZE) as u16, ..self },
            ),
            Instruction::StoreDecimal { x } => self.store_decimal(x),
            Instruction::DumpRegisters { x } => self.dump_registers(x),
            Instruction::LoadRegisters { x } => self.load_registers(x),
        }
    }

    /// Whether the program counter leaves room for an instruction word.
    pub open spec fn can_fetch(self) -> bool {
        self.pc + 1 < MEM_SIZE
    }

    /// The instruction word at the program counter: two bytes, the high
    /// one first.
    pub open spec fn opcode(self) -> u16 {
        (self.memory[self.pc as int] * 0x100 + self.memory[self.pc + 1]) as u16
    }

    /// The instruction at the program counter, or the fault that fetching
    /// and decoding it ends in.
    pub open spec fn fetch(self) -> Result<Instruction, Fault> {
        if !self.can_fetch() {
            Err(Fault::PcOutOfBounds { address: self.pc })
        } else {
            match decode_spec(self.opcode()) {
                Some(ins) => Ok(ins),
                None => Err(Fault::UnknownOpcode { opcode: self.opcode(), address: self.pc }),
            }
        }
    }

    /// The machine with the program counter moved past the instruction
    /// that it points at.
    pub open spec fn advance(self) -> Machine {
        Machine { pc: (self.pc + 2) as u16, ..self }
    }

    /// One step: fetch the instruction word, move the program counter past
    /// it, decode and execute. `random` is the byte that the step draws if
    /// the instruction is `CXNN`.
    pub open spec fn step(self, random: u8) -> Result<Machine, Fault> {
        match self.fetch() {
            Ok(ins) => self.advance().execute(ins, random),
            Err(fault) => Err(fault),
        }
    }

    /// Step after step, one for each byte of `randoms`, which the steps are
    /// given to draw in turn. The first fault ends the run.
    pub open spec fn run(self, randoms: Seq<u8>) -> Result<Machine, Fault>
        decreases randoms.len(),
    {
        if randoms.len() == 0 {
            Ok(self)
        } else {
            match self.step(randoms[0]) {
                Ok(next) => next.run(randoms.skip(1)),
                Err(fault) => Err(fault),
            }
        }
    }

    /// Whether the sprite of `n` rows at the index register has a lit
    /// pixel.
    pub open spec fn sprite_has_lit_pixel(self, n: u8) -> bool {
        exists|row: int, col: int| 0 <= row < n && 0 <= col < 8 && self.sprite_pixel(row, col)
    }

    /// Whether the next step draws a random byte.
    pub open spec fn draws_random(self) -> bool {
        self.fetch() matches Ok(Instruction::Random { .. })
    }

    /// Whether a caller who had this machine and asked for a transition
    /// with the result `result` now has machine `after` and report
    /// `report`: on success the machine that the transition makes, on a
    /// fault the machine as it was.
    pub open spec fn yields(
        self,
        result: Result<Machine, Fault>,
        after: Machine,
        report: Result<(), Fault>,
    ) -> bool {
        match result {
            Ok(next) => report is Ok && after == next,
            Err(fault) => report == Err::<(), Fault>(fault) && after == self,
        }
    }

    /// Whether a step that is given the byte `random` to draw takes this
    /// machine to `after` with the report `report`.
    pub open spec fn steps_to(self, random: u8, after: Machine, report: Result<(), Fault>) -> bool {
        self.yields(self.step(random), after, report)
    }
}

} // verus!
