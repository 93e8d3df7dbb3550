use crate::fault::{Fault, Rejection};
use crate::instruction::{decode, Instruction};
use crate::laws::{lemma_sprite_cell_unique, lemma_sprite_pixel_cell};
use crate::machine::{
    cell_index, font, Machine, FLAG, FONT_SIZE, GLYPH_SIZE, KEY_COUNT, MEM_SIZE,
    REG_COUNT, SCREEN_H, SCREEN_SIZE, SCREEN_W, STACK_SIZE, START_ADDR,
};
use crate::random::random_byte;
use vstd::prelude::*;

verus! {

/// The built-in font as it is copied to the bottom of memory.
fn font_table() -> (table: [u8; FONT_SIZE])
    ensures
        table@ == font(),
{
    let table: [u8; FONT_SIZE] = [
        0xF0, 0x90, 0x90, 0x90, 0xF0,
        0x20, 0x60, 0x20, 0x20, 0x70,
        0xF0, 0x10, 0xF0, 0x80, 0xF0,
        0xF0, 0x10, 0xF0, 0x10, 0xF0,
        0x90, 0x90, 0xF0, 0x10, 0x10,
        0xF0, 0x80, 0xF0, 0x10, 0xF0,
        0xF0, 0x80, 0xF0, 0x90, 0xF0,
        0xF0, 0x10, 0x20, 0x40, 0x40,
        0xF0, 0x90, 0xF0, 0x90, 0xF0,
        0xF0, 0x90, 0xF0, 0x10, 0xF0,
        0xF0, 0x90, 0xF0, 0x90, 0x90,
        0xE0, 0x90, 0xE0, 0x90, 0xE0,
        0xF0, 0x80, 0x80, 0x80, 0xF0,
        0xE0, 0x90, 0x90, 0x90, 0xE0,
        0xF0, 0x80, 0xF0, 0x80, 0xF0,
        0xF0, 0x80, 0xF0, 0x80, 0x80,
    ];
    assert(table@ =~= font());
    table
}

/// Whether a sprite at (`vx`, `vy`) whose pixels are drawn row by row, left
/// to right, has the pixel that falls on cell `p` behind it once it comes
/// to pixel (`row`, `col`).
spec fn drawn_before(vx: u8, vy: u8, p: int, row: int, col: int) -> bool {
    let r = Machine::sprite_row(vy, p);
    let c = Machine::sprite_col(vx, p);
    r < row || (r == row && c < col)
}

/// Whether one of the sprite pixels drawn before pixel (`row`, `col`) fell
/// on a lit cell of `m`.
spec fn collides_before(m: Machine, vx: u8, vy: u8, n: u8, row: int, col: int) -> bool {
    exists|p: int|
        0 <= p < SCREEN_SIZE && m.display[p] && m.sprite_covers(vx, vy, n, p) && drawn_before(
            vx,
            vy,
            p,
            row,
            col,
        )
}

/// The display of `m` with the sprite pixels before (`row`, `col`) drawn.
spec fn drawn_up_to(m: Machine, vx: u8, vy: u8, n: u8, row: int, col: int) -> Seq<bool> {
    Seq::new(
        SCREEN_SIZE as nat,
        |p: int| m.display[p] != (m.sprite_covers(vx, vy, n, p) && drawn_before(vx, vy, p, row, col)),
    )
}

/// Drawing pixel (`row`, `col`) toggles its cell if the pixel is lit, and
/// is a collision if the cell was lit too.
proof fn lemma_draw_pixel(m: Machine, vx: u8, vy: u8, n: u8, row: int, col: int)
    requires
        m.wf(),
        0 <= row < n < 16,
        0 <= col < 8,
    ensures
        ({
            let t = cell_index(vx + col, vy + row);
            let lit = m.sprite_pixel(row, col);
            let before = drawn_up_to(m, vx, vy, n, row, col);
            &&& 0 <= t < SCREEN_SIZE
            &&& before[t] == m.display[t]
            &&& drawn_up_to(m, vx, vy, n, row, col + 1) == if lit {
                before.update(t, !before[t])
            } else {
                before
            }
            &&& collides_before(m, vx, vy, n, row, col + 1) == (collides_before(
                m,
                vx,
                vy,
                n,
                row,
                col,
            ) || (lit && m.display[t]))
        }),
{
    let t = cell_index(vx + col, vy + row);
    let lit = m.sprite_pixel(row, col);
    let before = drawn_up_to(m, vx, vy, n, row, col);
    let after = drawn_up_to(m, vx, vy, n, row, col + 1);
    lemma_sprite_pixel_cell(vx, vy, row, col);
    assert(m.sprite_covers(vx, vy, n, t) == lit);
    assert(!drawn_before(vx, vy, t, row, col));
    assert(drawn_before(vx, vy, t, row, col + 1));
    assert forall|p: int| 0 <= p < SCREEN_SIZE && p != t implies drawn_before(vx, vy, p, row, col)
        == drawn_before(vx, vy, p, row, col + 1) by {
        if drawn_before(vx, vy, p, row, col) != drawn_before(vx, vy, p, row, col + 1) {
            lemma_sprite_cell_unique(vx, vy, p, t);
        }
    }
    assert(after =~= if lit {
        before.update(t, !before[t])
    } else {
        before
    });
    if collides_before(m, vx, vy, n, row, col) {
        let p = choose|p: int|
            0 <= p < SCREEN_SIZE && m.display[p] && m.sprite_covers(vx, vy, n, p) && drawn_before(
                vx,
                vy,
                p,
                row,
                col,
            );
        assert(drawn_before(vx, vy, p, row, col + 1));
    }
    if lit && m.display[t] {
        assert(m.sprite_covers(vx, vy, n, t) && drawn_before(vx, vy, t, row, col + 1));
    }
    if collides_before(m, vx, vy, n, row, col + 1) {
        let p = choose|p: int|
            0 <= p < SCREEN_SIZE && m.display[p] && m.sprite_covers(vx, vy, n, p) && drawn_before(
                vx,
                vy,
                p,
                row,
                col + 1,
            );
        if p != t {
            assert(drawn_before(vx, vy, p, row, col));
        }
    }
}

/// Going from the end of one sprite row to the start of the next draws
/// nothing.
proof fn lemma_draw_next_row(m: Machine, vx: u8, vy: u8, n: u8, row: int)
    requires
        0 <= row < n,
    ensures
        drawn_up_to(m, vx, vy, n, row + 1, 0) == drawn_up_to(m, vx, vy, n, row, 8),
        collides_before(m, vx, vy, n, row + 1, 0) == collides_before(m, vx, vy, n, row, 8),
{
    assert forall|p: int| 0 <= p < SCREEN_SIZE && m.sprite_covers(vx, vy, n, p) implies drawn_before(
        vx,
        vy,
        p,
        row + 1,
        0,
    ) == drawn_before(vx, vy, p, row, 8) by {}
    assert(drawn_up_to(m, vx, vy, n, row + 1, 0) =~= drawn_up_to(m, vx, vy, n, row, 8));
    if collides_before(m, vx, vy, n, row + 1, 0) {
        let p = choose|p: int|
            0 <= p < SCREEN_SIZE && m.display[p] && m.sprite_covers(vx, vy, n, p) && drawn_before(
                vx,
                vy,
                p,
                row + 1,
                0,
            );
        assert(drawn_before(vx, vy, p, row, 8));
    }
    if collides_before(m, vx, vy, n, row, 8) {
        let p = choose|p: int|
            0 <= p < SCREEN_SIZE && m.display[p] && m.sprite_covers(vx, vy, n, p) && drawn_before(
                vx,
                vy,
                p,
                row,
                8,
            );
        assert(drawn_before(vx, vy, p, row + 1, 0));
    }
}

/// Before the first pixel nothing is drawn, and after the last row the
/// whole sprite is.
proof fn lemma_draw_ends(m: Machine, vx: u8, vy: u8, n: u8)
    requires
        m.wf(),
    ensures
        drawn_up_to(m, vx, vy, n, 0, 0) == m.display,
        !collides_before(m, vx, vy, n, 0, 0),
        drawn_up_to(m, vx, vy, n, n as int, 0) == m.drawn(vx, vy, n),
        collides_before(m, vx, vy, n, n as int, 0) == m.collides(vx, vy, n),
{
    assert(drawn_up_to(m, vx, vy, n, 0, 0) =~= m.display);
    assert(drawn_up_to(m, vx, vy, n, n as int, 0) =~= m.drawn(vx, vy, n));
    if m.collides(vx, vy, n) {
        let p = choose|p: int|
            0 <= p < SCREEN_SIZE && m.display[p] && m.sprite_covers(vx, vy, n, p);
        assert(drawn_before(vx, vy, p, n as int, 0));
    }
}

/// A CHIP-8 machine.
#[derive(Debug, PartialEq, Eq)]
pub struct Emu {
    pc: u16,
    mem: [u8; MEM_SIZE],
    sc: [bool; SCREEN_SIZE],
    reg: [u8; REG_COUNT],
    i_reg: u16,
    sp: u16,
    stack: [u16; STACK_SIZE],
    keys: [bool; KEY_COUNT],
    d_timer: u8,
    s_timer: u8,
}

impl View for Emu {
    type V = Machine;

    closed spec fn view(&self) -> Machine {
        Machine {
            pc: self.pc,
            memory: self.mem@,
            display: self.sc@,
            registers: self.reg@,
            index: self.i_reg,
            sp: self.sp as nat,
            stack: self.stack@,
            keys: self.keys@,
            delay_timer: self.d_timer,
            sound_timer: self.s_timer,
        }
    }
}

impl Emu {
    #[verifier::type_invariant]
    spec fn stack_pointer_in_range(&self) -> bool {
        self.sp <= STACK_SIZE
    }

    /// A machine in its initial state.
    pub fn default() -> (emu: Emu)
        ensures
            emu@ == Machine::initial(),
            emu@.wf(),
    {
        let mut mem = [0u8; MEM_SIZE];
        let table = font_table();
        for a in 0..FONT_SIZE
            invariant
                table@ == font(),
                forall|b: int| 0 <= b < a ==> mem@[b] == font()[b],
                forall|b: int| a <= b < MEM_SIZE ==> mem@[b] == 0,
        {
            mem[a] = table[a];
        }
        let emu = Emu {
            pc: START_ADDR,
            mem,
            sc: [false; SCREEN_SIZE],
            reg: [0; REG_COUNT],
            i_reg: 0,
            sp: 0,
            stack: [0; STACK_SIZE],
            keys: [false; KEY_COUNT],
            d_timer: 0,
            s_timer: 0,
        };
        assert(emu@ =~= Machine::initial());
        emu
    }

    /// Puts the machine back into its initial state.
    pub fn reset(&mut self)
        ensures
            final(self)@ == Machine::initial(),
            final(self)@.wf(),
    {
        *self = Emu::default();
    }

    /// Copies a program into memory at the program origin.
    pub fn load(&mut self, data: &[u8])
        requires
            Machine::fits(data@.len()),
        ensures
            final(self)@ == old(self)@.load(data@),
            final(self)@.wf(),
    {
        proof {
            use_type_invariant(&*self);
        }
        let origin = START_ADDR as usize;
        for i in 0..data.len()
            invariant
                self.sp <= STACK_SIZE,
                origin == START_ADDR,
                Machine::fits(data@.len()),
                self@ == (Machine { memory: self@.memory, ..old(self)@ }),
                forall|a: int|
                    0 <= a < MEM_SIZE ==> self@.memory[a] == if origin <= a < origin + i {
                        data@[a - origin]
                    } else {
                        old(self)@.memory[a]
                    },
        {
            self.mem[origin + i] = data[i];
        }
        assert(self@ =~= old(self)@.load(data@));
    }

    /// A machine is no more than its view: two machines with the same view
    /// are the same value, field by field. So a machine after `reset` and
    /// one fresh from `default`, whose views are both `Machine::initial()`,
    /// are identical.
    pub proof fn lemma_view_determines_machine(a: Emu, b: Emu)
        requires
            a@ == b@,
        ensures
            a == b,
    {
        assert(a.mem@ == b.mem@);
        assert(a.mem =~= b.mem);
        assert(a.sc@ == b.sc@);
        assert(a.sc =~= b.sc);
        assert(a.reg@ == b.reg@);
        assert(a.reg =~= b.reg);
        assert(a.stack@ == b.stack@);
        assert(a.stack =~= b.stack);
        assert(a.keys@ == b.keys@);
        assert(a.keys =~= b.keys);
        assert(a.sp as nat == b.sp as nat);
    }

    /// Copies a program into memory at the program origin if it fits
    /// there, and turns it away before a byte is copied if it does not.
    pub fn try_load(&mut self, data: &[u8]) -> (report: Result<(), Rejection>)
        ensures
            Machine::fits(data@.len()) ==> report is Ok && final(self)@ == old(self)@.load(data@),
            !Machine::fits(data@.len()) ==> report == Err::<(), Rejection>(
                Rejection::ProgramTooLong { len: data@.len() as usize },
            ) && final(self)@ == old(self)@,
            final(self)@.wf(),
    {
        proof {
            use_type_invariant(&*self);
        }
        if data.len() > MEM_SIZE - START_ADDR as usize {
            return Err(Rejection::ProgramTooLong { len: data.len() });
        }
        self.load(data);
        Ok(())
    }

    /// The display, row by row: 2048 cells, `true` for a lit pixel.
    pub fn display(&self) -> (cells: &[bool])
        ensures
            cells@ == self@.display,
            self@.wf(),
    {
        proof {
            use_type_invariant(self);
        }
        &self.sc
    }

    /// The 4096 bytes of memory.
    pub fn memory(&self) -> (bytes: &[u8])
        ensures
            bytes@ == self@.memory,
            self@.wf(),
    {
        proof {
            use_type_invariant(self);
        }
        &self.mem
    }

    /// The 16 general registers.
    pub fn registers(&self) -> (values: &[u8])
        ensures
            values@ == self@.registers,
            self@.wf(),
    {
        proof {
            use_type_invariant(self);
        }
        &self.reg
    }

    /// The 16 stack slots, of which the first `stack_pointer()` are in
    /// use.
    pub fn stack(&self) -> (slots: &[u16])
        ensures
            slots@ == self@.stack,
            self@.wf(),
    {
        proof {
            use_type_invariant(self);
        }
        &self.stack
    }

    /// The 16 keys, `true` for a pressed one.
    pub fn keys(&self) -> (states: &[bool])
        ensures
            states@ == self@.keys,
            self@.wf(),
    {
        proof {
            use_type_invariant(self);
        }
        &self.keys
    }

    /// Address of the next instruction.
    pub fn program_counter(&self) -> (pc: u16)
        ensures
            pc == self@.pc,
    {
        self.pc
    }

    /// The index register.
    pub fn index_register(&self) -> (index: u16)
        ensures
            index == self@.index,
    {
        self.i_reg
    }

    /// Number of return addresses on the stack, at most 16.
    pub fn stack_pointer(&self) -> (sp: usize)
        ensures
            sp == self@.sp,
            self@.wf(),
    {
        proof {
            use_type_invariant(self);
        }
        self.sp as usize
    }

    /// The delay timer.
    pub fn delay_timer(&self) -> (value: u8)
        ensures
            value == self@.delay_timer,
    {
        self.d_timer
    }

    /// The sound timer. A tone sounds while it is not zero.
    pub fn sound_timer(&self) -> (value: u8)
        ensures
            value == self@.sound_timer,
    {
        self.s_timer
    }

    /// Records that key `idx` is pressed or released.
    pub fn key_press(&mut self, idx: usize, pressed: bool)
        requires
            idx < KEY_COUNT,
        ensures
            final(self)@ == old(self)@.key_press(idx as int, pressed),
            final(self)@.wf(),
    {
        proof {
            use_type_invariant(&*self);
        }
        self.keys[idx] = pressed;
    }

    /// Records that key `idx` is pressed or released if the keypad has
    /// such a key, and turns the call away if it has not.
    pub fn try_key_press(&mut self, idx: usize, pressed: bool) -> (report: Result<(), Rejection>)
        ensures
            idx < KEY_COUNT ==> report is Ok && final(self)@ == old(self)@.key_press(
                idx as int,
                pressed,
            ),
            idx >= KEY_COUNT ==> report == Err::<(), Rejection>(Rejection::NoSuchKey { idx })
                && final(self)@ == old(self)@,
            final(self)@.wf(),
    {
        proof {
            use_type_invariant(&*self);
        }
        if idx >= KEY_COUNT {
            return Err(Rejection::NoSuchKey { idx });
        }
        self.key_press(idx, pressed);
        Ok(())
    }

    /// Counts both timers down by one where they are not at zero. Returns
    /// `true` when this tick took the sound timer from 1 to 0, which is
    /// when the tone ends.
    pub fn tick_timers(&mut self) -> (tone_ends: bool)
        ensures
            final(self)@ == old(self)@.tick(),
            tone_ends == old(self)@.tone_ends(),
            final(self)@.wf(),
    {
        proof {
            use_type_invariant(&*self);
        }
        if self.d_timer > 0 {
            self.d_timer -= 1;
        }
        let mut tone_ends = false;
        if self.s_timer > 0 {
            tone_ends = self.s_timer == 1;
            self.s_timer -= 1;
        }
        tone_ends
    }

    /// `DXYN`.
    fn draw(&mut self, x: u8, y: u8, n: u8) -> (report: Result<(), Fault>)
        requires
            x < 16,
            y < 16,
            n < 16,
        ensures
            old(self)@.yields(old(self)@.draw(x, y, n), final(self)@, report),
    {
        proof {
            use_type_invariant(&*self);
        }
        let vx = self.reg[x as usize];
        let vy = self.reg[y as usize];
        let base = self.i_reg as usize;
        let rows = n as usize;
        if rows > 0 && base + rows > MEM_SIZE {
            return Err(Fault::MemoryOutOfBounds);
        }
        let ghost m = self@;
        proof {
            lemma_draw_ends(m, vx, vy, n);
        }
        let mut flipped = false;
        let mut row: usize = 0;
        while row < rows
            invariant
                self.sp <= STACK_SIZE,
                m.wf(),
                m == old(self)@,
                rows == n < 16,
                base == m.index,
                rows > 0 ==> base + rows <= MEM_SIZE,
                row <= rows,
                self@ == (Machine { display: self@.display, ..m }),
                self@.display == drawn_up_to(m, vx, vy, n, row as int, 0),
                flipped == collides_before(m, vx, vy, n, row as int, 0),
            decreases rows - row,
        {
            let bits = self.mem[base + row];
            let mut col: usize = 0;
            while col < 8
                invariant
                    self.sp <= STACK_SIZE,
                    m.wf(),
                    rows == n < 16,
                    base == m.index,
                    base + rows <= MEM_SIZE,
                    row < rows,
                    col <= 8,
                    bits == m.memory[base + row],
                    self@ == (Machine { display: self@.display, ..m }),
                    self@.display == drawn_up_to(m, vx, vy, n, row as int, col as int),
                    flipped == collides_before(m, vx, vy, n, row as int, col as int),
                decreases 8 - col,
            {
                proof {
                    lemma_draw_pixel(m, vx, vy, n, row as int, col as int);
                }
                if bits & (0x80u8 >> (col as u8)) != 0 {
                    let cell = (vx as usize + col) % SCREEN_W + ((vy as usize + row) % SCREEN_H)
                        * SCREEN_W;
                    flipped = flipped || self.sc[cell];
                    self.sc[cell] = !self.sc[cell];
                }
                col += 1;
            }
            proof {
                lemma_draw_next_row(m, vx, vy, n, row as int);
            }
            row += 1;
        }
        self.reg[FLAG] = if flipped {
            1
        } else {
            0
        };
        assert(self@ =~= old(self)@.draw(x, y, n)->Ok_0);
        Ok(())
    }

    /// `FX0A`.
    fn wait_for_key(&mut self, x: u8)
        requires
            x < 16,
            old(self)@.pc >= 2,
        ensures
            final(self)@ == old(self)@.wait_for_key(x),
    {
        proof {
            use_type_invariant(&*self);
        }
        let mut k: usize = 0;
        while k < KEY_COUNT
            invariant
                self.sp <= STACK_SIZE,
                k <= KEY_COUNT,
                x < 16,
                *self == *old(self),
                forall|j: int| 0 <= j < k ==> !self@.keys[j],
            decreases KEY_COUNT - k,
        {
            if self.keys[k] {
                proof {
                    assert(self@.is_first_pressed(k as int));
                    assert(self@.first_pressed() == k);
                }
                self.reg[x as usize] = k as u8;
                return ;
            }
            k += 1;
        }
        self.pc -= 2;
    }

    /// `FX33`.
    fn store_decimal(&mut self, x: u8) -> (report: Result<(), Fault>)
        requires
            x < 16,
        ensures
            old(self)@.yields(old(self)@.store_decimal(x), final(self)@, report),
    {
        proof {
            use_type_invariant(&*self);
        }
        let v = self.reg[x as usize];
        let i = self.i_reg as usize;
        if i + 2 >= MEM_SIZE {
            return Err(Fault::MemoryOutOfBounds);
        }
        self.mem[i] = v / 100;
        self.mem[i + 1] = v / 10 % 10;
        self.mem[i + 2] = v % 10;
        Ok(())
    }

    /// `FX55`.
    fn dump_registers(&mut self, x: u8) -> (report: Result<(), Fault>)
        requires
            x < 16,
        ensures
            old(self)@.yields(old(self)@.dump_registers(x), final(self)@, report),
    {
        proof {
            use_type_invariant(&*self);
        }
        let i = self.i_reg as usize;
        let count = x as usize + 1;
        if i + count > MEM_SIZE {
            return Err(Fault::MemoryOutOfBounds);
        }
        for r in 0..count
            invariant
                self.sp <= STACK_SIZE,
                count == x + 1 <= 16,
                i == old(self)@.index,
                i + count <= MEM_SIZE,
                self@ == (Machine { memory: self@.memory, ..old(self)@ }),
                forall|a: int|
                    0 <= a < MEM_SIZE ==> self@.memory[a] == if i <= a < i + r {
                        old(self)@.registers[a - i]
                    } else {
                        old(self)@.memory[a]
                    },
        {
            self.mem[i + r] = self.reg[r];
        }
        assert(self@ =~= old(self)@.dump_registers(x)->Ok_0);
        Ok(())
    }

    /// `FX65`.
    fn load_registers(&mut self, x: u8) -> (report: Result<(), Fault>)
        requires
            x < 16,
        ensures
            old(self)@.yields(old(self)@.load_registers(x), final(self)@, report),
    {
        proof {
            use_type_invariant(&*self);
        }
        let i = self.i_reg as usize;
        let count = x as usize + 1;
        if i + count > MEM_SIZE {
            return Err(Fault::MemoryOutOfBounds);
        }
        for r in 0..count
            invariant
                self.sp <= STACK_SIZE,
                count == x + 1 <= 16,
                i == old(self)@.index,
                i + count <= MEM_SIZE,
                self@ == (Machine { registers: self@.registers, ..old(self)@ }),
                forall|q: int|
                    0 <= q < REG_COUNT ==> self@.registers[q] == if q < r {
                        old(self)@.memory[i + q]
                    } else {
                        old(self)@.registers[q]
                    },
        {
            self.reg[r] = self.mem[i + r];
        }
        assert(self@ =~= old(self)@.load_registers(x)->Ok_0);
        Ok(())
    }

    /// What register `x` holds.
    fn register(&self, x: u8) -> (value: u8)
        requires
            x < 16,
        ensures
            value == self@.reg(x),
    {
        self.reg[x as usize]
    }

    /// Puts `value` into register `x`.
    fn set_register(&mut self, x: u8, value: u8)
        requires
            x < 16,
        ensures
            final(self)@ == old(self)@.with_reg(x, value),
    {
        proof {
            use_type_invariant(&*self);
        }
        self.reg[x as usize] = value;
    }

    /// Puts 1 or 0 into the flag register.
    fn set_flag(&mut self, set: bool)
        ensures
            final(self)@ == old(self)@.with_flag(set),
    {
        proof {
            use_type_invariant(&*self);
        }
        self.reg[FLAG] = if set {
            1
        } else {
            0
        };
    }

    /// Moves the program counter past one more instruction where `cond`
    /// holds.
    fn skip_if(&mut self, cond: bool)
        requires
            old(self)@.pc <= MEM_SIZE,
        ensures
            final(self)@ == old(self)@.skip_if(cond),
    {
        proof {
            use_type_invariant(&*self);
        }
        if cond {
            self.pc += 2;
        }
    }

    /// Sets the program counter.
    fn jump(&mut self, addr: u16)
        ensures
            final(self)@ == (Machine { pc: addr, ..old(self)@ }),
    {
        proof {
            use_type_invariant(&*self);
        }
        self.pc = addr;
    }

    /// Sets the index register.
    fn set_index(&mut self, addr: u16)
        ensures
            final(self)@ == (Machine { index: addr, ..old(self)@ }),
    {
        proof {
            use_type_invariant(&*self);
        }
        self.i_reg = addr;
    }

    /// `00E0`.
    fn clear_screen(&mut self)
        ensures
            final(self)@ == old(self)@.execute(Instruction::ClearScreen, 0)->Ok_0,
    {
        proof {
            use_type_invariant(&*self);
        }
        self.sc = [false;SCREEN_SIZE];
        assert(self@ =~= old(self)@.execute(Instruction::ClearScreen, 0)->Ok_0);
    }

    /// `00EE`.
    fn subroutine_return(&mut self) -> (report: Result<(), Fault>)
        ensures
            old(self)@.yields(old(self)@.execute(Instruction::Return, 0), final(self)@, report),
    {
        proof {
            use_type_invariant(&*self);
        }
        if self.sp == 0 {
            return Err(Fault::StackUnderflow);
        }
        self.sp -= 1;
        self.pc = self.stack[self.sp as usize];
        Ok(())
    }

    /// `2NNN`.
    fn subroutine_call(&mut self, addr: u16) -> (report: Result<(), Fault>)
        ensures
            old(self)@.yields(
                old(self)@.execute(Instruction::Call { addr }, 0),
                final(self)@,
                report,
            ),
    {
        proof {
            use_type_invariant(&*self);
        }
        if self.sp as usize >= STACK_SIZE {
            return Err(Fault::StackOverflow);
        }
        self.stack[self.sp as usize] = self.pc;
        self.sp += 1;
        self.pc = addr;
        Ok(())
    }

    /// `8XY6`.
    fn shift_right(&mut self, x: u8)
        requires
            x < 16,
        ensures
            final(self)@ == old(self)@.execute(Instruction::ShiftRight { x }, 0)->Ok_0,
    {
        let vx = self.register(x);
        assert(vx & 1 == vx % 2) by (bit_vector);
        self.set_flag(vx & 1 == 1);
        let flagged = self.register(x);
        assert(flagged >> 1 == flagged / 2) by (bit_vector);
        self.set_register(x, flagged >> 1);
    }

    /// `8XYE`.
    fn shift_left(&mut self, x: u8)
        requires
            x < 16,
        ensures
            final(self)@ == old(self)@.execute(Instruction::ShiftLeft { x }, 0)->Ok_0,
    {
        let vx = self.register(x);
        assert(((vx >> 7) & 1 == 1) == (vx >= 0x80)) by (bit_vector);
        self.set_flag((vx >> 7) & 1 == 1);
        let flagged = self.register(x);
        assert(flagged << 1 == (flagged * 2) % 0x100) by (bit_vector);
        self.set_register(x, flagged << 1);
    }

    /// `EX9E` and `EXA1`: skips if the key that register `x` names is
    /// pressed, or is not, as `pressed` says.
    fn skip_if_key(&mut self, x: u8, pressed: bool) -> (report: Result<(), Fault>)
        requires
            x < 16,
            old(self)@.pc <= MEM_SIZE,
        ensures
            old(self)@.yields(
                if pressed {
                    old(self)@.execute(Instruction::SkipIfKeyPressed { x }, 0)
                } else {
                    old(self)@.execute(Instruction::SkipIfKeyNotPressed { x }, 0)
                },
                final(self)@,
                report,
            ),
    {
        let key = self.register(x) as usize;
        if key >= KEY_COUNT {
            return Err(Fault::KeyOutOfRange);
        }
        self.skip_if(self.keys[key] == pressed);
        Ok(())
    }

    /// Carries out one decoded instruction, the program counter being
    /// past it already.
    fn execute(&mut self, ins: Instruction, random: u8) -> (report: Result<(), Fault>)
        requires
            ins.wf(),
            2 <= old(self)@.pc <= MEM_SIZE,
        ensures
            old(self)@.yields(old(self)@.execute(ins, random), final(self)@, report),
    {
        proof {
            use_type_invariant(&*self);
        }
        match ins {
            Instruction::ClearScreen => {
                self.clear_screen();
                Ok(())
            },
            Instruction::Return => self.subroutine_return(),
            Instruction::MachineRoutine { addr: _ } => Ok(()),
            Instruction::Jump { addr } => {
                self.jump(addr);
                Ok(())
            },
            Instruction::Call { addr } => self.subroutine_call(addr),
            Instruction::SkipIfEqual { x, nn } => {
                self.skip_if(self.register(x) == nn);
                Ok(())
            },
            Instruction::SkipIfNotEqual { x, nn } => {
                self.skip_if(self.register(x) != nn);
                Ok(())
            },
            Instruction::SkipIfRegistersEqual { x, y } => {
                self.skip_if(self.register(x) == self.register(y));
                Ok(())
            },
            Instruction::SetImmediate { x, nn } => {
                self.set_register(x, nn);
                Ok(())
            },
            Instruction::AddImmediate { x, nn } => {
                self.set_register(x, self.register(x).wrapping_add(nn));
                Ok(())
            },
            Instruction::Copy { x, y } => {
                self.set_register(x, self.register(y));
                Ok(())
            },
            Instruction::Or { x, y } => {
                self.set_register(x, self.register(x) | self.register(y));
                Ok(())
            },
            Instruction::And { x, y } => {
                self.set_register(x, self.register(x) & self.register(y));
                Ok(())
            },
            Instruction::Xor { x, y } => {
                self.set_register(x, self.register(x) ^ self.register(y));
                Ok(())
            },
            Instruction::AddWithCarry { x, y } => {
                let vx = self.register(x);
                let vy = self.register(y);
                self.set_register(x, vx.wrapping_add(vy));
                self.set_flag(vy > u8::MAX - vx);
                Ok(())
            },
            Instruction::Subtract { x, y } => {
                let vx = self.register(x);
                let vy = self.register(y);
                self.set_register(x, vx.wrapping_sub(vy));
                self.set_flag(vx >= vy);
                Ok(())
            },
            Instruction::ShiftRight { x } => {
                self.shift_right(x);
                Ok(())
            },
            Instruction::ReverseSubtract { x, y } => {
                let vx = self.register(x);
                let vy = self.register(y);
                self.set_register(x, vy.wrapping_sub(vx));
                self.set_flag(vy >= vx);
                Ok(())
            },
            Instruction::ShiftLeft { x } => {
                self.shift_left(x);
                Ok(())
            },
            Instruction::SkipIfRegistersNotEqual { x, y } => {
                self.skip_if(self.register(x) != self.register(y));
                Ok(())
            },
            Instruction::SetIndex { addr } => {
                self.set_index(addr);
                Ok(())
            },
            Instruction::JumpWithOffset { addr } => {
                self.jump(addr + self.register(0) as u16);
                Ok(())
            },
            Instruction::Random { x, nn } => {
                self.set_register(x, nn & random);
                Ok(())
            },
            Instruction::Draw { x, y, n } => self.draw(x, y, n),
            Instruction::SkipIfKeyPressed { x } => self.skip_if_key(x, true),
            Instruction::SkipIfKeyNotPressed { x } => self.skip_if_key(x, false),
            Instruction::ReadDelayTimer { x } => {
                self.set_register(x, self.d_timer);
                Ok(())
            },
            Instruction::WaitForKey { x } => {
                self.wait_for_key(x);
                Ok(())
            },
            Instruction::SetDelayTimer { x } => {
                self.d_timer = self.register(x);
                Ok(())
            },
            Instruction::SetSoundTimer { x } => {
                self.s_timer = self.register(x);
                Ok(())
            },
            Instruction::AddToIndex { x } => {
                self.set_index(self.i_reg.wrapping_add(self.register(x) as u16));
                Ok(())
            },
            Instruction::SelectGlyph { x } => {
                self.set_index(self.register(x) as u16 * GLYPH_SIZE);
                Ok(())
            },
            Instruction::StoreDecimal { x } => self.store_decimal(x),
            Instruction::DumpRegisters { x } => self.dump_registers(x),
            Instruction::LoadRegisters { x } => self.load_registers(x),
        }
    }

    /// Reads the instruction word at the program counter and decodes it.
    fn fetch(&self) -> (fetched: Result<Instruction, Fault>)
        ensures
            fetched == self@.fetch(),
            fetched matches Ok(ins) ==> ins.wf(),
    {
        let pc = self.pc as usize;
        if pc + 1 >= MEM_SIZE {
            return Err(Fault::PcOutOfBounds { address: self.pc });
        }
        let high = self.mem[pc] as u16;
        let low = self.mem[pc + 1] as u16;
        let op = high << 8 | low;
        proof {
            assert(high < 0x100 && low < 0x100 ==> high << 8 | low == high * 0x100 + low)
                by (bit_vector);
        }
        match decode(op) {
            Some(ins) => Ok(ins),
            None => Err(Fault::UnknownOpcode { opcode: op, address: self.pc }),
        }
    }

    /// Moves the program counter past the instruction just fetched and
    /// carries the instruction out. On a fault the program counter goes
    /// back.
    fn run(&mut self, ins: Instruction, random: u8) -> (report: Result<(), Fault>)
        requires
            ins.wf(),
            old(self)@.can_fetch(),
        ensures
            old(self)@.yields(
                old(self)@.advance().execute(ins, random),
                final(self)@,
                report,
            ),
            final(self)@.wf(),
    {
        proof {
            use_type_invariant(&*self);
        }
        let pc = self.pc;
        self.pc = pc + 2;
        let report = self.execute(ins, random);
        if report.is_err() {
            self.pc = pc;
            assert(self@ =~= old(self)@);
        }
        proof {
            use_type_invariant(&*self);
        }
        report
    }

    /// One step of the machine, with `random` as the byte that `CXNN`
    /// draws: fetches the instruction at the program counter, decodes it
    /// and carries it out. A step that faults changes nothing.
    pub fn exec_with(&mut self, random: u8) -> (report: Result<(), Fault>)
        ensures
            old(self)@.steps_to(random, final(self)@, report),
            final(self)@.wf(),
    {
        proof {
            use_type_invariant(&*self);
        }
        match self.fetch() {
            Ok(ins) => self.run(ins, random),
            Err(fault) => Err(fault),
        }
    }

    /// One step of the machine. `CXNN` draws its byte from the thread's
    /// random number generator, so of such a step the outcome is known
    /// only up to that byte; every other step is determined.
    pub fn exec(&mut self) -> (report: Result<(), Fault>)
        ensures
            exists|random: u8| #[trigger] old(self)@.steps_to(random, final(self)@, report),
            !old(self)@.draws_random() ==> forall|random: u8| #[trigger]
                old(self)@.steps_to(random, final(self)@, report),
            final(self)@.wf(),
    {
        proof {
            use_type_invariant(&*self);
        }
        match self.fetch() {
            Ok(ins) => {
                let random = match ins {
                    Instruction::Random { .. } => random_byte(),
                    _ => 0,
                };
                let report = self.run(ins, random);
                assert(old(self)@.steps_to(random, self@, report));
                report
            },
            Err(fault) => {
                assert(old(self)@.steps_to(0, self@, Err(fault)));
                Err(fault)
            },
        }
    }
}

} // verus!
