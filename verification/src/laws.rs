use crate::instruction::Instruction;
use crate::machine::{cell_index, wrap8, Machine, FLAG, SCREEN_SIZE};
use vstd::prelude::*;

verus! {

/// Nothing takes the machine out of shape: the initial machine is well
/// formed, and from a well-formed machine so is what a load, a key press
/// on one of the sixteen keys, a tick of the timers or a successful step
/// makes. So the stack pointer never goes beyond the sixteen slots.
pub proof fn lemma_well_formed_throughout(
    m: Machine,
    data: Seq<u8>,
    idx: int,
    pressed: bool,
    random: u8,
)
    requires
        m.wf(),
        0 <= idx < 16,
    ensures
        Machine::initial().wf(),
        m.load(data).wf(),
        m.key_press(idx, pressed).wf(),
        m.tick().wf(),
        m.step(random) matches Ok(next) ==> next.wf(),
{
}

/// A sprite pixel lands on exactly one display cell, with both coordinates
/// wrapped round the edges of the display: pixel (`row`, `col`) of a
/// sprite at (`vx`, `vy`) falls on the cell of column `vx + col` and row
/// `vy + row`, and from that cell the pixel is found again.
pub proof fn lemma_sprite_pixel_cell(vx: u8, vy: u8, row: int, col: int)
    requires
        0 <= row < 32,
        0 <= col < 64,
    ensures
        0 <= cell_index(vx + col, vy + row) < SCREEN_SIZE,
        Machine::sprite_col(vx, cell_index(vx + col, vy + row)) == col,
        Machine::sprite_row(vy, cell_index(vx + col, vy + row)) == row,
{
}

/// No two display cells hold the same pixel of a sprite.
pub proof fn lemma_sprite_cell_unique(vx: u8, vy: u8, p: int, q: int)
    requires
        0 <= p < SCREEN_SIZE,
        0 <= q < SCREEN_SIZE,
        Machine::sprite_col(vx, p) == Machine::sprite_col(vx, q),
        Machine::sprite_row(vy, p) == Machine::sprite_row(vy, q),
    ensures
        p == q,
{
}

/// Drawing wraps and never clips: where `DXYN` succeeds, every pixel
/// (`row`, `col`) of the sprite acts on the cell at column
/// `(VX + col) mod 64` and row `(VY + row) mod 32`, which is toggled if
/// the pixel is lit and kept if it is not. Cells that no sprite pixel
/// falls on are kept. The index register and memory stay as they were.
pub proof fn lemma_draw_wraps(m: Machine, x: u8, y: u8, n: u8, random: u8)
    requires
        m.wf(),
        x < 16,
        y < 16,
        n < 16,
    ensures
        m.execute(Instruction::Draw { x, y, n }, random) matches Ok(next) ==> {
            &&& next.wf()
            &&& next.index == m.index
            &&& next.memory == m.memory
            &&& forall|row: int, col: int|
                0 <= row < n && 0 <= col < 8 ==> #[trigger] next.display[cell_index(
                    m.reg(x) + col,
                    m.reg(y) + row,
                )] == (m.display[cell_index(m.reg(x) + col, m.reg(y) + row)] != m.sprite_pixel(
                    row,
                    col,
                ))
            &&& forall|p: int|
                0 <= p < SCREEN_SIZE && !(Machine::sprite_col(m.reg(x), p) < 8
                    && Machine::sprite_row(m.reg(y), p) < n) ==> next.display[p] == m.display[p]
        },
{
    if m.execute(Instruction::Draw { x, y, n }, random) is Ok {
        assert forall|row: int, col: int| 0 <= row < n && 0 <= col < 8 implies m.drawn(
            m.reg(x),
            m.reg(y),
            n,
        )[cell_index(m.reg(x) + col, m.reg(y) + row)] == (m.display[cell_index(
            m.reg(x) + col,
            m.reg(y) + row,
        )] != m.sprite_pixel(row, col)) by {
            lemma_sprite_pixel_cell(m.reg(x), m.reg(y), row, col);
        }
    }
}

/// Drawing a sprite twice at the same place puts the display back: where
/// `DXYN` succeeds and neither coordinate register is the flag register
/// (which the first draw overwrites), the same `DXYN` on what it made
/// succeeds too and leaves the display as it was before the first.
pub proof fn lemma_draw_twice_restores(m: Machine, x: u8, y: u8, n: u8, r1: u8, r2: u8)
    requires
        m.wf(),
        x < 16,
        y < 16,
        n < 16,
        x != FLAG,
        y != FLAG,
    ensures
        m.execute(Instruction::Draw { x, y, n }, r1) matches Ok(once) ==> (once.execute(
            Instruction::Draw { x, y, n },
            r2,
        ) matches Ok(twice) && twice.display == m.display),
{
    if let Ok(once) = m.execute(Instruction::Draw { x, y, n }, r1) {
        let vx = m.reg(x);
        let vy = m.reg(y);
        assert(once.reg(x) == vx && once.reg(y) == vy);
        assert forall|p: int| 0 <= p < SCREEN_SIZE implies once.sprite_covers(vx, vy, n, p)
            == m.sprite_covers(vx, vy, n, p) by {}
        let twice = once.execute(Instruction::Draw { x, y, n }, r2)->Ok_0;
        assert(twice.display =~= m.display);
    }
}

/// On a blank display a sprite with a lit pixel collides with nothing the
/// first time it is drawn and with itself the second time: the first
/// `DXYN` leaves 0 in the flag register, the second 1. Neither coordinate
/// register may be the flag register.
pub proof fn lemma_draw_twice_collides(m: Machine, x: u8, y: u8, n: u8, r1: u8, r2: u8)
    requires
        m.wf(),
        x < 16,
        y < 16,
        n < 16,
        x != FLAG,
        y != FLAG,
        forall|p: int| 0 <= p < SCREEN_SIZE ==> !m.display[p],
        m.sprite_has_lit_pixel(n),
    ensures
        m.execute(Instruction::Draw { x, y, n }, r1) matches Ok(once) ==> {
            &&& once.registers[FLAG as int] == 0
            &&& once.execute(Instruction::Draw { x, y, n }, r2) matches Ok(twice)
            &&& twice.registers[FLAG as int] == 1
            &&& twice.display == m.display
        },
{
    if let Ok(once) = m.execute(Instruction::Draw { x, y, n }, r1) {
        let vx = m.reg(x);
        let vy = m.reg(y);
        lemma_draw_twice_restores(m, x, y, n, r1, r2);
        assert(!m.collides(vx, vy, n));
        assert(once.reg(x) == vx && once.reg(y) == vy);
        let (row, col) = choose|row: int, col: int|
            0 <= row < n && 0 <= col < 8 && m.sprite_pixel(row, col);
        let p = cell_index(vx + col, vy + row);
        lemma_sprite_pixel_cell(vx, vy, row, col);
        assert(m.sprite_covers(vx, vy, n, p));
        assert(once.display[p] && once.sprite_covers(vx, vy, n, p));
        assert(once.collides(vx, vy, n));
    }
}

/// `7XNN` adds modulo 256 and reports no carry: register X ends as
/// `(VX + NN) mod 256`, every other register keeps its value (the flag
/// register among them unless X names it), and but for the program
/// counter, which moves on by 2, nothing else changes.
pub proof fn lemma_add_immediate(m: Machine, x: u8, nn: u8, random: u8)
    requires
        m.wf(),
        m.fetch() == Ok::<Instruction, crate::fault::Fault>(Instruction::AddImmediate { x, nn }),
    ensures
        m.step(random) matches Ok(next) && {
            &&& next.wf()
            &&& next.reg(x) == (m.reg(x) + nn) % 256
            &&& forall|r: int| 0 <= r < 16 && r != x ==> next.registers[r] == m.registers[r]
            &&& next == (Machine { pc: (m.pc + 2) as u16, registers: next.registers, ..m })
        },
{
    let next = m.step(random)->Ok_0;
    assert(next == m.advance().with_reg(x, wrap8(m.reg(x) + nn)));
    assert(next =~= (Machine { pc: (m.pc + 2) as u16, registers: next.registers, ..m }));
}

/// Registers dumped with `FX55` come back with `FX65`: where the dump
/// succeeds, a load by any later machine that has the same index register
/// and still holds the dumped bytes succeeds and gives registers 0 to X
/// the values they had at the dump. Registers above X keep what the later
/// machine has in them.
pub proof fn lemma_dump_load_round_trip(m: Machine, later: Machine, x: u8, r1: u8, r2: u8)
    requires
        m.wf(),
        later.wf(),
        x < 16,
        later.index == m.index,
        m.execute(Instruction::DumpRegisters { x }, r1) matches Ok(dumped) ==> forall|a: int|
            m.index <= a <= m.index + x ==> later.memory[a] == dumped.memory[a],
    ensures
        m.execute(Instruction::DumpRegisters { x }, r1) matches Ok(dumped) ==> {
            &&& dumped.registers == m.registers
            &&& later.execute(Instruction::LoadRegisters { x }, r2) matches Ok(loaded)
            &&& forall|r: int| 0 <= r <= x ==> loaded.registers[r] == m.registers[r]
            &&& forall|r: int| x < r < 16 ==> loaded.registers[r] == later.registers[r]
        },
{
}

/// `FX0A` with no key pressed makes no progress: however many steps are
/// taken, the machine stays exactly as it is, program counter and
/// registers included.
pub proof fn lemma_wait_for_key_holds(m: Machine, x: u8, randoms: Seq<u8>)
    requires
        m.wf(),
        m.fetch() == Ok::<Instruction, crate::fault::Fault>(Instruction::WaitForKey { x }),
        !m.any_key_pressed(),
    ensures
        m.run(randoms) == Ok::<Machine, crate::fault::Fault>(m),
    decreases randoms.len(),
{
    if randoms.len() > 0 {
        assert(m.advance().wait_for_key(x) =~= m);
        lemma_wait_for_key_holds(m, x, randoms.skip(1));
    }
}

/// `FX0A` with a key pressed takes the pressed key of lowest number: the
/// step puts `k` into register X and moves the program counter on by 2,
/// and changes nothing else.
pub proof fn lemma_wait_for_key_captures(m: Machine, x: u8, k: int, random: u8)
    requires
        m.wf(),
        m.fetch() == Ok::<Instruction, crate::fault::Fault>(Instruction::WaitForKey { x }),
        m.is_first_pressed(k),
    ensures
        m.step(random) == Ok::<Machine, crate::fault::Fault>(m.advance().with_reg(x, k as u8)),
{
    let a = m.advance();
    assert(a.is_first_pressed(k));
    assert(a.any_key_pressed());
    let f = a.first_pressed();
    assert(a.is_first_pressed(f));
    assert(f == k);
}

/// Only `CXNN` reads the random byte: a step from a machine whose next
/// instruction is any other has the same outcome whatever byte it is
/// given.
pub proof fn lemma_random_only_for_cxnn(m: Machine, r1: u8, r2: u8)
    requires
        !m.draws_random(),
    ensures
        m.step(r1) == m.step(r2),
{
}

} // verus!
