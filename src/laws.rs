//! Properties of the instruction set that hold for every machine state.
use vstd::prelude::*;
use crate::decode::{decode_spec, Instruction};
use crate::semantics::{
    add_vx_vy, addr, drw_vx_vy_n, execute_spec, fetch_spec, lemma_offset, shl_vx, shr_vx, step_spec,
    sprite_covers, sub_vx_vy, update_key_spec, Chip8Error, KeyWait, Machine,
};

verus! {

/// `8xy4` leaves `(Vx + Vy) mod 256` in `Vx`, and in `VF` a 1 exactly when the sum exceeds 255
/// and a 0 otherwise. (With `x` = 15 the flag overwrites the sum.)
pub proof fn law_add_carry(m: Machine, ins: Instruction)
    requires
        m.wf(),
        ins.wf(),
        ins.x != 15,
    ensures
        ({
            let (a, b) = (m.vx(ins), m.vy(ins));
            let next = add_vx_vy(m, ins);
            &&& next.registers[ins.x as int] == (a + b) % 256
            &&& next.registers[15] == 1 <==> a + b > 255
            &&& next.registers[15] == 0 <==> a + b <= 255
        }),
{
}

/// `8xy5` leaves `(Vx - Vy) mod 256` in `Vx`, and in `VF` a 1 exactly when `Vx >= Vy` and a 0
/// exactly when `Vx < Vy`. (With `x` = 15 the flag overwrites the difference.)
pub proof fn law_sub_borrow(m: Machine, ins: Instruction)
    requires
        m.wf(),
        ins.wf(),
        ins.x != 15,
    ensures
        ({
            let (a, b) = (m.vx(ins), m.vy(ins));
            let next = sub_vx_vy(m, ins);
            &&& next.registers[ins.x as int] == (a - b) % 256
            &&& next.registers[15] == 1 <==> a >= b
            &&& next.registers[15] == 0 <==> a < b
        }),
{
}

/// `8xy6` leaves `Vx / 2` (rounded down) in `Vx` and bit 0 of the old `Vx` in `VF`; `8xyE`
/// leaves `(Vx * 2) mod 256` in `Vx` and bit 7 of the old `Vx` in `VF`. (With `x` = 15 the flag
/// overwrites the shifted value.)
pub proof fn law_shifts(m: Machine, ins: Instruction)
    requires
        m.wf(),
        ins.wf(),
        ins.x != 15,
    ensures
        ({
            let a = m.vx(ins);
            let right = shr_vx(m, ins);
            let left = shl_vx(m, ins);
            &&& right.registers[ins.x as int] == a / 2
            &&& right.registers[15] == a & 1
            &&& left.registers[ins.x as int] == (a * 2) % 256
            &&& left.registers[15] == (a >> 7u8) & 1
        }),
{
    let a = m.vx(ins);
    assert(a % 2 == a & 1 && a / 128 == (a >> 7u8) & 1) by (bit_vector);
}

/// The opcode is a key-wait, `Fx0A`.
pub open spec fn is_key_wait(opcode: u16) -> bool {
    decode_spec(opcode).family() == 0xF && decode_spec(opcode).nn == 0x0A
}

/// No key is held.
pub open spec fn no_key_down(m: Machine) -> bool {
    forall|k: int| 0 <= k < 16 ==> !#[trigger] m.keypad[k]
}

/// `steps` consecutive steps, stopping at the first failure.
pub open spec fn run(m: Machine, steps: nat, random: u8) -> Result<Machine, Chip8Error>
    decreases steps,
{
    if steps == 0 {
        Ok(m)
    } else {
        match step_spec(m, random) {
            Ok(next) => run(next, (steps - 1) as nat, random),
            Err(e) => Err(e),
        }
    }
}

/// While no key is held, a step on `Fx0A` keeps the program counter on the instruction and
/// changes nothing but the wait state; so any number of steps leaves the machine there.
pub proof fn law_key_wait_stalls(m: Machine, steps: nat, random: u8)
    requires
        m.wf(),
        m.pc < 4096,
        is_key_wait(fetch_spec(m)),
        no_key_down(m),
        steps >= 1,
    ensures
        run(m, steps, random) == Ok::<Machine, Chip8Error>(
            Machine { key_wait: KeyWait::WaitingForKey, ..m },
        ),
    decreases steps,
{
    let waiting = Machine { key_wait: KeyWait::WaitingForKey, ..m };
    lemma_key_wait_step(m, random);
    assert(run(m, steps, random) == run(waiting, (steps - 1) as nat, random));
    if steps > 1 {
        assert(fetch_spec(waiting) == fetch_spec(m));
        law_key_wait_stalls(waiting, (steps - 1) as nat, random);
        assert((Machine { key_wait: KeyWait::WaitingForKey, ..waiting }) == waiting);
    }
}

/// One step of a key-wait with no key held.
proof fn lemma_key_wait_step(m: Machine, random: u8)
    requires
        m.wf(),
        m.pc < 4096,
        is_key_wait(fetch_spec(m)),
        no_key_down(m),
    ensures
        step_spec(m, random) == Ok::<Machine, Chip8Error>(
            Machine { key_wait: KeyWait::WaitingForKey, ..m },
        ),
{
    reveal(execute_spec);
    lemma_no_key_first_pressed(m.keypad, 0);
    let ins = decode_spec(fetch_spec(m));
    let advanced = m.with_pc((m.pc + 2) as u16);
    assert(addr(m.pc as int) == m.pc);
    assert(crate::semantics::wrap16(advanced.pc - 2) == m.pc);
    assert(execute_spec(advanced, ins, random) == crate::semantics::misc_spec(advanced, ins));
}

/// With no key held the search for the lowest held key finds none.
proof fn lemma_no_key_first_pressed(keys: Seq<bool>, from: int)
    requires
        keys.len() == 16,
        0 <= from <= 16,
        forall|k: int| 0 <= k < 16 ==> !#[trigger] keys[k],
    ensures
        crate::semantics::first_pressed(keys, from) == 16,
    decreases 16 - from,
{
    if from < 16 {
        lemma_no_key_first_pressed(keys, from + 1);
    }
}

/// Pressing a key while `Fx0A` waits with no key held completes the wait on the next step:
/// `Vx` takes that key and the program counter moves past the instruction.
pub proof fn law_key_wait_completes(m: Machine, key: int, random: u8)
    requires
        m.wf(),
        m.pc < 4096,
        is_key_wait(fetch_spec(m)),
        no_key_down(m),
        0 <= key < 16,
    ensures
        ({
            let ins = decode_spec(fetch_spec(m));
            let r = step_spec(update_key_spec(m, key, true), random);
            &&& r is Ok
            &&& r->Ok_0.registers[ins.x as int] == key
            &&& r->Ok_0.pc == m.pc + 2
            &&& r->Ok_0.key_wait == KeyWait::Idle
            &&& !r->Ok_0.key_latch
        }),
{
    reveal(execute_spec);
    let pressed = update_key_spec(m, key, true);
    assert forall|k: int| 0 <= k < 16 && k != key implies !#[trigger] pressed.keypad[k] by {
        assert(!m.keypad[k]);
    }
    lemma_first_pressed_only(pressed.keypad, key, 0);
    assert(pressed.key_latch) by {
        assert(!m.keypad[key]);
    }
    let ins = decode_spec(fetch_spec(m));
    let advanced = pressed.with_pc((m.pc + 2) as u16);
    assert(fetch_spec(pressed) == fetch_spec(m));
    assert(addr(m.pc as int) == m.pc);
    assert(step_spec(pressed, random) == execute_spec(advanced, ins, random));
    assert(execute_spec(advanced, ins, random) == crate::semantics::misc_spec(advanced, ins));
    assert(crate::semantics::misc_spec(advanced, ins) == Ok::<Machine, Chip8Error>(
        crate::semantics::ld_vx_k(advanced, ins),
    ));
}

/// When `key` is the only held key, it is the lowest held one.
proof fn lemma_first_pressed_only(keys: Seq<bool>, key: int, from: int)
    requires
        keys.len() == 16,
        0 <= from <= key < 16,
        keys[key],
        forall|k: int| 0 <= k < 16 && k != key ==> !#[trigger] keys[k],
    ensures
        crate::semantics::first_pressed(keys, from) == key,
    decreases key - from,
{
    if from < key {
        lemma_first_pressed_only(keys, key, from + 1);
    }
}

/// Storing `V0`..=`Vx` at `I` with `Fx55` and then loading `V0`..=`Vx` from the same `I` with
/// `Fx65` gives back every register unchanged.
pub proof fn law_store_load_round_trip(m: Machine, store: Instruction, load: Instruction, random: u8)
    requires
        m.wf(),
        store.wf(),
        load.wf(),
        store.family() == 0xF,
        store.nn == 0x55,
        load.family() == 0xF,
        load.nn == 0x65,
        store.x == load.x,
    ensures
        ({
            let stored = execute_spec(m, store, random);
            &&& stored is Ok
            &&& execute_spec(stored->Ok_0, load, random) is Ok
            &&& execute_spec(stored->Ok_0, load, random)->Ok_0.registers == m.registers
        }),
{
    reveal(execute_spec);
    let stored = execute_spec(m, store, random)->Ok_0;
    let loaded = execute_spec(stored, load, random)->Ok_0;
    assert forall|k: int| 0 <= k <= load.x implies #[trigger] loaded.registers[k]
        == m.registers[k] by {
        let a = addr(m.index + k);
        lemma_offset(m.index as int, k, a);
    }
    assert(loaded.registers =~= m.registers);
}

/// A step reads the opcode at the program counter taken modulo the memory size, so a program
/// counter at or past the end of memory wraps instead of failing: stepping from `pc` and from
/// `pc mod 4096` gives the same result, and at the last byte of memory the opcode continues at
/// the first byte.
pub proof fn law_fetch_wraps(m: Machine, random: u8)
    requires
        m.wf(),
    ensures
        step_spec(m, random) == step_spec(m.with_pc(addr(m.pc as int) as u16), random),
        addr(m.pc as int) == 4095 ==> fetch_spec(m) == m.memory[4095] * 256 + m.memory[0],
{
    let wrapped = m.with_pc(addr(m.pc as int) as u16);
    assert(addr(wrapped.pc as int) == addr(m.pc as int));
    assert(fetch_spec(wrapped) == fetch_spec(m));
}

/// Drawing the same sprite twice at the same place restores the screen; on a blank screen
/// the second draw reports a collision exactly when the sprite lights some pixel. (With `x` or
/// `y` = 15 the first draw's flag moves the second sprite.)
pub proof fn law_draw_twice_restores(m: Machine, ins: Instruction)
    requires
        m.wf(),
        ins.wf(),
        ins.x != 15,
        ins.y != 15,
    ensures
        ({
            let once = drw_vx_vy_n(m, ins);
            let twice = drw_vx_vy_n(once, ins);
            let (x0, y0) = (m.vx(ins) as int % 64, m.vy(ins) as int % 32);
            &&& twice.display == m.display
            &&& (forall|p: int| 0 <= p < 2048 ==> !#[trigger] m.display[p]) ==> (twice.registers[15]
                == 1 <==> exists|p: int|
                0 <= p < 2048 && #[trigger] sprite_covers(m.memory, m.index, ins.n, x0, y0, p))
        }),
{
    let once = drw_vx_vy_n(m, ins);
    let twice = drw_vx_vy_n(once, ins);
    let (x0, y0) = (m.vx(ins) as int % 64, m.vy(ins) as int % 32);
    assert(once.vx(ins) == m.vx(ins) && once.vy(ins) == m.vy(ins));
    assert(twice.display =~= m.display);
    if forall|p: int| 0 <= p < 2048 ==> !#[trigger] m.display[p] {
        if exists|p: int| 0 <= p < 2048 && #[trigger] sprite_covers(m.memory, m.index, ins.n, x0, y0, p) {
            let w = choose|p: int|
                0 <= p < 2048 && #[trigger] sprite_covers(m.memory, m.index, ins.n, x0, y0, p);
            assert(once.display[w]);
        }
    }
}

} // verus!
