//! The VM core: registers, stack, timers, memory and display, the semantics of
//! every instruction over a model of the machine, and the cycle that fetches,
//! decodes and executes one instruction.

use vstd::prelude::*;
use rand::rngs::StdRng;
use rand::{Rng, SeedableRng};
use crate::bitwise::{get_address, get_byte, get_nibble, get_x, get_y};
use crate::error::Chip8Error;
use crate::frontend::{Keys, KEY_COUNT};
use crate::hex::lsh3;
use crate::memory::{
    collides, drawn, initial_memory, overwrite, DisplayBuffer, Ram, DISPLAY_SIZE, FONT_BASE,
    GLYPH_SIZE, MEMORY_SIZE, PROGRAM_START,
};

verus! {

/// rand's `StdRng`, which the machine holds as its source of random bytes.
#[verifier::external_type_specification]
#[verifier::external_body]
pub struct ExStdRng(StdRng);

/// Relies on rand's `SeedableRng::seed_from_u64` for `StdRng`: a generator
/// built from a 64-bit seed, so that runs can be repeated.
#[verifier::external_body]
fn seeded_rng(seed: u64) -> StdRng {
    StdRng::seed_from_u64(seed)
}

/// Relies on rand's `Rng::gen::<u8>`: the next byte drawn from the generator.
/// Any byte may come back.
#[verifier::external_body]
fn random_byte(rng: &mut StdRng) -> u8 {
    rng.gen::<u8>()
}

/// Number of general registers V0 to VF.
pub const REGISTER_COUNT: usize = 16;

/// Index of VF, the flag register.
pub const FLAG_REGISTER: usize = 15;

/// Number of stack slots.
pub const STACK_SIZE: usize = 16;

/// Microseconds between two decrements of the timers (60 Hz).
pub const TIMER_PERIOD_US: u64 = 16667;

/// Target duration of one cycle in microseconds (about 700 Hz).
pub const CYCLE_PERIOD_US: u64 = 1429;

/// Whether the machine executes instructions or waits for a key press whose
/// key number goes to the register it names.
#[derive(Clone, Copy, Debug, PartialEq, Eq, Structural)]
pub enum VmState {
    Running,
    AwaitingKey(usize),
}

/// The machine as a mathematical value.
pub struct VmModel {
    pub ram: Seq<u8>,
    pub display: Seq<u8>,
    pub draw_flag: bool,
    pub jump_flag: bool,
    pub v: Seq<u8>,
    pub dt: u8,
    pub st: u8,
    pub i: u16,
    pub pc: u16,
    pub sp: usize,
    pub stack: Seq<u16>,
    pub state: VmState,
    pub last_tick_us: u64,
}

/// Register index `x` of an opcode.
pub open spec fn x_of(op: u16) -> int {
    (op / 256 % 16) as int
}

/// Register index `y` of an opcode.
pub open spec fn y_of(op: u16) -> int {
    (op / 16 % 16) as int
}

/// Low byte `kk` of an opcode.
pub open spec fn kk_of(op: u16) -> u8 {
    (op % 256) as u8
}

/// Address `nnn` of an opcode.
pub open spec fn nnn_of(op: u16) -> u16 {
    (op % 4096) as u16
}

/// Low nibble `n` of an opcode.
pub open spec fn n_of(op: u16) -> int {
    (op % 16) as int
}

/// 1 for true, 0 for false.
pub open spec fn flag(b: bool) -> u8 {
    if b {
        1u8
    } else {
        0u8
    }
}

/// Whether key `k` is down in `keys`; there is no key past the sixteenth.
pub open spec fn key_down(keys: Seq<bool>, k: u8) -> bool {
    k < KEY_COUNT && keys[k as int]
}

impl VmModel {
    pub open spec fn wf(self) -> bool {
        &&& self.ram.len() == MEMORY_SIZE
        &&& self.display.len() == DISPLAY_SIZE
        &&& forall|p: int| 0 <= p < self.display.len() ==> #[trigger] self.display[p] <= 1
        &&& self.v.len() == REGISTER_COUNT
        &&& self.stack.len() == STACK_SIZE
        &&& self.sp <= STACK_SIZE
        &&& self.state matches VmState::AwaitingKey(x) ==> x < REGISTER_COUNT
    }

    /// This machine with register `x` set to `val`.
    pub open spec fn set_v(self, x: int, val: u8) -> VmModel {
        VmModel { v: self.v.update(x, val), ..self }
    }

    /// This machine with the next instruction skipped when `c` holds.
    pub open spec fn skip_if(self, c: bool) -> VmModel {
        if c {
            VmModel { pc: (self.pc + 2) as u16, ..self }
        } else {
            self
        }
    }
}

/// The machine as built: font in memory, blank display, zero registers, empty
/// stack, execution starting at the program origin.
pub open spec fn initial_model() -> VmModel {
    VmModel {
        ram: initial_memory(),
        display: Seq::new(DISPLAY_SIZE as nat, |p: int| 0u8),
        draw_flag: false,
        jump_flag: false,
        v: Seq::new(REGISTER_COUNT as nat, |k: int| 0u8),
        dt: 0,
        st: 0,
        i: 0,
        pc: PROGRAM_START as u16,
        sp: 0,
        stack: Seq::new(STACK_SIZE as nat, |k: int| 0u16),
        state: VmState::Running,
        last_tick_us: 0,
    }
}

/// `00E0`: every pixel off; the display is to be redrawn.
pub open spec fn clear_spec(s: VmModel) -> VmModel {
    VmModel { display: Seq::new(DISPLAY_SIZE as nat, |p: int| 0u8), draw_flag: true, ..s }
}

/// `00EE`: return to the address on top of the stack, freeing its slot.
pub open spec fn ret_spec(s: VmModel) -> Result<VmModel, Chip8Error> {
    if s.sp == 0 {
        Err(Chip8Error::StackUnderflow)
    } else {
        Ok(
            VmModel {
                sp: (s.sp - 1) as usize,
                pc: s.stack[s.sp - 1],
                stack: s.stack.update(s.sp - 1, 0u16),
                jump_flag: true,
                ..s
            },
        )
    }
}

/// `1nnn`: jump to `nnn`.
pub open spec fn jump_spec(s: VmModel, op: u16) -> VmModel {
    VmModel { pc: nnn_of(op), jump_flag: true, ..s }
}

/// `Bnnn`: jump to `nnn + V0`.
pub open spec fn jump_0_spec(s: VmModel, op: u16) -> VmModel {
    VmModel { pc: (nnn_of(op) + s.v[0]) as u16, jump_flag: true, ..s }
}

/// `2nnn`: push the current address and jump to `nnn`.
pub open spec fn call_spec(s: VmModel, op: u16) -> Result<VmModel, Chip8Error> {
    if s.sp >= STACK_SIZE {
        Err(Chip8Error::StackOverflow)
    } else {
        Ok(
            VmModel {
                stack: s.stack.update(s.sp as int, s.pc),
                sp: (s.sp + 1) as usize,
                pc: nnn_of(op),
                jump_flag: true,
                ..s
            },
        )
    }
}

/// `3xkk`: skip when `Vx == kk`.
pub open spec fn skip_b_eq_spec(s: VmModel, op: u16) -> VmModel {
    s.skip_if(s.v[x_of(op)] == kk_of(op))
}

/// `4xkk`: skip when `Vx != kk`.
pub open spec fn skip_b_ne_spec(s: VmModel, op: u16) -> VmModel {
    s.skip_if(s.v[x_of(op)] != kk_of(op))
}

/// `5xy0`: skip when `Vx == Vy`.
pub open spec fn skip_y_eq_spec(s: VmModel, op: u16) -> VmModel {
    s.skip_if(s.v[x_of(op)] == s.v[y_of(op)])
}

/// `9xy0`: skip when `Vx != Vy`.
pub open spec fn skip_y_ne_spec(s: VmModel, op: u16) -> VmModel {
    s.skip_if(s.v[x_of(op)] != s.v[y_of(op)])
}

/// `Ex9E`: skip when the key numbered `Vx` is down.
pub open spec fn skip_key_spec(s: VmModel, op: u16, keys: Seq<bool>) -> VmModel {
    s.skip_if(key_down(keys, s.v[x_of(op)]))
}

/// `ExA1`: skip when the key numbered `Vx` is up.
pub open spec fn skip_not_key_spec(s: VmModel, op: u16, keys: Seq<bool>) -> VmModel {
    s.skip_if(!key_down(keys, s.v[x_of(op)]))
}

/// `6xkk`: `Vx = kk`.
pub open spec fn put_x_b_spec(s: VmModel, op: u16) -> VmModel {
    s.set_v(x_of(op), kk_of(op))
}

/// `8xy0`: `Vx = Vy`.
pub open spec fn put_x_y_spec(s: VmModel, op: u16) -> VmModel {
    s.set_v(x_of(op), s.v[y_of(op)])
}

/// `Annn`: `I = nnn`.
pub open spec fn put_i_addr_spec(s: VmModel, op: u16) -> VmModel {
    VmModel { i: nnn_of(op), ..s }
}

/// `Fx07`: `Vx = DT`.
pub open spec fn put_x_dt_spec(s: VmModel, op: u16) -> VmModel {
    s.set_v(x_of(op), s.dt)
}

/// `Fx15`: `DT = Vx`.
pub open spec fn put_dt_x_spec(s: VmModel, op: u16) -> VmModel {
    VmModel { dt: s.v[x_of(op)], ..s }
}

/// `Fx18`: `ST = Vx`.
pub open spec fn put_st_x_spec(s: VmModel, op: u16) -> VmModel {
    VmModel { st: s.v[x_of(op)], ..s }
}

/// `7xkk`: `Vx = Vx + kk` modulo 256; VF untouched.
pub open spec fn add_x_b_spec(s: VmModel, op: u16) -> VmModel {
    s.set_v(x_of(op), ((s.v[x_of(op)] + kk_of(op)) % 256) as u8)
}

/// `8xy4`: VF = carry of `Vx + Vy`, then `Vx` = the sum modulo 256, both from
/// the operands as they were before the instruction.
pub open spec fn add_x_y_spec(s: VmModel, op: u16) -> VmModel {
    let vx = s.v[x_of(op)];
    let vy = s.v[y_of(op)];
    s.set_v(FLAG_REGISTER as int, flag(vx + vy > 255)).set_v(x_of(op), ((vx + vy) % 256) as u8)
}

/// `Fx1E`: `I = I + Vx` modulo 2^16, no flag.
pub open spec fn add_i_x_spec(s: VmModel, op: u16) -> VmModel {
    VmModel { i: ((s.i + s.v[x_of(op)]) % 0x10000) as u16, ..s }
}

/// `8xy1`: `Vx = Vx | Vy`.
pub open spec fn or_spec(s: VmModel, op: u16) -> VmModel {
    s.set_v(x_of(op), s.v[x_of(op)] | s.v[y_of(op)])
}

/// `8xy2`: `Vx = Vx & Vy`.
pub open spec fn and_spec(s: VmModel, op: u16) -> VmModel {
    s.set_v(x_of(op), s.v[x_of(op)] & s.v[y_of(op)])
}

/// `8xy3`: `Vx = Vx ^ Vy`.
pub open spec fn xor_spec(s: VmModel, op: u16) -> VmModel {
    s.set_v(x_of(op), s.v[x_of(op)] ^ s.v[y_of(op)])
}

/// `8xy5`: VF = no borrow (`Vx > Vy`), then `Vx = Vx - Vy` modulo 256.
pub open spec fn sub_spec(s: VmModel, op: u16) -> VmModel {
    let vx = s.v[x_of(op)];
    let vy = s.v[y_of(op)];
    s.set_v(FLAG_REGISTER as int, flag(vx > vy)).set_v(x_of(op), ((vx - vy) % 256) as u8)
}

/// `8xy7`: VF = no borrow (`Vy > Vx`), then `Vx = Vy - Vx` modulo 256.
pub open spec fn subn_spec(s: VmModel, op: u16) -> VmModel {
    let vx = s.v[x_of(op)];
    let vy = s.v[y_of(op)];
    s.set_v(FLAG_REGISTER as int, flag(vy > vx)).set_v(x_of(op), ((vy - vx) % 256) as u8)
}

/// `8xy6`: VF = the low bit of `Vx`, then `Vx` shifted right by one.
pub open spec fn shr_spec(s: VmModel, op: u16) -> VmModel {
    let vx = s.v[x_of(op)];
    s.set_v(FLAG_REGISTER as int, (vx % 2) as u8).set_v(x_of(op), (vx / 2) as u8)
}

/// `8xyE`: VF = the high bit of `Vx`, then `Vx` shifted left by one, modulo 256.
pub open spec fn shl_spec(s: VmModel, op: u16) -> VmModel {
    let vx = s.v[x_of(op)];
    s.set_v(FLAG_REGISTER as int, (vx / 128) as u8).set_v(x_of(op), ((vx * 2) % 256) as u8)
}

/// `Cxkk`: `Vx = rnd & kk`, where `rnd` is the byte drawn for it.
pub open spec fn rand_spec(s: VmModel, op: u16, rnd: u8) -> VmModel {
    s.set_v(x_of(op), rnd & kk_of(op))
}

/// `Dxyn`: XOR-draw the `n` bytes at `I` at `(Vx, Vy)`; VF = collision; the
/// display is to be redrawn. Fails when the bytes pass the end of memory.
pub open spec fn draw_spec(s: VmModel, op: u16) -> Result<VmModel, Chip8Error> {
    if s.i + n_of(op) > MEMORY_SIZE {
        Err(Chip8Error::OutOfBounds)
    } else {
        let sprite = s.ram.subrange(s.i as int, s.i + n_of(op));
        let vx = s.v[x_of(op)];
        let vy = s.v[y_of(op)];
        Ok(
            VmModel {
                display: drawn(s.display, vx, vy, sprite),
                v: s.v.update(FLAG_REGISTER as int, flag(collides(s.display, vx, vy, sprite))),
                draw_flag: true,
                ..s
            },
        )
    }
}

/// `Fx29`: `I` = address of the font glyph for digit `Vx`.
pub open spec fn sprite_addr_spec(s: VmModel, op: u16) -> VmModel {
    VmModel { i: (FONT_BASE + GLYPH_SIZE * s.v[x_of(op)]) as u16, ..s }
}

/// `Fx33`: the hundreds, tens and ones digits of `Vx` at `I`, `I+1`, `I+2`.
/// Fails when they pass the end of memory.
pub open spec fn bcd_spec(s: VmModel, op: u16) -> Result<VmModel, Chip8Error> {
    let vx = s.v[x_of(op)];
    if s.i + 3 > MEMORY_SIZE {
        Err(Chip8Error::OutOfBounds)
    } else {
        Ok(
            VmModel {
                ram: overwrite(
                    s.ram,
                    s.i as int,
                    seq![(vx / 100) as u8, (vx / 10 % 10) as u8, (vx % 10) as u8],
                ),
                ..s
            },
        )
    }
}

/// `Fx55`: `V0` to `Vx` written to memory from `I` on. Fails past the end.
pub open spec fn store_spec(s: VmModel, op: u16) -> Result<VmModel, Chip8Error> {
    if s.i + x_of(op) + 1 > MEMORY_SIZE {
        Err(Chip8Error::OutOfBounds)
    } else {
        Ok(VmModel { ram: overwrite(s.ram, s.i as int, s.v.subrange(0, x_of(op) + 1)), ..s })
    }
}

/// `Fx65`: `V0` to `Vx` read from memory from `I` on. Fails past the end.
pub open spec fn read_spec(s: VmModel, op: u16) -> Result<VmModel, Chip8Error> {
    if s.i + x_of(op) + 1 > MEMORY_SIZE {
        Err(Chip8Error::OutOfBounds)
    } else {
        Ok(
            VmModel {
                v: s.ram.subrange(s.i as int, s.i + x_of(op) + 1) + s.v.subrange(
                    x_of(op) + 1,
                    REGISTER_COUNT as int,
                ),
                ..s
            },
        )
    }
}

/// `Fx0A`: wait for a key press, whose key number goes to `Vx`.
pub open spec fn wait_for_keypress_spec(s: VmModel, op: u16) -> VmModel {
    VmModel { state: VmState::AwaitingKey(x_of(op) as usize), ..s }
}

/// The effect of instruction `op` on `s`, with `keys` the state of the keys
/// and `rnd` the byte drawn for `Cxkk`; `UnknownOpcode` where `op` matches no
/// instruction. The top nibble picks the group; groups 0, 8, E and F pick the
/// instruction by the low byte or the low nibble.
pub open spec fn execute_spec(s: VmModel, op: u16, keys: Seq<bool>, rnd: u8) -> Result<
    VmModel,
    Chip8Error,
> {
    let unknown = Err(Chip8Error::UnknownOpcode(op));
    let top = op / 4096;
    let low = op % 256;
    let n = op % 16;
    if top == 0x0 {
        if low == 0xE0 {
            Ok(clear_spec(s))
        } else if low == 0xEE {
            ret_spec(s)
        } else {
            unknown
        }
    } else if top == 0x1 {
        Ok(jump_spec(s, op))
    } else if top == 0x2 {
        call_spec(s, op)
    } else if top == 0x3 {
        Ok(skip_b_eq_spec(s, op))
    } else if top == 0x4 {
        Ok(skip_b_ne_spec(s, op))
    } else if top == 0x5 {
        Ok(skip_y_eq_spec(s, op))
    } else if top == 0x6 {
        Ok(put_x_b_spec(s, op))
    } else if top == 0x7 {
        Ok(add_x_b_spec(s, op))
    } else if top == 0x8 {
        if n == 0x0 {
            Ok(put_x_y_spec(s, op))
        } else if n == 0x1 {
            Ok(or_spec(s, op))
        } else if n == 0x2 {
            Ok(and_spec(s, op))
        } else if n == 0x3 {
            Ok(xor_spec(s, op))
        } else if n == 0x4 {
            Ok(add_x_y_spec(s, op))
        } else if n == 0x5 {
            Ok(sub_spec(s, op))
        } else if n == 0x6 {
            Ok(shr_spec(s, op))
        } else if n == 0x7 {
            Ok(subn_spec(s, op))
        } else if n == 0xE {
            Ok(shl_spec(s, op))
        } else {
            unknown
        }
    } else if top == 0x9 {
        Ok(skip_y_ne_spec(s, op))
    } else if top == 0xA {
        Ok(put_i_addr_spec(s, op))
    } else if top == 0xB {
        Ok(jump_0_spec(s, op))
    } else if top == 0xC {
        Ok(rand_spec(s, op, rnd))
    } else if top == 0xD {
        draw_spec(s, op)
    } else if top == 0xE {
        if low == 0x9E {
            Ok(skip_key_spec(s, op, keys))
        } else if low == 0xA1 {
            Ok(skip_not_key_spec(s, op, keys))
        } else {
            unknown
        }
    } else {
        if low == 0x07 {
            Ok(put_x_dt_spec(s, op))
        } else if low == 0x0A {
            Ok(wait_for_keypress_spec(s, op))
        } else if low == 0x15 {
            Ok(put_dt_x_spec(s, op))
        } else if low == 0x18 {
            Ok(put_st_x_spec(s, op))
        } else if low == 0x1E {
            Ok(add_i_x_spec(s, op))
        } else if low == 0x29 {
            Ok(sprite_addr_spec(s, op))
        } else if low == 0x33 {
            bcd_spec(s, op)
        } else if low == 0x55 {
            store_spec(s, op)
        } else if low == 0x65 {
            read_spec(s, op)
        } else {
            unknown
        }
    }
}

/// The big-endian word at `pc`, or `OutOfBounds` where `pc + 1` is past the
/// end of memory.
pub open spec fn fetch_spec(s: VmModel) -> Result<u16, Chip8Error> {
    if s.pc + 1 >= MEMORY_SIZE {
        Err(Chip8Error::OutOfBounds)
    } else {
        Ok((s.ram[s.pc as int] * 256 + s.ram[s.pc + 1]) as u16)
    }
}

/// `s` with the redraw and jump flags lowered, as at the start of a cycle.
pub open spec fn flags_cleared(s: VmModel) -> VmModel {
    VmModel { draw_flag: false, jump_flag: false, ..s }
}

/// After an instruction that did not jump, the program counter moves to the
/// next instruction.
pub open spec fn advance_spec(s: VmModel) -> VmModel {
    if s.jump_flag {
        s
    } else {
        VmModel { pc: (s.pc + 2) as u16, ..s }
    }
}

/// When at least `TIMER_PERIOD_US` have passed since the last tick, both
/// timers go down by one (not below zero) and `now_us` becomes the last tick.
pub open spec fn tick_spec(s: VmModel, now_us: u64) -> VmModel {
    if now_us >= s.last_tick_us + TIMER_PERIOD_US {
        VmModel {
            dt: if s.dt > 0 {
                (s.dt - 1) as u8
            } else {
                0u8
            },
            st: if s.st > 0 {
                (s.st - 1) as u8
            } else {
                0u8
            },
            last_tick_us: now_us,
            ..s
        }
    } else {
        s
    }
}

/// One cycle at time `now_us`: nothing while a key press is awaited;
/// otherwise fetch, lower the flags, execute, advance unless the instruction
/// jumped, then let the timers tick.
pub open spec fn cycle_spec(s: VmModel, keys: Seq<bool>, rnd: u8, now_us: u64) -> Result<
    VmModel,
    Chip8Error,
> {
    if s.state != VmState::Running {
        Ok(s)
    } else {
        match fetch_spec(s) {
            Err(e) => Err(e),
            Ok(op) => match execute_spec(flags_cleared(s), op, keys, rnd) {
                Err(e) => Err(e),
                Ok(s1) => Ok(tick_spec(advance_spec(s1), now_us)),
            },
        }
    }
}

/// A key press while one is awaited: its key number goes to the awaited
/// register and the machine runs again. Anything else changes nothing.
pub open spec fn press_key_spec(s: VmModel, key: u8) -> VmModel {
    match s.state {
        VmState::AwaitingKey(x) => if key < KEY_COUNT {
            VmModel { v: s.v.update(x as int, key), state: VmState::Running, ..s }
        } else {
            s
        },
        VmState::Running => s,
    }
}

/// An instruction's result `r` and the machine `after` it are those that
/// `expected` gives for the machine `before`; on failure nothing changed.
pub open spec fn agrees(
    expected: Result<VmModel, Chip8Error>,
    r: Result<(), Chip8Error>,
    before: VmModel,
    after: VmModel,
) -> bool {
    match expected {
        Ok(s) => r == Ok::<(), Chip8Error>(()) && after == s,
        Err(e) => r == Err::<(), Chip8Error>(e) && after == before,
    }
}

/// A cycle's result `r` and the machine `after` it are those that `expected`
/// gives; on failure only the flags were lowered.
pub open spec fn cycle_agrees(
    expected: Result<VmModel, Chip8Error>,
    r: Result<(), Chip8Error>,
    before: VmModel,
    after: VmModel,
) -> bool {
    match expected {
        Ok(s) => r == Ok::<(), Chip8Error>(()) && after == s,
        Err(e) => r == Err::<(), Chip8Error>(e) && after == flags_cleared(before),
    }
}

/// The CHIP-8 machine. Its fields are open for inspection; `wf` states what
/// every operation relies on and keeps.
pub struct Chip8Vm {
    pub ram: Ram,
    pub display_data: DisplayBuffer,
    pub draw_flag: bool,
    pub jump_flag: bool,
    pub v: [u8; 16],
    pub dt: u8,
    pub st: u8,
    pub i: u16,
    pub pc: u16,
    pub sp: usize,
    pub stack: [u16; 16],
    pub state: VmState,
    pub last_tick_us: u64,
    pub rng: StdRng,
}

impl View for Chip8Vm {
    type V = VmModel;

    open spec fn view(&self) -> VmModel {
        VmModel {
            ram: self.ram@,
            display: self.display_data@,
            draw_flag: self.draw_flag,
            jump_flag: self.jump_flag,
            v: self.v@,
            dt: self.dt,
            st: self.st,
            i: self.i,
            pc: self.pc,
            sp: self.sp,
            stack: self.stack@,
            state: self.state,
            last_tick_us: self.last_tick_us,
        }
    }
}

impl Chip8Vm {
    pub open spec fn wf(&self) -> bool {
        self@.wf()
    }

    /// A machine whose random bytes come from a generator seeded with `seed`.
    pub fn new(seed: u64) -> (r: Chip8Vm)
        ensures
            r.wf(),
            r@ == initial_model(),
    {
        Chip8Vm::from_rng(seeded_rng(seed))
    }

    /// A machine whose random bytes come from `rng`.
    pub fn from_rng(rng: StdRng) -> (r: Chip8Vm)
        ensures
            r.wf(),
            r@ == initial_model(),
    {
        let r = Chip8Vm {
            ram: Ram::new(),
            display_data: DisplayBuffer::new(),
            draw_flag: false,
            jump_flag: false,
            v: [0u8; 16],
            dt: 0,
            st: 0,
            i: 0,
            pc: PROGRAM_START as u16,
            sp: 0,
            stack: [0u16; 16],
            state: VmState::Running,
            last_tick_us: 0,
            rng,
        };
        assert(r.v@ =~= Seq::new(REGISTER_COUNT as nat, |k: int| 0u8));
        assert(r.stack@ =~= Seq::new(STACK_SIZE as nat, |k: int| 0u16));
        r
    }

    /// Loads a program image at `PROGRAM_START`; `ProgramTooLarge`, with
    /// nothing changed, where it does not fit in memory.
    pub fn load_game(&mut self, program: &[u8]) -> (r: Result<(), Chip8Error>)
        requires
            old(self).wf(),
        ensures
            final(self).wf(),
            program@.len() > MEMORY_SIZE - PROGRAM_START ==> r == Err::<(), Chip8Error>(
                Chip8Error::ProgramTooLarge,
            ) && final(self)@ == old(self)@,
            program@.len() <= MEMORY_SIZE - PROGRAM_START ==> r == Ok::<(), Chip8Error>(())
                && final(self)@ == (VmModel {
                ram: overwrite(old(self)@.ram, PROGRAM_START as int, program@),
                ..old(self)@
            }),
    {
        if program.len() > MEMORY_SIZE - PROGRAM_START {
            return Err(Chip8Error::ProgramTooLarge);
        }
        let w = self.ram.write_range(PROGRAM_START, program);
        assert(w is Ok);
        Ok(())
    }

    /// `00E0`.
    pub fn clear(&mut self, _op: u16)
        requires
            old(self).wf(),
        ensures
            final(self).wf(),
            final(self)@ == clear_spec(old(self)@),
    {
        self.display_data.clear();
        self.draw_flag = true;
    }

    /// `00EE`; `StackUnderflow` on an empty stack.
    pub fn ret(&mut self, _op: u16) -> (r: Result<(), Chip8Error>)
        requires
            old(self).wf(),
        ensures
            final(self).wf(),
            agrees(ret_spec(old(self)@), r, old(self)@, final(self)@),
    {
        if self.sp == 0 {
            return Err(Chip8Error::StackUnderflow);
        }
        self.jump_flag = true;
        self.sp = self.sp - 1;
        self.pc = self.stack[self.sp];
        self.stack[self.sp] = 0;
        Ok(())
    }

    /// `1nnn`.
    pub fn jump(&mut self, op: u16)
        requires
            old(self).wf(),
        ensures
            final(self).wf(),
            final(self)@ == jump_spec(old(self)@, op),
    {
        self.jump_flag = true;
        self.pc = get_address(op);
    }

    /// `Bnnn`.
    pub fn jump_0(&mut self, op: u16)
        requires
            old(self).wf(),
        ensures
            final(self).wf(),
            final(self)@ == jump_0_spec(old(self)@, op),
    {
        self.jump_flag = true;
        self.pc = get_address(op) + self.v[0] as u16;
    }

    /// `2nnn`; `StackOverflow` when all stack slots are in use.
    pub fn call(&mut self, op: u16) -> (r: Result<(), Chip8Error>)
        requires
            old(self).wf(),
        ensures
            final(self).wf(),
            agrees(call_spec(old(self)@, op), r, old(self)@, final(self)@),
    {
        if self.sp >= STACK_SIZE {
            return Err(Chip8Error::StackOverflow);
        }
        self.jump_flag = true;
        self.stack[self.sp] = self.pc;
        self.pc = get_address(op);
        self.sp = self.sp + 1;
        Ok(())
    }

    fn skip_next(&mut self)
        ensures
            final(self).wf() == old(self).wf(),
            final(self)@ == old(self)@.skip_if(true),
    {
        self.pc = (self.pc as u32 + 2) as u16;
    }

    /// `3xkk`.
    pub fn skip_b_eq(&mut self, op: u16)
        requires
            old(self).wf(),
        ensures
            final(self).wf(),
            final(self)@ == skip_b_eq_spec(old(self)@, op),
    {
        if self.v[get_x(op)] == get_byte(op) {
            self.skip_next();
        }
    }

    /// `4xkk`.
    pub fn skip_b_ne(&mut self, op: u16)
        requires
            old(self).wf(),
        ensures
            final(self).wf(),
            final(self)@ == skip_b_ne_spec(old(self)@, op),
    {
        if self.v[get_x(op)] != get_byte(op) {
            self.skip_next();
        }
    }

    /// `5xy0`.
    pub fn skip_y_eq(&mut self, op: u16)
        requires
            old(self).wf(),
        ensures
            final(self).wf(),
            final(self)@ == skip_y_eq_spec(old(self)@, op),
    {
        if self.v[get_x(op)] == self.v[get_y(op)] {
            self.skip_next();
        }
    }

    /// `9xy0`.
    pub fn skip_y_ne(&mut self, op: u16)
        requires
            old(self).wf(),
        ensures
            final(self).wf(),
            final(self)@ == skip_y_ne_spec(old(self)@, op),
    {
        if self.v[get_x(op)] != self.v[get_y(op)] {
            self.skip_next();
        }
    }

    /// Whether the key numbered `k` is down in `keys`.
    fn key_pressed(keys: &Keys, k: u8) -> (r: bool)
        ensures
            r == key_down(keys@, k),
    {
        (k as usize) < KEY_COUNT && keys.is_down(k as usize)
    }

    /// `Ex9E`, with `keys` the state of the keys.
    pub fn skip_key(&mut self, op: u16, keys: &Keys)
        requires
            old(self).wf(),
        ensures
            final(self).wf(),
            final(self)@ == skip_key_spec(old(self)@, op, keys@),
    {
        if Self::key_pressed(keys, self.v[get_x(op)]) {
            self.skip_next();
        }
    }

    /// `ExA1`, with `keys` the state of the keys.
    pub fn skip_not_key(&mut self, op: u16, keys: &Keys)
        requires
            old(self).wf(),
        ensures
            final(self).wf(),
            final(self)@ == skip_not_key_spec(old(self)@, op, keys@),
    {
        if !Self::key_pressed(keys, self.v[get_x(op)]) {
            self.skip_next();
        }
    }

    /// `6xkk`.
    pub fn put_x_b(&mut self, op: u16)
        requires
            old(self).wf(),
        ensures
            final(self).wf(),
            final(self)@ == put_x_b_spec(old(self)@, op),
    {
        self.v[get_x(op)] = get_byte(op);
    }

    /// `8xy0`.
    pub fn put_x_y(&mut self, op: u16)
        requires
            old(self).wf(),
        ensures
            final(self).wf(),
            final(self)@ == put_x_y_spec(old(self)@, op),
    {
        self.v[get_x(op)] = self.v[get_y(op)];
    }

    /// `Annn`.
    pub fn put_i_addr(&mut self, op: u16)
        requires
            old(self).wf(),
        ensures
            final(self).wf(),
            final(self)@ == put_i_addr_spec(old(self)@, op),
    {
        self.i = get_address(op);
    }

    /// `Fx07`.
    pub fn put_x_dt(&mut self, op: u16)
        requires
            old(self).wf(),
        ensures
            final(self).wf(),
            final(self)@ == put_x_dt_spec(old(self)@, op),
    {
        self.v[get_x(op)] = self.dt;
    }

    /// `Fx15`.
    pub fn put_dt_x(&mut self, op: u16)
        requires
            old(self).wf(),
        ensures
            final(self).wf(),
            final(self)@ == put_dt_x_spec(old(self)@, op),
    {
        self.dt = self.v[get_x(op)];
    }

    /// `Fx18`.
    pub fn put_st_x(&mut self, op: u16)
        requires
            old(self).wf(),
        ensures
            final(self).wf(),
            final(self)@ == put_st_x_spec(old(self)@, op),
    {
        self.st = self.v[get_x(op)];
    }

    /// `7xkk`.
    pub fn add_x_b(&mut self, op: u16)
        requires
            old(self).wf(),
        ensures
            final(self).wf(),
            final(self)@ == add_x_b_spec(old(self)@, op),
    {
        let x = get_x(op);
        self.v[x] = ((self.v[x] as u16 + get_byte(op) as u16) % 256) as u8;
    }

    /// `8xy4`.
    pub fn add_x_y(&mut self, op: u16)
        requires
            old(self).wf(),
        ensures
            final(self).wf(),
            final(self)@ == add_x_y_spec(old(self)@, op),
    {
        let x = get_x(op);
        let sum: u16 = self.v[x] as u16 + self.v[get_y(op)] as u16;
        self.v[FLAG_REGISTER] = if sum > 255 {
            1
        } else {
            0
        };
        self.v[x] = (sum % 256) as u8;
    }

    /// `Fx1E`.
    pub fn add_i_x(&mut self, op: u16)
        requires
            old(self).wf(),
        ensures
            final(self).wf(),
            final(self)@ == add_i_x_spec(old(self)@, op),
    {
        self.i = ((self.i as u32 + self.v[get_x(op)] as u32) % 0x10000) as u16;
    }

    /// `8xy1`.
    pub fn or(&mut self, op: u16)
        requires
            old(self).wf(),
        ensures
            final(self).wf(),
            final(self)@ == or_spec(old(self)@, op),
    {
        let x = get_x(op);
        self.v[x] = self.v[x] | self.v[get_y(op)];
    }

    /// `8xy2`.
    pub fn and(&mut self, op: u16)
        requires
            old(self).wf(),
        ensures
            final(self).wf(),
            final(self)@ == and_spec(old(self)@, op),
    {
        let x = get_x(op);
        self.v[x] = self.v[x] & self.v[get_y(op)];
    }

    /// `8xy3`.
    pub fn xor(&mut self, op: u16)
        requires
            old(self).wf(),
        ensures
            final(self).wf(),
            final(self)@ == xor_spec(old(self)@, op),
    {
        let x = get_x(op);
        self.v[x] = self.v[x] ^ self.v[get_y(op)];
    }

    /// `8xy5`.
    pub fn sub(&mut self, op: u16)
        requires
            old(self).wf(),
        ensures
            final(self).wf(),
            final(self)@ == sub_spec(old(self)@, op),
    {
        let x = get_x(op);
        let vx = self.v[x];
        let vy = self.v[get_y(op)];
        self.v[FLAG_REGISTER] = if vx > vy {
            1
        } else {
            0
        };
        let d: u16 = (256 + vx as u16 - vy as u16) % 256;
        assert((256 + vx - vy) % 256 == (vx - vy) % 256);
        self.v[x] = d as u8;
    }

    /// `8xy7`.
    pub fn subn(&mut self, op: u16)
        requires
            old(self).wf(),
        ensures
            final(self).wf(),
            final(self)@ == subn_spec(old(self)@, op),
    {
        let x = get_x(op);
        let vx = self.v[x];
        let vy = self.v[get_y(op)];
        self.v[FLAG_REGISTER] = if vy > vx {
            1
        } else {
            0
        };
        let d: u16 = (256 + vy as u16 - vx as u16) % 256;
        assert((256 + vy - vx) % 256 == (vy - vx) % 256);
        self.v[x] = d as u8;
    }

    /// `8xy6`.
    pub fn shr(&mut self, op: u16)
        requires
            old(self).wf(),
        ensures
            final(self).wf(),
            final(self)@ == shr_spec(old(self)@, op),
    {
        let x = get_x(op);
        let vx = self.v[x];
        self.v[FLAG_REGISTER] = vx % 2;
        self.v[x] = vx / 2;
    }

    /// `8xyE`.
    pub fn shl(&mut self, op: u16)
        requires
            old(self).wf(),
        ensures
            final(self).wf(),
            final(self)@ == shl_spec(old(self)@, op),
    {
        let x = get_x(op);
        let vx = self.v[x];
        self.v[FLAG_REGISTER] = vx / 128;
        self.v[x] = ((vx as u16 * 2) % 256) as u8;
    }

    /// `Cxkk`, with `rnd` the byte drawn for it.
    pub fn rand_with(&mut self, op: u16, rnd: u8)
        requires
            old(self).wf(),
        ensures
            final(self).wf(),
            final(self)@ == rand_spec(old(self)@, op, rnd),
    {
        self.v[get_x(op)] = rnd & get_byte(op);
    }

    /// `Cxkk`, drawing the byte from the machine's generator: `Vx` ends up
    /// with no bit outside `kk`, whatever was drawn.
    pub fn rand(&mut self, op: u16)
        requires
            old(self).wf(),
        ensures
            final(self).wf(),
            exists|b: u8| final(self)@ == #[trigger] rand_spec(old(self)@, op, b),
    {
        let b = random_byte(&mut self.rng);
        self.rand_with(op, b);
    }

    /// `Dxyn`; `OutOfBounds` where the sprite's bytes pass the end of memory.
    pub fn draw(&mut self, op: u16) -> (r: Result<(), Chip8Error>)
        requires
            old(self).wf(),
        ensures
            final(self).wf(),
            agrees(draw_spec(old(self)@, op), r, old(self)@, final(self)@),
    {
        let length = get_nibble(op) as usize;
        let addr = self.i as usize;
        if addr + length > MEMORY_SIZE {
            return Err(Chip8Error::OutOfBounds);
        }
        let sprite = match self.ram.read_range(addr, length) {
            Ok(bytes) => bytes,
            Err(e) => {
                return Err(e);
            },
        };
        let collision = self.display_data.draw_sprite(
            self.v[get_x(op)],
            self.v[get_y(op)],
            sprite.as_slice(),
        );
        self.v[FLAG_REGISTER] = if collision {
            1
        } else {
            0
        };
        self.draw_flag = true;
        Ok(())
    }

    /// `Fx29`.
    pub fn sprite_addr(&mut self, op: u16)
        requires
            old(self).wf(),
        ensures
            final(self).wf(),
            final(self)@ == sprite_addr_spec(old(self)@, op),
    {
        self.i = FONT_BASE as u16 + GLYPH_SIZE as u16 * self.v[get_x(op)] as u16;
    }

    /// `Fx33`; `OutOfBounds` where the three digits pass the end of memory.
    pub fn bcd(&mut self, op: u16) -> (r: Result<(), Chip8Error>)
        requires
            old(self).wf(),
        ensures
            final(self).wf(),
            agrees(bcd_spec(old(self)@, op), r, old(self)@, final(self)@),
    {
        let addr = self.i as usize;
        if addr + 3 > MEMORY_SIZE {
            return Err(Chip8Error::OutOfBounds);
        }
        let vx = self.v[get_x(op)];
        let digits: Vec<u8> = vec![vx / 100, vx / 10 % 10, vx % 10];
        assert(digits@ =~= seq![(vx / 100) as u8, (vx / 10 % 10) as u8, (vx % 10) as u8]);
        let w = self.ram.write_range(addr, digits.as_slice());
        assert(w is Ok);
        Ok(())
    }

    /// `Fx55`; `OutOfBounds` where the registers would pass the end of memory.
    pub fn store(&mut self, op: u16) -> (r: Result<(), Chip8Error>)
        requires
            old(self).wf(),
        ensures
            final(self).wf(),
            agrees(store_spec(old(self)@, op), r, old(self)@, final(self)@),
    {
        let x = get_x(op);
        let addr = self.i as usize;
        if addr + x + 1 > MEMORY_SIZE {
            return Err(Chip8Error::OutOfBounds);
        }
        let mut regs: Vec<u8> = Vec::new();
        let mut count: usize = 0;
        while count <= x
            invariant
                x < REGISTER_COUNT,
                count <= x + 1,
                self.v@.len() == REGISTER_COUNT,
                regs@ == self.v@.subrange(0, count as int),
            decreases x + 1 - count,
        {
            regs.push(self.v[count]);
            count += 1;
            assert(regs@ =~= self.v@.subrange(0, count as int));
        }
        let w = self.ram.write_range(addr, regs.as_slice());
        assert(w is Ok);
        Ok(())
    }

    /// `Fx65`; `OutOfBounds` where the bytes to read pass the end of memory.
    pub fn read(&mut self, op: u16) -> (r: Result<(), Chip8Error>)
        requires
            old(self).wf(),
        ensures
            final(self).wf(),
            agrees(read_spec(old(self)@, op), r, old(self)@, final(self)@),
    {
        let x = get_x(op);
        let addr = self.i as usize;
        if addr + x + 1 > MEMORY_SIZE {
            return Err(Chip8Error::OutOfBounds);
        }
        let bytes = match self.ram.read_range(addr, x + 1) {
            Ok(b) => b,
            Err(e) => {
                return Err(e);
            },
        };
        let ghost v0 = self.v@;
        let mut regs: [u8; 16] = self.v;
        let mut count: usize = 0;
        while count <= x
            invariant
                x < REGISTER_COUNT,
                count <= x + 1,
                bytes@.len() == x + 1,
                v0.len() == REGISTER_COUNT,
                regs@ == bytes@.subrange(0, count as int) + v0.subrange(
                    count as int,
                    REGISTER_COUNT as int,
                ),
            decreases x + 1 - count,
        {
            regs[count] = bytes[count];
            count += 1;
            assert(regs@ =~= bytes@.subrange(0, count as int) + v0.subrange(
                count as int,
                REGISTER_COUNT as int,
            ));
        }
        self.v = regs;
        assert(bytes@.subrange(0, x + 1) =~= bytes@);
        Ok(())
    }

    /// `Fx0A`: the machine now awaits a key press for `Vx`; see `press_key`.
    pub fn wait_for_keypress(&mut self, op: u16)
        requires
            old(self).wf(),
        ensures
            final(self).wf(),
            final(self)@ == wait_for_keypress_spec(old(self)@, op),
    {
        self.state = VmState::AwaitingKey(get_x(op));
    }

    /// Hands the machine the key press it awaits: key numbers 0 to 15 go to
    /// the awaited register and the machine runs again; anything else, or a
    /// press while running, changes nothing.
    pub fn press_key(&mut self, key: u8)
        requires
            old(self).wf(),
        ensures
            final(self).wf(),
            final(self)@ == press_key_spec(old(self)@, key),
    {
        if let VmState::AwaitingKey(x) = self.state {
            if (key as usize) < KEY_COUNT {
                self.v[x] = key;
                self.state = VmState::Running;
            }
        }
    }
}

impl Chip8Vm {
    /// Executes instruction `op`, with `keys` the state of the keys and `rnd`
    /// the byte for `Cxkk`; `UnknownOpcode` where `op` matches no instruction.
    pub fn execute(&mut self, op: u16, keys: &Keys, rnd: u8) -> (r: Result<(), Chip8Error>)
        requires
            old(self).wf(),
        ensures
            final(self).wf(),
            agrees(execute_spec(old(self)@, op, keys@, rnd), r, old(self)@, final(self)@),
    {
        let unknown = Err(Chip8Error::UnknownOpcode(op));
        let low = get_byte(op);
        match lsh3(op) {
            0x0 => match low {
                0xE0 => {
                    self.clear(op);
                    Ok(())
                },
                0xEE => self.ret(op),
                _ => unknown,
            },
            0x1 => {
                self.jump(op);
                Ok(())
            },
            0x2 => self.call(op),
            0x3 => {
                self.skip_b_eq(op);
                Ok(())
            },
            0x4 => {
                self.skip_b_ne(op);
                Ok(())
            },
            0x5 => {
                self.skip_y_eq(op);
                Ok(())
            },
            0x6 => {
                self.put_x_b(op);
                Ok(())
            },
            0x7 => {
                self.add_x_b(op);
                Ok(())
            },
            0x8 => match get_nibble(op) {
                0x0 => {
                    self.put_x_y(op);
                    Ok(())
                },
                0x1 => {
                    self.or(op);
                    Ok(())
                },
                0x2 => {
                    self.and(op);
                    Ok(())
                },
                0x3 => {
                    self.xor(op);
                    Ok(())
                },
                0x4 => {
                    self.add_x_y(op);
                    Ok(())
                },
                0x5 => {
                    self.sub(op);
                    Ok(())
                },
                0x6 => {
                    self.shr(op);
                    Ok(())
                },
                0x7 => {
                    self.subn(op);
                    Ok(())
                },
                0xE => {
                    self.shl(op);
                    Ok(())
                },
                _ => unknown,
            },
            0x9 => {
                self.skip_y_ne(op);
                Ok(())
            },
            0xA => {
                self.put_i_addr(op);
                Ok(())
            },
            0xB => {
                self.jump_0(op);
                Ok(())
            },
            0xC => {
                self.rand_with(op, rnd);
                Ok(())
            },
            0xD => self.draw(op),
            0xE => match low {
                0x9E => {
                    self.skip_key(op, keys);
                    Ok(())
                },
                0xA1 => {
                    self.skip_not_key(op, keys);
                    Ok(())
                },
                _ => unknown,
            },
            _ => match low {
                0x07 => {
                    self.put_x_dt(op);
                    Ok(())
                },
                0x0A => {
                    self.wait_for_keypress(op);
                    Ok(())
                },
                0x15 => {
                    self.put_dt_x(op);
                    Ok(())
                },
                0x18 => {
                    self.put_st_x(op);
                    Ok(())
                },
                0x1E => {
                    self.add_i_x(op);
                    Ok(())
                },
                0x29 => {
                    self.sprite_addr(op);
                    Ok(())
                },
                0x33 => self.bcd(op),
                0x55 => self.store(op),
                0x65 => self.read(op),
                _ => unknown,
            },
        }
    }

    /// The big-endian word at the program counter; `OutOfBounds` where its
    /// second byte is past the end of memory.
    pub fn fetch(&self) -> (r: Result<u16, Chip8Error>)
        requires
            self.wf(),
        ensures
            r == fetch_spec(self@),
    {
        let pc = self.pc as usize;
        if pc + 1 >= MEMORY_SIZE {
            return Err(Chip8Error::OutOfBounds);
        }
        let hi = match self.ram.read(pc) {
            Ok(b) => b,
            Err(e) => {
                return Err(e);
            },
        };
        let lo = match self.ram.read(pc + 1) {
            Ok(b) => b,
            Err(e) => {
                return Err(e);
            },
        };
        Ok(hi as u16 * 256 + lo as u16)
    }

    /// Decrements both timers (not below zero) when `TIMER_PERIOD_US` have
    /// passed since the last tick at `now_us`.
    pub fn tick(&mut self, now_us: u64)
        requires
            old(self).wf(),
        ensures
            final(self).wf(),
            final(self)@ == tick_spec(old(self)@, now_us),
    {
        if now_us >= self.last_tick_us && now_us - self.last_tick_us >= TIMER_PERIOD_US {
            if self.dt > 0 {
                self.dt = self.dt - 1;
            }
            if self.st > 0 {
                self.st = self.st - 1;
            }
            self.last_tick_us = now_us;
        }
    }

    /// One cycle at time `now_us` (microseconds on a clock that never goes
    /// back), with `keys` the state of the keys and `rnd` the byte for `Cxkk`.
    /// While a key press is awaited nothing happens.
    pub fn execute_cycle_with(&mut self, keys: &Keys, rnd: u8, now_us: u64) -> (r: Result<
        (),
        Chip8Error,
    >)
        requires
            old(self).wf(),
        ensures
            final(self).wf(),
            cycle_agrees(cycle_spec(old(self)@, keys@, rnd, now_us), r, old(self)@, final(self)@),
    {
        if let VmState::AwaitingKey(_) = self.state {
            return Ok(());
        }
        self.draw_flag = false;
        self.jump_flag = false;
        let op = match self.fetch() {
            Ok(op) => op,
            Err(e) => {
                return Err(e);
            },
        };
        match self.execute(op, keys, rnd) {
            Ok(()) => {},
            Err(e) => {
                return Err(e);
            },
        }
        if !self.jump_flag {
            self.pc = (self.pc as u32 + 2) as u16;
        }
        self.tick(now_us);
        Ok(())
    }

    /// One cycle at time `now_us`, drawing a byte from the machine's generator
    /// when the instruction is `Cxkk`. The outcome is that of
    /// `execute_cycle_with` for some byte.
    pub fn execute_cycle(&mut self, keys: &Keys, now_us: u64) -> (r: Result<(), Chip8Error>)
        requires
            old(self).wf(),
        ensures
            final(self).wf(),
            exists|b: u8|
                cycle_agrees(
                    #[trigger] cycle_spec(old(self)@, keys@, b, now_us),
                    r,
                    old(self)@,
                    final(self)@,
                ),
    {
        let mut rnd: u8 = 0;
        if let Ok(hi) = self.ram.read(self.pc as usize) {
            if hi / 16 == 0xC {
                rnd = random_byte(&mut self.rng);
            }
        }
        self.execute_cycle_with(keys, rnd, now_us)
    }
}

/// How long to sleep after a cycle that took `elapsed_us` microseconds so
/// that cycles run at `CYCLE_PERIOD_US`: the remainder, or zero.
pub fn pacing_delay_us(elapsed_us: u64) -> (r: u64)
    ensures
        elapsed_us < CYCLE_PERIOD_US ==> r == CYCLE_PERIOD_US - elapsed_us,
        elapsed_us >= CYCLE_PERIOD_US ==> r == 0,
{
    if elapsed_us < CYCLE_PERIOD_US {
        CYCLE_PERIOD_US - elapsed_us
    } else {
        0
    }
}

/// `8xy4` sets VF to 1 exactly when the unsigned sum of `Vx` and `Vy`
/// exceeds 255, and leaves `Vx` equal to that sum modulo 256, for every pair
/// of register values, where `x` is not VF itself (then VF keeps the sum).
pub proof fn add_flags_carry_and_wraps(s: VmModel, op: u16, keys: Seq<bool>, rnd: u8)
    requires
        s.wf(),
        op / 4096 == 0x8,
        op % 16 == 0x4,
        x_of(op) != FLAG_REGISTER,
    ensures
        execute_spec(s, op, keys, rnd) matches Ok(t) && (t.v[FLAG_REGISTER as int] == 1 <==> s.v[x_of(op)]
            + s.v[y_of(op)] > 255) && t.v[x_of(op)] == (s.v[x_of(op)] + s.v[y_of(op)]) % 256,
{
}

/// A cycle that executes `2nnn` followed by one that executes the `00EE` found
/// at `nnn` brings the program counter back to the address of the call and
/// the stack pointer back to its value before the call.
pub proof fn call_then_return_restores_pc_and_sp(
    s: VmModel,
    keys: Seq<bool>,
    rnd: u8,
    t1: u64,
    t2: u64,
)
    requires
        s.wf(),
        s.state == VmState::Running,
        s.sp < STACK_SIZE,
        fetch_spec(s) matches Ok(op) && op / 4096 == 0x2 && nnn_of(op) + 1 < MEMORY_SIZE
            && s.ram[nnn_of(op) as int] == 0x00 && s.ram[nnn_of(op) + 1] == 0xEE,
    ensures
        cycle_spec(s, keys, rnd, t1) matches Ok(s1) && cycle_spec(s1, keys, rnd, t2) matches Ok(s2)
            && s2.pc == s.pc && s2.sp == s.sp,
{
    let op = fetch_spec(s).unwrap();
    let s1 = cycle_spec(s, keys, rnd, t1).unwrap();
    assert(s1.pc == nnn_of(op) && s1.sp == s.sp + 1 && s1.stack[s.sp as int] == s.pc);
    assert(fetch_spec(s1) == Ok::<u16, Chip8Error>(0x00EE));
}

/// The state after the calls `ops`, made one after the other from `s`.
pub open spec fn calls_spec(s: VmModel, ops: Seq<u16>) -> Result<VmModel, Chip8Error>
    decreases ops.len(),
{
    if ops.len() == 0 {
        Ok(s)
    } else {
        match calls_spec(s, ops.drop_last()) {
            Ok(t) => call_spec(t, ops.last()),
            Err(e) => Err(e),
        }
    }
}

proof fn lemma_calls_fill_stack(s: VmModel, ops: Seq<u16>)
    requires
        s.wf(),
        s.sp == 0,
        ops.len() <= STACK_SIZE,
    ensures
        calls_spec(s, ops) matches Ok(t) && t.wf() && t.sp == ops.len(),
    decreases ops.len(),
{
    if ops.len() > 0 {
        lemma_calls_fill_stack(s, ops.drop_last());
    }
}

/// From an empty stack, sixteen calls made without a return all succeed and
/// fill the stack; a seventeenth fails with `StackOverflow`.
pub proof fn seventeenth_nested_call_overflows(s: VmModel, ops: Seq<u16>)
    requires
        s.wf(),
        s.sp == 0,
        ops.len() == STACK_SIZE + 1,
    ensures
        calls_spec(s, ops.take(STACK_SIZE as int)) matches Ok(t) && t.sp == STACK_SIZE,
        calls_spec(s, ops) == Err::<VmModel, Chip8Error>(Chip8Error::StackOverflow),
{
    lemma_calls_fill_stack(s, ops.take(STACK_SIZE as int));
    assert(ops.drop_last() =~= ops.take(STACK_SIZE as int));
}

/// Whether skip instruction `op` (`3xkk`, `4xkk`, `5xy0` or `9xy0`) finds
/// its condition true in `s`.
pub open spec fn skip_condition(s: VmModel, op: u16) -> bool {
    let top = op / 4096;
    if top == 0x3 {
        s.v[x_of(op)] == kk_of(op)
    } else if top == 0x4 {
        s.v[x_of(op)] != kk_of(op)
    } else if top == 0x5 {
        s.v[x_of(op)] == s.v[y_of(op)]
    } else {
        s.v[x_of(op)] != s.v[y_of(op)]
    }
}

/// A cycle that executes a skip instruction moves the program counter on by
/// four when the condition holds and by two when it does not.
pub proof fn skip_advances_by_four_or_two(s: VmModel, keys: Seq<bool>, rnd: u8, now_us: u64)
    requires
        s.wf(),
        s.state == VmState::Running,
        fetch_spec(s) matches Ok(op) && (op / 4096 == 0x3 || op / 4096 == 0x4 || op / 4096 == 0x5
            || op / 4096 == 0x9),
    ensures
        cycle_spec(s, keys, rnd, now_us) matches Ok(t) && t.pc == s.pc + if skip_condition(
            s,
            fetch_spec(s).unwrap(),
        ) {
            4int
        } else {
            2int
        },
{
}

} // verus!
