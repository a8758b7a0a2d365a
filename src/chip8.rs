use vstd::prelude::*;
use crate::error::{Chip8Error, ErrorKind};
use crate::inst::{decode_word, Instruction};

verus! {

pub const MEM_SIZE: usize = 4096;
pub const PROGRAM_START: usize = 0x200;
pub const FONT_START: usize = 0x50;
pub const SCREEN_WIDTH: usize = 64;
pub const SCREEN_HEIGHT: usize = 32;
pub const REG_SIZE: usize = 16;
pub const STACK_SIZE: usize = 16;
pub const NUM_KEYS: usize = 16;

#[verifier::external_type_specification]
#[verifier::external_body]
pub struct ExStdRng(rand::rngs::StdRng);

/// Relies on rand's `SeedableRng::seed_from_u64` for `StdRng`: a generator
/// built from a seed, so that a run can be repeated.
#[verifier::external_body]
fn seeded_rng(seed: u64) -> rand::rngs::StdRng {
    <rand::rngs::StdRng as rand::SeedableRng>::seed_from_u64(seed)
}

/// Relies on rand's `Rng::gen::<u8>`: a uniformly drawn byte, of which nothing
/// further is promised.
#[verifier::external_body]
fn random_byte(rng: &mut rand::rngs::StdRng) -> u8 {
    rand::Rng::gen::<u8>(rng)
}

/// The machine state as mathematical values.
pub struct Chip8View {
    pub mem: Seq<u8>,
    pub regs: Seq<u8>,
    pub i: u16,
    pub pc: u16,
    pub dt: u8,
    pub st: u8,
    pub stack: Seq<u16>,
    pub keys: Seq<bool>,
    pub screen: Seq<bool>,
    pub redraw: bool,
    /// The register that receives the next key press while the machine waits for one.
    pub waiting: Option<u8>,
}

impl Chip8View {
    pub open spec fn wf(self) -> bool {
        &&& self.mem.len() == MEM_SIZE
        &&& self.regs.len() == REG_SIZE
        &&& self.stack.len() <= STACK_SIZE
        &&& self.keys.len() == NUM_KEYS
        &&& self.screen.len() == SCREEN_WIDTH * SCREEN_HEIGHT
        &&& (self.waiting matches Some(x) ==> x < 16)
    }

    pub open spec fn reg(self, x: u8) -> u8 {
        self.regs[x as int]
    }

    pub open spec fn with_reg(self, x: u8, v: u8) -> Chip8View {
        Chip8View { regs: self.regs.update(x as int, v), ..self }
    }

    pub open spec fn with_pc(self, pc: int) -> Chip8View {
        Chip8View { pc: pc as u16, ..self }
    }

    /// The instruction word at the program counter.
    pub open spec fn word_at_pc(self) -> u16 {
        (self.mem[self.pc as int] * 256 + self.mem[self.pc + 1]) as u16
    }
}

/// The built-in hexadecimal digit sprites, five rows each, digits 0 to F.
pub open spec fn font_sprites() -> Seq<u8> {
    seq![
        0xF0u8, 0x90, 0x90, 0x90, 0xF0, 0x20, 0x60, 0x20, 0x20, 0x70,
        0xF0, 0x10, 0xF0, 0x80, 0xF0, 0xF0, 0x10, 0xF0, 0x10, 0xF0,
        0x90, 0x90, 0xF0, 0x10, 0x10, 0xF0, 0x80, 0xF0, 0x10, 0xF0,
        0xF0, 0x80, 0xF0, 0x90, 0xF0, 0xF0, 0x10, 0x20, 0x40, 0x40,
        0xF0, 0x90, 0xF0, 0x90, 0xF0, 0xF0, 0x90, 0xF0, 0x10, 0xF0,
        0xF0, 0x90, 0xF0, 0x90, 0x90, 0xE0, 0x90, 0xE0, 0x90, 0xE0,
        0xF0, 0x80, 0x80, 0x80, 0xF0, 0xE0, 0x90, 0x90, 0x90, 0xE0,
        0xF0, 0x80, 0xF0, 0x80, 0xF0, 0xF0, 0x80, 0xF0, 0x80, 0x80
    ]
}

/// Memory right after loading `rom`: the font at `FONT_START`, the program at
/// `PROGRAM_START`, zero elsewhere.
pub open spec fn loaded_byte(rom: Seq<u8>, a: int) -> u8 {
    if FONT_START <= a < FONT_START + 80 {
        font_sprites()[a - FONT_START]
    } else if PROGRAM_START <= a < PROGRAM_START + rom.len() {
        rom[a - PROGRAM_START]
    } else {
        0
    }
}

pub open spec fn initial_state(rom: Seq<u8>) -> Chip8View {
    Chip8View {
        mem: Seq::new(MEM_SIZE as nat, |a: int| loaded_byte(rom, a)),
        regs: Seq::new(REG_SIZE as nat, |r: int| 0u8),
        i: 0,
        pc: PROGRAM_START as u16,
        dt: 0,
        st: 0,
        stack: Seq::empty(),
        keys: Seq::new(NUM_KEYS as nat, |k: int| false),
        screen: Seq::new((SCREEN_WIDTH * SCREEN_HEIGHT) as nat, |p: int| false),
        redraw: false,
        waiting: None,
    }
}

/// Screen position of column `c` of sprite row `r` drawn at `(vx, vy)`,
/// both coordinates wrapped.
pub open spec fn pixel_at(vx: u8, vy: u8, r: int, c: int) -> int {
    ((vy + r) % 32) * 64 + (vx + c) % 64
}

/// Bit `c` of a sprite row, most significant first.
pub open spec fn sprite_bit(row: u8, c: int) -> bool {
    (row >> ((7 - c) as u8)) & 1u8 == 1u8
}

/// Some set sprite bit lands on pixel `p`.
pub open spec fn hits(rows: Seq<u8>, vx: u8, vy: u8, p: int) -> bool {
    exists|r: int, c: int|
        0 <= r < rows.len() && 0 <= c < 8 && #[trigger] pixel_at(vx, vy, r, c) == p
            && sprite_bit(rows[r], c)
}

/// The screen after XOR-ing the sprite into it.
pub open spec fn drawn(screen: Seq<bool>, rows: Seq<u8>, vx: u8, vy: u8) -> Seq<bool> {
    Seq::new(screen.len(), |p: int| screen[p] != hits(rows, vx, vy, p))
}

/// Some set sprite bit lands on a pixel that is already set.
pub open spec fn collides(screen: Seq<bool>, rows: Seq<u8>, vx: u8, vy: u8) -> bool {
    exists|r: int, c: int|
        0 <= r < rows.len() && 0 <= c < 8 && sprite_bit(rows[r], c)
            && screen[#[trigger] pixel_at(vx, vy, r, c)]
}

/// What one instruction does to the state, with `rnd` the random byte that a
/// random-mask instruction uses. Where machine variants differ, this one
/// shifts the first operand in place, leaves the index register alone on the
/// register block transfers, and lets the index add wrap at 16 bits without
/// touching the flag.
pub open spec fn exec_spec(s: Chip8View, inst: Instruction, rnd: u8) -> Result<Chip8View, ErrorKind> {
    let next = s.pc + 2;
    let skip = s.pc + 4;
    match inst {
        Instruction::I0NNN(_) => Ok(s.with_pc(next)),
        Instruction::I00E0 => Ok(Chip8View {
            screen: Seq::new(s.screen.len(), |p: int| false),
            redraw: true,
            ..s.with_pc(next)
        }),
        Instruction::I00EE => if s.stack.len() == 0 {
            Err(ErrorKind::StackUnderflow)
        } else {
            Ok(Chip8View { stack: s.stack.drop_last(), ..s.with_pc(s.stack.last() as int) })
        },
        Instruction::I1NNN(a) => Ok(s.with_pc(a as int)),
        Instruction::I2NNN(a) => if s.stack.len() >= STACK_SIZE {
            Err(ErrorKind::StackOverflow)
        } else {
            Ok(Chip8View { stack: s.stack.push(next as u16), ..s.with_pc(a as int) })
        },
        Instruction::I3XKK(x, kk) => Ok(s.with_pc(if s.reg(x) == kk { skip } else { next })),
        Instruction::I4XKK(x, kk) => Ok(s.with_pc(if s.reg(x) != kk { skip } else { next })),
        Instruction::I5XY0(x, y) => Ok(s.with_pc(if s.reg(x) == s.reg(y) { skip } else { next })),
        Instruction::I6XKK(x, kk) => Ok(s.with_reg(x, kk).with_pc(next)),
        Instruction::I7XKK(x, kk) => Ok(s.with_reg(x, ((s.reg(x) + kk) % 256) as u8).with_pc(next)),
        Instruction::I8XY0(x, y) => Ok(s.with_reg(x, s.reg(y)).with_pc(next)),
        Instruction::I8XY1(x, y) => Ok(s.with_reg(x, s.reg(x) | s.reg(y)).with_pc(next)),
        Instruction::I8XY2(x, y) => Ok(s.with_reg(x, s.reg(x) & s.reg(y)).with_pc(next)),
        Instruction::I8XY3(x, y) => Ok(s.with_reg(x, s.reg(x) ^ s.reg(y)).with_pc(next)),
        Instruction::I8XY4(x, y) => {
            let sum = s.reg(x) + s.reg(y);
            Ok(s.with_reg(x, (sum % 256) as u8).with_reg(15, if sum > 255 { 1u8 } else { 0u8 }).with_pc(next))
        },
        Instruction::I8XY5(x, y) => {
            let (a, b) = (s.reg(x), s.reg(y));
            Ok(s.with_reg(x, ((a - b + 256) % 256) as u8).with_reg(15, if a >= b { 1u8 } else { 0u8 }).with_pc(next))
        },
        Instruction::I8XY6(x, _) => {
            let a = s.reg(x);
            Ok(s.with_reg(x, a / 2).with_reg(15, a % 2).with_pc(next))
        },
        Instruction::I8XY7(x, y) => {
            let (a, b) = (s.reg(x), s.reg(y));
            Ok(s.with_reg(x, ((b - a + 256) % 256) as u8).with_reg(15, if b >= a { 1u8 } else { 0u8 }).with_pc(next))
        },
        Instruction::I8XYE(x, _) => {
            let a = s.reg(x);
            Ok(s.with_reg(x, ((a * 2) % 256) as u8).with_reg(15, a / 128).with_pc(next))
        },
        Instruction::I9XY0(x, y) => Ok(s.with_pc(if s.reg(x) != s.reg(y) { skip } else { next })),
        Instruction::IANNN(a) => Ok(Chip8View { i: a, ..s.with_pc(next) }),
        Instruction::IBNNN(a) => Ok(s.with_pc(a + s.reg(0))),
        Instruction::ICXKK(x, kk) => Ok(s.with_reg(x, rnd & kk).with_pc(next)),
        Instruction::IDXYN(x, y, n) => if s.i + n > MEM_SIZE {
            Err(ErrorKind::MemoryAccess)
        } else {
            let rows = s.mem.subrange(s.i as int, s.i + n);
            let (vx, vy) = (s.reg(x), s.reg(y));
            Ok(Chip8View {
                screen: drawn(s.screen, rows, vx, vy),
                redraw: true,
                ..s.with_reg(15, if collides(s.screen, rows, vx, vy) { 1u8 } else { 0u8 }).with_pc(next)
            })
        },
        Instruction::IEX9E(x) => Ok(s.with_pc(if s.keys[(s.reg(x) % 16) as int] { skip } else { next })),
        Instruction::IEXA1(x) => Ok(s.with_pc(if !s.keys[(s.reg(x) % 16) as int] { skip } else { next })),
        Instruction::IFX07(x) => Ok(s.with_reg(x, s.dt).with_pc(next)),
        Instruction::IFX0A(x) => Ok(Chip8View { waiting: Some(x), ..s.with_pc(next) }),
        Instruction::IFX15(x) => Ok(Chip8View { dt: s.reg(x), ..s.with_pc(next) }),
        Instruction::IFX18(x) => Ok(Chip8View { st: s.reg(x), ..s.with_pc(next) }),
        Instruction::IFX1E(x) => Ok(Chip8View { i: ((s.i + s.reg(x)) % 65536) as u16, ..s.with_pc(next) }),
        Instruction::IFX29(x) => Ok(Chip8View { i: (FONT_START + 5 * (s.reg(x) % 16)) as u16, ..s.with_pc(next) }),
        Instruction::IFX33(x) => if s.i + 3 > MEM_SIZE {
            Err(ErrorKind::MemoryAccess)
        } else {
            let v = s.reg(x);
            Ok(Chip8View {
                mem: s.mem.update(s.i as int, v / 100).update(s.i + 1, v / 10 % 10).update(s.i + 2, v % 10),
                ..s.with_pc(next)
            })
        },
        Instruction::IFX55(x) => if s.i + x + 1 > MEM_SIZE {
            Err(ErrorKind::MemoryAccess)
        } else {
            Ok(Chip8View {
                mem: Seq::new(s.mem.len(), |a: int| if s.i <= a <= s.i + x { s.regs[a - s.i] } else { s.mem[a] }),
                ..s.with_pc(next)
            })
        },
        Instruction::IFX65(x) => if s.i + x + 1 > MEM_SIZE {
            Err(ErrorKind::MemoryAccess)
        } else {
            Ok(Chip8View {
                regs: Seq::new(s.regs.len(), |r: int| if r <= x { s.mem[s.i + r] } else { s.regs[r] }),
                ..s.with_pc(next)
            })
        },
    }
}

/// What one `step` does: nothing while waiting for a key; otherwise fetch the
/// word at the program counter, decode it and execute it.
pub open spec fn step_spec(s: Chip8View, rnd: u8) -> Result<Chip8View, ErrorKind> {
    if s.waiting is Some {
        Ok(s)
    } else if s.pc + 1 >= MEM_SIZE {
        Err(ErrorKind::MemoryAccess)
    } else {
        match decode_word(s.word_at_pc()) {
            None => Err(ErrorKind::Decode(s.word_at_pc())),
            Some(inst) => exec_spec(s, inst, rnd),
        }
    }
}


/// Instruction families, as `execute` dispatches them: 0 for flow control,
/// 1 for register arithmetic, 2 for memory, timers and display.
pub open spec fn family(inst: Instruction) -> int {
    match inst {
        Instruction::I6XKK(..) | Instruction::I7XKK(..) | Instruction::I8XY0(..) | Instruction::I8XY1(..) | Instruction::I8XY2(..) | Instruction::I8XY3(..) | Instruction::I8XY4(..) | Instruction::I8XY5(..) | Instruction::I8XY6(..) | Instruction::I8XY7(..) | Instruction::I8XYE(..) | Instruction::ICXKK(..) => 1,
        Instruction::IANNN(..) | Instruction::IDXYN(..) | Instruction::IFX07(..) | Instruction::IFX0A(..) | Instruction::IFX15(..) | Instruction::IFX18(..) | Instruction::IFX1E(..) | Instruction::IFX29(..) | Instruction::IFX33(..) | Instruction::IFX55(..) | Instruction::IFX65(..) => 2,
        _ => 0,
    }
}

/// A result with the error replaced by its kind.
pub open spec fn outcome(r: Result<(), Chip8Error>) -> Result<(), ErrorKind> {
    match r {
        Ok(_) => Ok(()),
        Err(e) => Err(e.kind()),
    }
}

/// A step from `s` with random byte `rnd` reports `r` and leaves `t`: the
/// state that `step_spec` gives, or `s` itself on an error.
pub open spec fn step_matches(s: Chip8View, rnd: u8, r: Result<(), ErrorKind>, t: Chip8View) -> bool {
    match step_spec(s, rnd) {
        Ok(s2) => r is Ok && t == s2,
        Err(k) => r == Err::<(), ErrorKind>(k) && t == s,
    }
}

/// A timer after one tick.
pub open spec fn tick(t: u8) -> u8 {
    if t > 0 { (t - 1) as u8 } else { 0 }
}

/// The state after key `index` is reported pressed or released.
pub open spec fn key_spec(s: Chip8View, index: u8, pressed: bool) -> Chip8View {
    let s2 = Chip8View { keys: s.keys.update(index as int, pressed), ..s };
    if pressed && !s.keys[index as int] && s.waiting is Some {
        Chip8View { waiting: None, ..s2.with_reg(s.waiting->Some_0, index) }
    } else {
        s2
    }
}


/// Sprite cell `(r, c)` comes before cell `(rr, cc)` in row-major order.
pub open spec fn cell_before(r: int, c: int, rr: int, cc: int) -> bool {
    r < rr || (r == rr && c < cc)
}

/// `hits`, counting only the cells before `(rr, cc)`.
pub open spec fn hits_before(rows: Seq<u8>, vx: u8, vy: u8, rr: int, cc: int, p: int) -> bool {
    exists|r: int, c: int|
        0 <= r < rows.len() && 0 <= c < 8 && cell_before(r, c, rr, cc)
            && #[trigger] pixel_at(vx, vy, r, c) == p && sprite_bit(rows[r], c)
}

/// `collides`, counting only the cells before `(rr, cc)`.
pub open spec fn collides_before(screen: Seq<bool>, rows: Seq<u8>, vx: u8, vy: u8, rr: int, cc: int) -> bool {
    exists|r: int, c: int|
        0 <= r < rows.len() && 0 <= c < 8 && cell_before(r, c, rr, cc) && sprite_bit(rows[r], c)
            && screen[#[trigger] pixel_at(vx, vy, r, c)]
}

/// Distinct cells of a sprite of at most 16 rows land on distinct pixels, all on screen.
pub proof fn lemma_pixel_at(vx: u8, vy: u8, r1: int, c1: int, r2: int, c2: int)
    requires
        0 <= r1 < 16,
        0 <= r2 < 16,
        0 <= c1 < 8,
        0 <= c2 < 8,
    ensures
        0 <= pixel_at(vx, vy, r1, c1) < SCREEN_WIDTH * SCREEN_HEIGHT,
        pixel_at(vx, vy, r1, c1) == pixel_at(vx, vy, r2, c2) ==> r1 == r2 && c1 == c2,
{
    let a1 = (vy + r1) % 32;
    let b1 = (vx + c1) % 64;
    let a2 = (vy + r2) % 32;
    let b2 = (vx + c2) % 64;
    if a1 * 64 + b1 == a2 * 64 + b2 {
        assert(a1 == a2 && b1 == b2) by (nonlinear_arith)
            requires
                0 <= b1 < 64,
                0 <= b2 < 64,
                0 <= a1,
                0 <= a2,
                a1 * 64 + b1 == a2 * 64 + b2,
        ;
    }
}

/// The machine: memory, registers, timers, call stack, keypad, framebuffer,
/// the key-wait state and the generator behind the random-mask instruction.
pub struct Chip8 {
    mem: Vec<u8>,
    regs: Vec<u8>,
    reg_i: u16,
    dt: u8,
    st: u8,
    pc: u16,
    stack: Vec<u16>,
    keys: Vec<bool>,
    screen: Vec<bool>,
    cls_scn: bool,
    waiting: Option<u8>,
    rng: rand::rngs::StdRng,
}

impl View for Chip8 {
    type V = Chip8View;

    closed spec fn view(&self) -> Chip8View {
        Chip8View {
            mem: self.mem@,
            regs: self.regs@,
            i: self.reg_i,
            pc: self.pc,
            dt: self.dt,
            st: self.st,
            stack: self.stack@,
            keys: self.keys@,
            screen: self.screen@,
            redraw: self.cls_scn,
            waiting: self.waiting,
        }
    }
}

impl Chip8 {
    pub open spec fn wf(&self) -> bool {
        self@.wf()
    }

    /// Loads a program at `PROGRAM_START`, with the font at `FONT_START`, all
    /// registers, timers and pixels zero and an empty stack. The generator
    /// of the random-mask instruction is seeded with `seed`.
    pub fn new(rom: &[u8], seed: u64) -> (r: Result<Chip8, Chip8Error>)
        ensures
            r is Ok <==> rom@.len() <= MEM_SIZE - PROGRAM_START,
            r matches Ok(c) ==> c.wf() && c@ == initial_state(rom@),
            r matches Err(e) ==> e.kind() == ErrorKind::ProgramTooLarge,
    {
        if rom.len() > MEM_SIZE - PROGRAM_START {
            return Err(Chip8Error::ProgramTooLargeError);
        }
        let font: Vec<u8> = vec![
            0xF0u8, 0x90, 0x90, 0x90, 0xF0, 0x20, 0x60, 0x20, 0x20, 0x70,
            0xF0, 0x10, 0xF0, 0x80, 0xF0, 0xF0, 0x10, 0xF0, 0x10, 0xF0,
            0x90, 0x90, 0xF0, 0x10, 0x10, 0xF0, 0x80, 0xF0, 0x10, 0xF0,
            0xF0, 0x80, 0xF0, 0x90, 0xF0, 0xF0, 0x10, 0x20, 0x40, 0x40,
            0xF0, 0x90, 0xF0, 0x90, 0xF0, 0xF0, 0x90, 0xF0, 0x10, 0xF0,
            0xF0, 0x90, 0xF0, 0x90, 0x90, 0xE0, 0x90, 0xE0, 0x90, 0xE0,
            0xF0, 0x80, 0x80, 0x80, 0xF0, 0xE0, 0x90, 0x90, 0x90, 0xE0,
            0xF0, 0x80, 0xF0, 0x80, 0xF0, 0xF0, 0x80, 0xF0, 0x80, 0x80
        ];
        assert(font@ == font_sprites());
        let mut mem: Vec<u8> = Vec::new();
        let mut a: usize = 0;
        while a < MEM_SIZE
            invariant
                a <= MEM_SIZE,
                font@ == font_sprites(),
                rom@.len() <= MEM_SIZE - PROGRAM_START,
                mem@.len() == a,
                forall|k: int| 0 <= k < a ==> mem@[k] == loaded_byte(rom@, k),
            decreases MEM_SIZE - a,
        {
            let b: u8 = if FONT_START <= a && a < FONT_START + 80 {
                font[a - FONT_START]
            } else if PROGRAM_START <= a && a < PROGRAM_START + rom.len() {
                rom[a - PROGRAM_START]
            } else {
                0
            };
            mem.push(b);
            a += 1;
        }
        let c = Chip8 {
            mem,
            regs: vec![0u8; REG_SIZE],
            reg_i: 0,
            dt: 0,
            st: 0,
            pc: PROGRAM_START as u16,
            stack: Vec::new(),
            keys: vec![false; NUM_KEYS],
            screen: vec![false; SCREEN_WIDTH * SCREEN_HEIGHT],
            cls_scn: false,
            waiting: None,
            rng: seeded_rng(seed),
        };
        assert(c@.mem =~= initial_state(rom@).mem);
        assert(c@.regs =~= initial_state(rom@).regs);
        assert(c@.keys =~= initial_state(rom@).keys);
        assert(c@.screen =~= initial_state(rom@).screen);
        assert(c@.stack =~= initial_state(rom@).stack);
        Ok(c)
    }

    fn read_reg(&self, reg_num: u8) -> (r: u8)
        requires
            self.wf(),
            reg_num < 16,
        ensures
            r == self@.reg(reg_num),
    {
        self.regs[reg_num as usize]
    }

    fn write_reg(&mut self, reg_num: u8, value: u8)
        requires
            old(self).wf(),
            reg_num < 16,
        ensures
            final(self)@ == old(self)@.with_reg(reg_num, value),
    {
        self.regs.set(reg_num as usize, value);
    }

    /// XORs the `n`-row sprite at the index register into the screen at
    /// `(vx, vy)`, and reports whether a set pixel was cleared.
    fn draw_sprite(&mut self, vx: u8, vy: u8, n: u8) -> (collided: bool)
        requires
            old(self).wf(),
            n < 16,
            old(self)@.i + n <= MEM_SIZE,
        ensures
            final(self)@ == (Chip8View {
                screen: drawn(old(self)@.screen, old(self)@.mem.subrange(old(self)@.i as int, old(self)@.i + n), vx, vy),
                ..old(self)@
            }),
            collided == collides(old(self)@.screen, old(self)@.mem.subrange(old(self)@.i as int, old(self)@.i + n), vx, vy),
    {
        let ghost s0 = self@;
        let ghost rows = self.mem@.subrange(self.reg_i as int, self.reg_i + n);
        let base = self.reg_i as usize;
        let mut collided = false;
        let mut r: usize = 0;
        while r < n as usize
            invariant
                s0 == old(self)@,
                s0.wf(),
                rows == s0.mem.subrange(s0.i as int, s0.i + n),
                rows.len() == n,
                base == s0.i,
                n < 16,
                base + n <= MEM_SIZE,
                r <= n,
                self@ == (Chip8View { screen: self@.screen, ..s0 }),
                self@.screen.len() == s0.screen.len(),
                forall|p: int| 0 <= p < s0.screen.len() ==>
                    self@.screen[p] == (s0.screen[p] != hits_before(rows, vx, vy, r as int, 0, p)),
                collided == collides_before(s0.screen, rows, vx, vy, r as int, 0),
            decreases n - r,
        {
            let row = self.mem[base + r];
            assert(row == rows[r as int]);
            let mut c: usize = 0;
            while c < 8
                invariant
                    s0 == old(self)@,
                    s0.wf(),
                    rows == s0.mem.subrange(s0.i as int, s0.i + n),
                    rows.len() == n,
                    n < 16,
                    r < n,
                    c <= 8,
                    row == rows[r as int],
                    self@ == (Chip8View { screen: self@.screen, ..s0 }),
                    self@.screen.len() == s0.screen.len(),
                    forall|p: int| 0 <= p < s0.screen.len() ==>
                        self@.screen[p] == (s0.screen[p] != hits_before(rows, vx, vy, r as int, c as int, p)),
                    collided == collides_before(s0.screen, rows, vx, vy, r as int, c as int),
                decreases 8 - c,
            {
                let p: usize = ((vy as usize + r) % SCREEN_HEIGHT) * SCREEN_WIDTH + (vx as usize + c) % SCREEN_WIDTH;
                let bit = (row >> (7 - c as u8)) & 1 == 1;
                let ghost q = pixel_at(vx, vy, r as int, c as int);
                proof {
                    lemma_pixel_at(vx, vy, r as int, c as int, 0, 0);
                    assert(p == q);
                    assert(bit == sprite_bit(rows[r as int], c as int));
                    assert forall|r2: int, c2: int| 0 <= r2 < rows.len() && 0 <= c2 < 8
                        && #[trigger] pixel_at(vx, vy, r2, c2) == q implies r2 == r && c2 == c by {
                        lemma_pixel_at(vx, vy, r as int, c as int, r2, c2);
                    }
                    assert(!hits_before(rows, vx, vy, r as int, c as int, q));
                }
                let ghost before = self@.screen;
                if bit {
                    let px = self.screen[p];
                    if px {
                        collided = true;
                    }
                    self.screen.set(p, !px);
                }
                proof {
                    assert forall|pp: int| 0 <= pp < s0.screen.len() implies
                        self@.screen[pp] == (s0.screen[pp] != hits_before(rows, vx, vy, r as int, c + 1, pp)) by {
                        if bit && pp == q {
                            assert(hits_before(rows, vx, vy, r as int, c + 1, pp)) by {
                                assert(pixel_at(vx, vy, r as int, c as int) == pp);
                            }
                        } else {
                            if hits_before(rows, vx, vy, r as int, c + 1, pp) {
                                let (r3, c3) = choose|r3: int, c3: int|
                                    0 <= r3 < rows.len() && 0 <= c3 < 8 && cell_before(r3, c3, r as int, c + 1)
                                        && #[trigger] pixel_at(vx, vy, r3, c3) == pp && sprite_bit(rows[r3], c3);
                                assert(cell_before(r3, c3, r as int, c as int));
                            }
                        }
                    }
                    if collided {
                        if !collides_before(s0.screen, rows, vx, vy, r as int, c as int) {
                            assert(s0.screen[q]);
                            assert(collides_before(s0.screen, rows, vx, vy, r as int, c + 1));
                        }
                    }
                    if collides_before(s0.screen, rows, vx, vy, r as int, c + 1) {
                        let (r3, c3) = choose|r3: int, c3: int|
                            0 <= r3 < rows.len() && 0 <= c3 < 8 && cell_before(r3, c3, r as int, c + 1)
                                && sprite_bit(rows[r3], c3) && s0.screen[#[trigger] pixel_at(vx, vy, r3, c3)];
                        if !cell_before(r3, c3, r as int, c as int) {
                            assert(r3 == r && c3 == c);
                        }
                    }
                }
                c += 1;
            }
            proof {
                assert forall|pp: int| 0 <= pp < s0.screen.len() implies
                    hits_before(rows, vx, vy, r as int, 8, pp) == hits_before(rows, vx, vy, r + 1, 0, pp) by {
                    if hits_before(rows, vx, vy, r + 1, 0, pp) {
                        let (r3, c3) = choose|r3: int, c3: int|
                            0 <= r3 < rows.len() && 0 <= c3 < 8 && cell_before(r3, c3, r + 1, 0)
                                && #[trigger] pixel_at(vx, vy, r3, c3) == pp && sprite_bit(rows[r3], c3);
                        assert(cell_before(r3, c3, r as int, 8));
                    }
                    if hits_before(rows, vx, vy, r as int, 8, pp) {
                        let (r3, c3) = choose|r3: int, c3: int|
                            0 <= r3 < rows.len() && 0 <= c3 < 8 && cell_before(r3, c3, r as int, 8)
                                && #[trigger] pixel_at(vx, vy, r3, c3) == pp && sprite_bit(rows[r3], c3);
                        assert(cell_before(r3, c3, r + 1, 0));
                    }
                }
                if collides_before(s0.screen, rows, vx, vy, r + 1, 0) {
                    let (r3, c3) = choose|r3: int, c3: int|
                        0 <= r3 < rows.len() && 0 <= c3 < 8 && cell_before(r3, c3, r + 1, 0)
                            && sprite_bit(rows[r3], c3) && s0.screen[#[trigger] pixel_at(vx, vy, r3, c3)];
                    assert(cell_before(r3, c3, r as int, 8));
                }
                if collides_before(s0.screen, rows, vx, vy, r as int, 8) {
                    let (r3, c3) = choose|r3: int, c3: int|
                        0 <= r3 < rows.len() && 0 <= c3 < 8 && cell_before(r3, c3, r as int, 8)
                            && sprite_bit(rows[r3], c3) && s0.screen[#[trigger] pixel_at(vx, vy, r3, c3)];
                    assert(cell_before(r3, c3, r + 1, 0));
                }
            }
            r += 1;
        }
        proof {
            assert forall|pp: int| 0 <= pp < s0.screen.len() implies
                hits_before(rows, vx, vy, n as int, 0, pp) == hits(rows, vx, vy, pp) by {
                if hits(rows, vx, vy, pp) {
                    let (r3, c3) = choose|r3: int, c3: int|
                        0 <= r3 < rows.len() && 0 <= c3 < 8 && #[trigger] pixel_at(vx, vy, r3, c3) == pp
                            && sprite_bit(rows[r3], c3);
                    assert(cell_before(r3, c3, n as int, 0));
                }
            }
            if collides(s0.screen, rows, vx, vy) {
                let (r3, c3) = choose|r3: int, c3: int|
                    0 <= r3 < rows.len() && 0 <= c3 < 8 && sprite_bit(rows[r3], c3)
                        && s0.screen[#[trigger] pixel_at(vx, vy, r3, c3)];
                assert(cell_before(r3, c3, n as int, 0));
            }
            assert(self@.screen =~= drawn(s0.screen, rows, vx, vy));
        }
        collided
    }

    /// Unsets every pixel.
    fn clear_screen(&mut self)
        requires
            old(self).wf(),
        ensures
            final(self)@ == (Chip8View { screen: Seq::new(old(self)@.screen.len(), |p: int| false), ..old(self)@ }),
    {
        let ghost s0 = self@;
        let mut p: usize = 0;
        while p < self.screen.len()
            invariant
                s0.wf(),
                p <= s0.screen.len(),
                self@ == (Chip8View { screen: self@.screen, ..s0 }),
                self@.screen.len() == s0.screen.len(),
                forall|k: int| 0 <= k < p ==> !self@.screen[k],
            decreases s0.screen.len() - p,
        {
            self.screen.set(p, false);
            p += 1;
        }
        assert(self@.screen =~= Seq::new(s0.screen.len(), |p: int| false));
    }

    /// Copies registers `0..=x` to memory from the index register on.
    fn store_regs(&mut self, x: u8)
        requires
            old(self).wf(),
            x < 16,
            old(self)@.i + x + 1 <= MEM_SIZE,
        ensures
            final(self)@ == (Chip8View {
                mem: Seq::new(old(self)@.mem.len(), |a: int|
                    if old(self)@.i <= a <= old(self)@.i + x { old(self)@.regs[a - old(self)@.i] } else { old(self)@.mem[a] }),
                ..old(self)@
            }),
    {
        let ghost s0 = self@;
        let base = self.reg_i as usize;
        let mut k: usize = 0;
        while k <= x as usize
            invariant
                s0.wf(),
                x < 16,
                base == s0.i,
                base + x + 1 <= MEM_SIZE,
                k <= x + 1,
                self@ == (Chip8View { mem: self@.mem, ..s0 }),
                self@.mem.len() == s0.mem.len(),
                forall|a: int| 0 <= a < s0.mem.len() ==> self@.mem[a]
                    == if base <= a < base + k { s0.regs[a - base] } else { s0.mem[a] },
            decreases x + 1 - k,
        {
            let v = self.regs[k];
            self.mem.set(base + k, v);
            k += 1;
        }
        assert(self@.mem =~= Seq::new(s0.mem.len(), |a: int|
            if s0.i <= a <= s0.i + x { s0.regs[a - s0.i] } else { s0.mem[a] }));
    }

    /// Copies memory from the index register on into registers `0..=x`.
    fn load_regs(&mut self, x: u8)
        requires
            old(self).wf(),
            x < 16,
            old(self)@.i + x + 1 <= MEM_SIZE,
        ensures
            final(self)@ == (Chip8View {
                regs: Seq::new(old(self)@.regs.len(), |r: int|
                    if r <= x { old(self)@.mem[old(self)@.i + r] } else { old(self)@.regs[r] }),
                ..old(self)@
            }),
    {
        let ghost s0 = self@;
        let base = self.reg_i as usize;
        let mut k: usize = 0;
        while k <= x as usize
            invariant
                s0.wf(),
                x < 16,
                base == s0.i,
                base + x + 1 <= MEM_SIZE,
                k <= x + 1,
                self@ == (Chip8View { regs: self@.regs, ..s0 }),
                self@.regs.len() == s0.regs.len(),
                forall|r: int| 0 <= r < s0.regs.len() ==> self@.regs[r]
                    == if r < k { s0.mem[base + r] } else { s0.regs[r] },
            decreases x + 1 - k,
        {
            let v = self.mem[base + k];
            self.regs.set(k, v);
            k += 1;
        }
        assert(self@.regs =~= Seq::new(s0.regs.len(), |r: int|
            if r <= x { s0.mem[s0.i + r] } else { s0.regs[r] }));
    }

    /// Executes one decoded instruction fetched at the program counter.
    /// On an error nothing changes.
    fn execute(&mut self, inst: Instruction, rnd: u8) -> (r: Result<(), Chip8Error>)
        requires
            old(self).wf(),
            inst.wf(),
            old(self)@.pc + 1 < MEM_SIZE,
        ensures
            final(self).wf(),
            match exec_spec(old(self)@, inst, rnd) {
                Ok(s) => r is Ok && final(self)@ == s,
                Err(k) => r is Err && r->Err_0.kind() == k && final(self)@ == old(self)@,
            },
    {
        match inst {
            Instruction::I6XKK(..) | Instruction::I7XKK(..) | Instruction::I8XY0(..) | Instruction::I8XY1(..) | Instruction::I8XY2(..) | Instruction::I8XY3(..) | Instruction::I8XY4(..) | Instruction::I8XY5(..) | Instruction::I8XY6(..) | Instruction::I8XY7(..) | Instruction::I8XYE(..) | Instruction::ICXKK(..) => self.exec_alu(inst, rnd),
            Instruction::IANNN(..) | Instruction::IDXYN(..) | Instruction::IFX07(..) | Instruction::IFX0A(..) | Instruction::IFX15(..) | Instruction::IFX18(..) | Instruction::IFX1E(..) | Instruction::IFX29(..) | Instruction::IFX33(..) | Instruction::IFX55(..) | Instruction::IFX65(..) => self.exec_misc(inst, rnd),
            _ => self.exec_flow(inst, rnd),
        }
    }

    /// Executes an instruction of jumps, calls, returns, skips and screen clearing.
    fn exec_flow(&mut self, inst: Instruction, rnd: u8) -> (r: Result<(), Chip8Error>)
        requires
            old(self).wf(),
            inst.wf(),
            old(self)@.pc + 1 < MEM_SIZE,
            family(inst) == 0,
        ensures
            final(self).wf(),
            match exec_spec(old(self)@, inst, rnd) {
                Ok(s) => r is Ok && final(self)@ == s,
                Err(k) => r is Err && r->Err_0.kind() == k && final(self)@ == old(self)@,
            },
    {
        let npc = self.pc + 2;
        let spc = self.pc + 4;
        match inst {
            Instruction::I0NNN(_) => {
                self.pc = npc;
            },
            Instruction::I00E0 => {
                self.clear_screen();
                self.cls_scn = true;
                self.pc = npc;
            },
            Instruction::I00EE => {
                match self.stack.pop() {
                    Some(a) => {
                        self.pc = a;
                    },
                    None => {
                        return Err(Chip8Error::StackUnderflowError);
                    },
                }
            },
            Instruction::I1NNN(a) => {
                self.pc = a;
            },
            Instruction::I2NNN(a) => {
                if self.stack.len() >= STACK_SIZE {
                    return Err(Chip8Error::StackOverflowError);
                }
                self.stack.push(npc);
                self.pc = a;
            },
            Instruction::I3XKK(x, kk) => {
                self.pc = if self.read_reg(x) == kk { spc } else { npc };
            },
            Instruction::I4XKK(x, kk) => {
                self.pc = if self.read_reg(x) != kk { spc } else { npc };
            },
            Instruction::I5XY0(x, y) => {
                self.pc = if self.read_reg(x) == self.read_reg(y) { spc } else { npc };
            },
            Instruction::I9XY0(x, y) => {
                self.pc = if self.read_reg(x) != self.read_reg(y) { spc } else { npc };
            },
            Instruction::IBNNN(a) => {
                self.pc = a + self.read_reg(0) as u16;
            },
            Instruction::IEX9E(x) => {
                let k = self.read_reg(x) % 16;
                self.pc = if self.keys[k as usize] { spc } else { npc };
            },
            Instruction::IEXA1(x) => {
                let k = self.read_reg(x) % 16;
                self.pc = if !self.keys[k as usize] { spc } else { npc };
            },
            _ => {},
        }
        Ok(())
    }

    /// Executes an instruction of register moves, arithmetic and the random mask.
    fn exec_alu(&mut self, inst: Instruction, rnd: u8) -> (r: Result<(), Chip8Error>)
        requires
            old(self).wf(),
            inst.wf(),
            old(self)@.pc + 1 < MEM_SIZE,
            family(inst) == 1,
        ensures
            final(self).wf(),
            match exec_spec(old(self)@, inst, rnd) {
                Ok(s) => r is Ok && final(self)@ == s,
                Err(k) => r is Err && r->Err_0.kind() == k && final(self)@ == old(self)@,
            },
    {
        let npc = self.pc + 2;
        match inst {
            Instruction::I6XKK(x, kk) => {
                self.write_reg(x, kk);
                self.pc = npc;
            },
            Instruction::I7XKK(x, kk) => {
                let v = ((self.read_reg(x) as u16 + kk as u16) % 256) as u8;
                self.write_reg(x, v);
                self.pc = npc;
            },
            Instruction::I8XY0(x, y) => {
                let v = self.read_reg(y);
                self.write_reg(x, v);
                self.pc = npc;
            },
            Instruction::I8XY1(x, y) => {
                let v = self.read_reg(x) | self.read_reg(y);
                self.write_reg(x, v);
                self.pc = npc;
            },
            Instruction::I8XY2(x, y) => {
                let v = self.read_reg(x) & self.read_reg(y);
                self.write_reg(x, v);
                self.pc = npc;
            },
            Instruction::I8XY3(x, y) => {
                let v = self.read_reg(x) ^ self.read_reg(y);
                self.write_reg(x, v);
                self.pc = npc;
            },
            Instruction::I8XY4(x, y) => {
                let sum = self.read_reg(x) as u16 + self.read_reg(y) as u16;
                self.write_reg(x, (sum % 256) as u8);
                self.write_reg(0xF, if sum > 255 { 1 } else { 0 });
                self.pc = npc;
            },
            Instruction::I8XY5(x, y) => {
                let vx = self.read_reg(x);
                let vy = self.read_reg(y);
                self.write_reg(x, ((vx as u16 + 256 - vy as u16) % 256) as u8);
                self.write_reg(0xF, if vx >= vy { 1 } else { 0 });
                self.pc = npc;
            },
            Instruction::I8XY6(x, _) => {
                let vx = self.read_reg(x);
                self.write_reg(x, vx / 2);
                self.write_reg(0xF, vx % 2);
                self.pc = npc;
            },
            Instruction::I8XY7(x, y) => {
                let vx = self.read_reg(x);
                let vy = self.read_reg(y);
                self.write_reg(x, ((vy as u16 + 256 - vx as u16) % 256) as u8);
                self.write_reg(0xF, if vy >= vx { 1 } else { 0 });
                self.pc = npc;
            },
            Instruction::I8XYE(x, _) => {
                let vx = self.read_reg(x);
                self.write_reg(x, ((vx as u16 * 2) % 256) as u8);
                self.write_reg(0xF, vx / 128);
                self.pc = npc;
            },
            Instruction::ICXKK(x, kk) => {
                self.write_reg(x, rnd & kk);
                self.pc = npc;
            },
            _ => {},
        }
        Ok(())
    }

    /// Executes an instruction of the index register, sprites, timers, key wait, BCD and register blocks.
    fn exec_misc(&mut self, inst: Instruction, rnd: u8) -> (r: Result<(), Chip8Error>)
        requires
            old(self).wf(),
            inst.wf(),
            old(self)@.pc + 1 < MEM_SIZE,
            family(inst) == 2,
        ensures
            final(self).wf(),
            match exec_spec(old(self)@, inst, rnd) {
                Ok(s) => r is Ok && final(self)@ == s,
                Err(k) => r is Err && r->Err_0.kind() == k && final(self)@ == old(self)@,
            },
    {
        let npc = self.pc + 2;
        match inst {
            Instruction::IANNN(a) => {
                self.reg_i = a;
                self.pc = npc;
            },
            Instruction::IDXYN(x, y, n) => {
                if self.reg_i as usize + n as usize > MEM_SIZE {
                    return Err(Chip8Error::MemoryAccessError);
                }
                let vx = self.read_reg(x);
                let vy = self.read_reg(y);
                let collided = self.draw_sprite(vx, vy, n);
                self.write_reg(0xF, if collided { 1 } else { 0 });
                self.cls_scn = true;
                self.pc = npc;
            },
            Instruction::IFX07(x) => {
                let v = self.dt;
                self.write_reg(x, v);
                self.pc = npc;
            },
            Instruction::IFX0A(x) => {
                self.waiting = Some(x);
                self.pc = npc;
            },
            Instruction::IFX15(x) => {
                self.dt = self.read_reg(x);
                self.pc = npc;
            },
            Instruction::IFX18(x) => {
                self.st = self.read_reg(x);
                self.pc = npc;
            },
            Instruction::IFX1E(x) => {
                self.reg_i = ((self.reg_i as u32 + self.read_reg(x) as u32) % 65536) as u16;
                self.pc = npc;
            },
            Instruction::IFX29(x) => {
                self.reg_i = FONT_START as u16 + 5 * (self.read_reg(x) % 16) as u16;
                self.pc = npc;
            },
            Instruction::IFX33(x) => {
                if self.reg_i as usize + 3 > MEM_SIZE {
                    return Err(Chip8Error::MemoryAccessError);
                }
                let v = self.read_reg(x);
                let base = self.reg_i as usize;
                self.mem.set(base, v / 100);
                self.mem.set(base + 1, v / 10 % 10);
                self.mem.set(base + 2, v % 10);
                self.pc = npc;
            },
            Instruction::IFX55(x) => {
                if self.reg_i as usize + x as usize + 1 > MEM_SIZE {
                    return Err(Chip8Error::MemoryAccessError);
                }
                self.store_regs(x);
                self.pc = npc;
            },
            Instruction::IFX65(x) => {
                if self.reg_i as usize + x as usize + 1 > MEM_SIZE {
                    return Err(Chip8Error::MemoryAccessError);
                }
                self.load_regs(x);
                self.pc = npc;
            },
            _ => {},
        }
        Ok(())
    }

    /// The big-endian word at the program counter.
    fn fetch(&self) -> (r: Result<u16, Chip8Error>)
        requires
            self.wf(),
        ensures
            self@.pc + 1 < MEM_SIZE ==> r == Ok::<u16, Chip8Error>(self@.word_at_pc()),
            self@.pc + 1 >= MEM_SIZE ==> r is Err && r->Err_0.kind() == ErrorKind::MemoryAccess,
    {
        let pc = self.pc as usize;
        if pc + 1 >= MEM_SIZE {
            return Err(Chip8Error::MemoryAccessError);
        }
        let hi = self.mem[pc];
        let lo = self.mem[pc + 1];
        Ok(hi as u16 * 256 + lo as u16)
    }

    /// Decodes an instruction word.
    pub fn decode(inst: u16) -> (r: Result<Instruction, Chip8Error>)
        ensures
            match decode_word(inst) {
                Some(i) => r == Ok::<Instruction, Chip8Error>(i),
                None => r is Err && r->Err_0.kind() == ErrorKind::Decode(inst),
            },
    {
        Instruction::from_word(inst)
    }

    /// One fetch-decode-execute cycle, with `rnd` as the byte that a
    /// random-mask instruction draws. While waiting for a key it does nothing.
    /// On an error the state is left as it was.
    pub fn step_with(&mut self, rnd: u8) -> (r: Result<(), Chip8Error>)
        requires
            old(self).wf(),
        ensures
            final(self).wf(),
            step_matches(old(self)@, rnd, outcome(r), final(self)@),
    {
        if self.waiting.is_some() {
            return Ok(());
        }
        let word = match self.fetch() {
            Ok(w) => w,
            Err(e) => return Err(e),
        };
        let inst = match Self::decode(word) {
            Ok(i) => i,
            Err(e) => return Err(e),
        };
        self.execute(inst, rnd)
    }

    /// One fetch-decode-execute cycle, drawing the random byte from the
    /// machine's seeded generator.
    pub fn step(&mut self) -> (r: Result<(), Chip8Error>)
        requires
            old(self).wf(),
        ensures
            final(self).wf(),
            exists|rnd: u8| #[trigger] step_matches(old(self)@, rnd, outcome(r), final(self)@),
    {
        let rnd = random_byte(&mut self.rng);
        self.step_with(rnd)
    }

    /// The sound is on exactly while the sound timer is nonzero.
    pub fn buzzer(&self) -> (r: bool)
        ensures
            r == (self@.st != 0),
    {
        self.st != 0
    }

    /// Returns whether the screen was cleared or drawn on since the last call,
    /// and resets that signal.
    pub fn get_scn_state(&mut self) -> (r: bool)
        ensures
            r == old(self)@.redraw,
            final(self)@ == (Chip8View { redraw: false, ..old(self)@ }),
    {
        let f = self.cls_scn;
        self.cls_scn = false;
        f
    }

    /// One tick of the 60 Hz clock: each timer drops by one, stopping at zero.
    pub fn tick_timers(&mut self)
        ensures
            final(self)@ == (Chip8View {
                dt: tick(old(self)@.dt),
                st: tick(old(self)@.st),
                ..old(self)@
            }),
    {
        if self.dt > 0 {
            self.dt = self.dt - 1;
        }
        if self.st > 0 {
            self.st = self.st - 1;
        }
    }

    /// Records whether key `index` is pressed. A press of a key that was up,
    /// while the machine waits for a key, stores the key in the waiting
    /// register and resumes execution.
    pub fn set_key(&mut self, index: u8, pressed: bool)
        requires
            old(self).wf(),
            index < 16,
        ensures
            final(self).wf(),
            final(self)@ == key_spec(old(self)@, index, pressed),
    {
        let was = self.keys[index as usize];
        if pressed && !was {
            if let Some(x) = self.waiting {
                self.regs.set(x as usize, index);
                self.waiting = None;
            }
        }
        self.keys.set(index as usize, pressed);
    }

    pub fn pc(&self) -> (r: u16)
        ensures
            r == self@.pc,
    {
        self.pc
    }

    pub fn index_register(&self) -> (r: u16)
        ensures
            r == self@.i,
    {
        self.reg_i
    }

    /// Value of general register `x`.
    pub fn register(&self, x: u8) -> (r: u8)
        requires
            self.wf(),
            x < 16,
        ensures
            r == self@.reg(x),
    {
        self.regs[x as usize]
    }

    /// The byte at address `addr`.
    pub fn memory(&self, addr: usize) -> (r: u8)
        requires
            self.wf(),
            addr < MEM_SIZE,
        ensures
            r == self@.mem[addr as int],
    {
        self.mem[addr]
    }

    pub fn delay_timer(&self) -> (r: u8)
        ensures
            r == self@.dt,
    {
        self.dt
    }

    pub fn sound_timer(&self) -> (r: u8)
        ensures
            r == self@.st,
    {
        self.st
    }

    pub fn stack_depth(&self) -> (r: usize)
        ensures
            r == self@.stack.len(),
    {
        self.stack.len()
    }

    pub fn is_awaiting_key(&self) -> (r: bool)
        ensures
            r == self@.waiting is Some,
    {
        self.waiting.is_some()
    }

    /// The framebuffer, row by row: pixel `(x, y)` at `y * SCREEN_WIDTH + x`.
    pub fn framebuffer(&self) -> (r: &Vec<bool>)
        ensures
            r@ == self@.screen,
    {
        &self.screen
    }
}

} // verus!
