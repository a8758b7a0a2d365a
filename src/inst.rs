use vstd::prelude::*;
use crate::error::{Chip8Error, ErrorKind};
use vstd::arithmetic::div_mod::lemma_fundamental_div_mod_converse;

verus! {

/// One decoded instruction. Register operands are indices 0..16, `kk` an
/// 8-bit immediate, `nnn` a 12-bit address and `n` a 4-bit count.
#[derive(PartialEq, Eq, Structural, Clone, Copy, Debug)]
pub enum Instruction {
    I0NNN(u16),
    I00E0,
    I00EE,
    I1NNN(u16),
    I2NNN(u16),
    I3XKK(u8, u8),
    I4XKK(u8, u8),
    I5XY0(u8, u8),
    I6XKK(u8, u8),
    I7XKK(u8, u8),
    I8XY0(u8, u8),
    I8XY1(u8, u8),
    I8XY2(u8, u8),
    I8XY3(u8, u8),
    I8XY4(u8, u8),
    I8XY5(u8, u8),
    I8XY6(u8, u8),
    I8XY7(u8, u8),
    I8XYE(u8, u8),
    I9XY0(u8, u8),
    IANNN(u16),
    IBNNN(u16),
    ICXKK(u8, u8),
    IDXYN(u8, u8, u8),
    IEX9E(u8),
    IEXA1(u8),
    IFX07(u8),
    IFX0A(u8),
    IFX15(u8),
    IFX18(u8),
    IFX1E(u8),
    IFX29(u8),
    IFX33(u8),
    IFX55(u8),
    IFX65(u8),
}

pub open spec fn nib_x(w: u16) -> u8 {
    (w / 256 % 16) as u8
}

pub open spec fn nib_y(w: u16) -> u8 {
    (w / 16 % 16) as u8
}

pub open spec fn nib_n(w: u16) -> u8 {
    (w % 16) as u8
}

pub open spec fn byte_kk(w: u16) -> u8 {
    (w % 256) as u8
}

pub open spec fn addr_nnn(w: u16) -> u16 {
    (w % 4096) as u16
}

/// The instruction a word stands for, or `None` where the word is outside
/// the recognised set.
pub open spec fn decode_word(w: u16) -> Option<Instruction> {
    let top = w / 4096;
    let x = nib_x(w);
    let y = nib_y(w);
    let n = nib_n(w);
    let kk = byte_kk(w);
    let nnn = addr_nnn(w);
    if top == 0 {
        if w == 0x00E0 {
            Some(Instruction::I00E0)
        } else if w == 0x00EE {
            Some(Instruction::I00EE)
        } else {
            Some(Instruction::I0NNN(nnn))
        }
    } else if top == 1 {
        Some(Instruction::I1NNN(nnn))
    } else if top == 2 {
        Some(Instruction::I2NNN(nnn))
    } else if top == 3 {
        Some(Instruction::I3XKK(x, kk))
    } else if top == 4 {
        Some(Instruction::I4XKK(x, kk))
    } else if top == 5 {
        if n == 0 { Some(Instruction::I5XY0(x, y)) } else { None }
    } else if top == 6 {
        Some(Instruction::I6XKK(x, kk))
    } else if top == 7 {
        Some(Instruction::I7XKK(x, kk))
    } else if top == 8 {
        if n == 0 {
            Some(Instruction::I8XY0(x, y))
        } else if n == 1 {
            Some(Instruction::I8XY1(x, y))
        } else if n == 2 {
            Some(Instruction::I8XY2(x, y))
        } else if n == 3 {
            Some(Instruction::I8XY3(x, y))
        } else if n == 4 {
            Some(Instruction::I8XY4(x, y))
        } else if n == 5 {
            Some(Instruction::I8XY5(x, y))
        } else if n == 6 {
            Some(Instruction::I8XY6(x, y))
        } else if n == 7 {
            Some(Instruction::I8XY7(x, y))
        } else if n == 0xE {
            Some(Instruction::I8XYE(x, y))
        } else {
            None
        }
    } else if top == 9 {
        if n == 0 { Some(Instruction::I9XY0(x, y)) } else { None }
    } else if top == 0xA {
        Some(Instruction::IANNN(nnn))
    } else if top == 0xB {
        Some(Instruction::IBNNN(nnn))
    } else if top == 0xC {
        Some(Instruction::ICXKK(x, kk))
    } else if top == 0xD {
        Some(Instruction::IDXYN(x, y, n))
    } else if top == 0xE {
        if kk == 0x9E {
            Some(Instruction::IEX9E(x))
        } else if kk == 0xA1 {
            Some(Instruction::IEXA1(x))
        } else {
            None
        }
    } else {
        if kk == 0x07 {
            Some(Instruction::IFX07(x))
        } else if kk == 0x0A {
            Some(Instruction::IFX0A(x))
        } else if kk == 0x15 {
            Some(Instruction::IFX15(x))
        } else if kk == 0x18 {
            Some(Instruction::IFX18(x))
        } else if kk == 0x1E {
            Some(Instruction::IFX1E(x))
        } else if kk == 0x29 {
            Some(Instruction::IFX29(x))
        } else if kk == 0x33 {
            Some(Instruction::IFX33(x))
        } else if kk == 0x55 {
            Some(Instruction::IFX55(x))
        } else if kk == 0x65 {
            Some(Instruction::IFX65(x))
        } else {
            None
        }
    }
}

/// The word whose bit fields hold the instruction's operands.
pub open spec fn encode_word(i: Instruction) -> int {
    match i {
        Instruction::I0NNN(a) => a as int,
        Instruction::I00E0 => 0x00E0,
        Instruction::I00EE => 0x00EE,
        Instruction::I1NNN(a) => 0x1000 + a,
        Instruction::I2NNN(a) => 0x2000 + a,
        Instruction::I3XKK(x, kk) => 0x3000 + x * 256 + kk,
        Instruction::I4XKK(x, kk) => 0x4000 + x * 256 + kk,
        Instruction::I5XY0(x, y) => 0x5000 + x * 256 + y * 16,
        Instruction::I6XKK(x, kk) => 0x6000 + x * 256 + kk,
        Instruction::I7XKK(x, kk) => 0x7000 + x * 256 + kk,
        Instruction::I8XY0(x, y) => 0x8000 + x * 256 + y * 16,
        Instruction::I8XY1(x, y) => 0x8001 + x * 256 + y * 16,
        Instruction::I8XY2(x, y) => 0x8002 + x * 256 + y * 16,
        Instruction::I8XY3(x, y) => 0x8003 + x * 256 + y * 16,
        Instruction::I8XY4(x, y) => 0x8004 + x * 256 + y * 16,
        Instruction::I8XY5(x, y) => 0x8005 + x * 256 + y * 16,
        Instruction::I8XY6(x, y) => 0x8006 + x * 256 + y * 16,
        Instruction::I8XY7(x, y) => 0x8007 + x * 256 + y * 16,
        Instruction::I8XYE(x, y) => 0x800E + x * 256 + y * 16,
        Instruction::I9XY0(x, y) => 0x9000 + x * 256 + y * 16,
        Instruction::IANNN(a) => 0xA000 + a,
        Instruction::IBNNN(a) => 0xB000 + a,
        Instruction::ICXKK(x, kk) => 0xC000 + x * 256 + kk,
        Instruction::IDXYN(x, y, n) => 0xD000 + x * 256 + y * 16 + n,
        Instruction::IEX9E(x) => 0xE09E + x * 256,
        Instruction::IEXA1(x) => 0xE0A1 + x * 256,
        Instruction::IFX07(x) => 0xF007 + x * 256,
        Instruction::IFX0A(x) => 0xF00A + x * 256,
        Instruction::IFX15(x) => 0xF015 + x * 256,
        Instruction::IFX18(x) => 0xF018 + x * 256,
        Instruction::IFX1E(x) => 0xF01E + x * 256,
        Instruction::IFX29(x) => 0xF029 + x * 256,
        Instruction::IFX33(x) => 0xF033 + x * 256,
        Instruction::IFX55(x) => 0xF055 + x * 256,
        Instruction::IFX65(x) => 0xF065 + x * 256,
    }
}

impl Instruction {
    /// Every operand fits its field: registers and counts in 4 bits,
    /// addresses in 12.
    pub open spec fn wf(&self) -> bool {
        match *self {
            Instruction::I0NNN(a) | Instruction::I1NNN(a) | Instruction::I2NNN(a)
            | Instruction::IANNN(a) | Instruction::IBNNN(a) => a < 4096,
            Instruction::I00E0 | Instruction::I00EE => true,
            Instruction::I3XKK(x, _) | Instruction::I4XKK(x, _) | Instruction::I6XKK(x, _)
            | Instruction::I7XKK(x, _) | Instruction::ICXKK(x, _) => x < 16,
            Instruction::I5XY0(x, y) | Instruction::I8XY0(x, y) | Instruction::I8XY1(x, y)
            | Instruction::I8XY2(x, y) | Instruction::I8XY3(x, y) | Instruction::I8XY4(x, y)
            | Instruction::I8XY5(x, y) | Instruction::I8XY6(x, y) | Instruction::I8XY7(x, y)
            | Instruction::I8XYE(x, y) | Instruction::I9XY0(x, y) => x < 16 && y < 16,
            Instruction::IDXYN(x, y, n) => x < 16 && y < 16 && n < 16,
            Instruction::IEX9E(x) | Instruction::IEXA1(x) | Instruction::IFX07(x)
            | Instruction::IFX0A(x) | Instruction::IFX15(x) | Instruction::IFX18(x)
            | Instruction::IFX1E(x) | Instruction::IFX29(x) | Instruction::IFX33(x)
            | Instruction::IFX55(x) | Instruction::IFX65(x) => x < 16,
        }
    }

    /// The four 4-bit fields of a word, most significant first.
    pub fn get_nibbles(value: u16) -> (r: (u8, u8, u8, u8))
        ensures
            r.0 as int == value / 4096,
            r.1 == nib_x(value),
            r.2 == nib_y(value),
            r.3 == nib_n(value),
    {
        ((value / 4096) as u8, (value / 256 % 16) as u8, (value / 16 % 16) as u8, (value % 16) as u8)
    }

    pub fn get_nnn(value: u16) -> (r: u16)
        ensures
            r == addr_nnn(value),
    {
        value % 4096
    }

    pub fn get_x(value: u16) -> (r: u8)
        ensures
            r == nib_x(value),
    {
        (value / 256 % 16) as u8
    }

    pub fn get_y(value: u16) -> (r: u8)
        ensures
            r == nib_y(value),
    {
        (value / 16 % 16) as u8
    }

    pub fn get_kk(value: u16) -> (r: u8)
        ensures
            r == byte_kk(value),
    {
        (value % 256) as u8
    }

    pub fn get_n(value: u16) -> (r: u8)
        ensures
            r == nib_n(value),
    {
        (value % 16) as u8
    }
    /// Decodes a 16-bit instruction word. Dispatch is on the top nibble, then
    /// on the bottom nibble (families 5, 8, 9) or the bottom byte (families E, F);
    /// in family 0 the words 00E0 and 00EE are singled out and every other word
    /// is the legacy machine-code call.
    pub fn from_word(value: u16) -> (r: Result<Instruction, Chip8Error>)
        ensures
            match decode_word(value) {
                Some(i) => r == Ok::<Instruction, Chip8Error>(i) && i.wf(),
                None => r is Err && r->Err_0.kind() == ErrorKind::Decode(value),
            },
    {
        let (n1, _n2, _n3, n4) = Self::get_nibbles(value);
        let nnn = Self::get_nnn(value);
        let x = Self::get_x(value);
        let y = Self::get_y(value);
        let n = Self::get_n(value);
        let kk = Self::get_kk(value);
        let unknown = Chip8Error::from_kind(ErrorKind::Decode(value));
        match n1 {
            0 => if value == 0x00E0 {
                Ok(Instruction::I00E0)
            } else if value == 0x00EE {
                Ok(Instruction::I00EE)
            } else {
                Ok(Instruction::I0NNN(nnn))
            },
            1 => Ok(Instruction::I1NNN(nnn)),
            2 => Ok(Instruction::I2NNN(nnn)),
            3 => Ok(Instruction::I3XKK(x, kk)),
            4 => Ok(Instruction::I4XKK(x, kk)),
            5 => if n4 == 0 { Ok(Instruction::I5XY0(x, y)) } else { Err(unknown) },
            6 => Ok(Instruction::I6XKK(x, kk)),
            7 => Ok(Instruction::I7XKK(x, kk)),
            8 => match n4 {
                0 => Ok(Instruction::I8XY0(x, y)),
                1 => Ok(Instruction::I8XY1(x, y)),
                2 => Ok(Instruction::I8XY2(x, y)),
                3 => Ok(Instruction::I8XY3(x, y)),
                4 => Ok(Instruction::I8XY4(x, y)),
                5 => Ok(Instruction::I8XY5(x, y)),
                6 => Ok(Instruction::I8XY6(x, y)),
                7 => Ok(Instruction::I8XY7(x, y)),
                0xE => Ok(Instruction::I8XYE(x, y)),
                _ => Err(unknown),
            },
            9 => if n4 == 0 { Ok(Instruction::I9XY0(x, y)) } else { Err(unknown) },
            0xA => Ok(Instruction::IANNN(nnn)),
            0xB => Ok(Instruction::IBNNN(nnn)),
            0xC => Ok(Instruction::ICXKK(x, kk)),
            0xD => Ok(Instruction::IDXYN(x, y, n)),
            0xE => match kk {
                0x9E => Ok(Instruction::IEX9E(x)),
                0xA1 => Ok(Instruction::IEXA1(x)),
                _ => Err(unknown),
            },
            _ => match kk {
                0x07 => Ok(Instruction::IFX07(x)),
                0x0A => Ok(Instruction::IFX0A(x)),
                0x15 => Ok(Instruction::IFX15(x)),
                0x18 => Ok(Instruction::IFX18(x)),
                0x1E => Ok(Instruction::IFX1E(x)),
                0x29 => Ok(Instruction::IFX29(x)),
                0x33 => Ok(Instruction::IFX33(x)),
                0x55 => Ok(Instruction::IFX55(x)),
                0x65 => Ok(Instruction::IFX65(x)),
                _ => Err(unknown),
            },
        }
    }

    /// The instruction word for this instruction: each operand in its bit field.
    pub fn to_word(&self) -> (r: u16)
        requires
            self.wf(),
        ensures
            r as int == encode_word(*self),
    {
        match *self {
            Instruction::I0NNN(a) => a,
            Instruction::I00E0 => 0x00E0,
            Instruction::I00EE => 0x00EE,
            Instruction::I1NNN(a) => 0x1000 + a,
            Instruction::I2NNN(a) => 0x2000 + a,
            Instruction::I3XKK(x, kk) => 0x3000 + x as u16 * 256 + kk as u16,
            Instruction::I4XKK(x, kk) => 0x4000 + x as u16 * 256 + kk as u16,
            Instruction::I5XY0(x, y) => 0x5000 + x as u16 * 256 + y as u16 * 16,
            Instruction::I6XKK(x, kk) => 0x6000 + x as u16 * 256 + kk as u16,
            Instruction::I7XKK(x, kk) => 0x7000 + x as u16 * 256 + kk as u16,
            Instruction::I8XY0(x, y) => 0x8000 + x as u16 * 256 + y as u16 * 16,
            Instruction::I8XY1(x, y) => 0x8001 + x as u16 * 256 + y as u16 * 16,
            Instruction::I8XY2(x, y) => 0x8002 + x as u16 * 256 + y as u16 * 16,
            Instruction::I8XY3(x, y) => 0x8003 + x as u16 * 256 + y as u16 * 16,
            Instruction::I8XY4(x, y) => 0x8004 + x as u16 * 256 + y as u16 * 16,
            Instruction::I8XY5(x, y) => 0x8005 + x as u16 * 256 + y as u16 * 16,
            Instruction::I8XY6(x, y) => 0x8006 + x as u16 * 256 + y as u16 * 16,
            Instruction::I8XY7(x, y) => 0x8007 + x as u16 * 256 + y as u16 * 16,
            Instruction::I8XYE(x, y) => 0x800E + x as u16 * 256 + y as u16 * 16,
            Instruction::I9XY0(x, y) => 0x9000 + x as u16 * 256 + y as u16 * 16,
            Instruction::IANNN(a) => 0xA000 + a,
            Instruction::IBNNN(a) => 0xB000 + a,
            Instruction::ICXKK(x, kk) => 0xC000 + x as u16 * 256 + kk as u16,
            Instruction::IDXYN(x, y, n) => 0xD000 + x as u16 * 256 + y as u16 * 16 + n as u16,
            Instruction::IEX9E(x) => 0xE09E + x as u16 * 256,
            Instruction::IEXA1(x) => 0xE0A1 + x as u16 * 256,
            Instruction::IFX07(x) => 0xF007 + x as u16 * 256,
            Instruction::IFX0A(x) => 0xF00A + x as u16 * 256,
            Instruction::IFX15(x) => 0xF015 + x as u16 * 256,
            Instruction::IFX18(x) => 0xF018 + x as u16 * 256,
            Instruction::IFX1E(x) => 0xF01E + x as u16 * 256,
            Instruction::IFX29(x) => 0xF029 + x as u16 * 256,
            Instruction::IFX33(x) => 0xF033 + x as u16 * 256,
            Instruction::IFX55(x) => 0xF055 + x as u16 * 256,
            Instruction::IFX65(x) => 0xF065 + x as u16 * 256,
        }
    }
}

/// Decoding a word and encoding the instruction it yields gives the word back:
/// every operand is read from, and written to, the same bit positions.
pub proof fn lemma_decode_encode(w: u16)
    ensures
        decode_word(w) matches Some(i) ==> encode_word(i) == w as int,
{
    let top = w / 4096;
    assert(w as int == top * 4096 + nib_x(w) * 256 + nib_y(w) * 16 + nib_n(w));
    assert(byte_kk(w) == nib_y(w) * 16 + nib_n(w));
    assert(addr_nnn(w) == nib_x(w) * 256 + nib_y(w) * 16 + nib_n(w));
}

/// The fields of a word assembled from four nibbles are those nibbles.
proof fn lemma_word_fields(top: int, x: int, y: int, n: int)
    requires
        0 <= top < 16,
        0 <= x < 16,
        0 <= y < 16,
        0 <= n < 16,
    ensures
        ({
            let w = (top * 4096 + x * 256 + y * 16 + n) as u16;
            &&& w as int == top * 4096 + x * 256 + y * 16 + n
            &&& w / 4096 == top
            &&& nib_x(w) == x
            &&& nib_y(w) == y
            &&& nib_n(w) == n
            &&& byte_kk(w) == y * 16 + n
            &&& addr_nnn(w) == x * 256 + y * 16 + n
        }),
{
    let w = top * 4096 + x * 256 + y * 16 + n;
    lemma_fundamental_div_mod_converse(w, 4096, top, x * 256 + y * 16 + n);
    lemma_fundamental_div_mod_converse(w, 256, top * 16 + x, y * 16 + n);
    lemma_fundamental_div_mod_converse(top * 16 + x, 16, top, x);
    lemma_fundamental_div_mod_converse(w, 16, top * 256 + x * 16 + y, n);
    lemma_fundamental_div_mod_converse(top * 256 + x * 16 + y, 16, top * 16 + x, y);
}

/// Encoding a well-formed instruction and decoding the word gives the
/// instruction back, except for the two legacy calls whose words are those of
/// screen clear and return.
#[verifier::rlimit(40)]
pub proof fn lemma_encode_decode(i: Instruction)
    requires
        i.wf(),
        !(i matches Instruction::I0NNN(a) && (a == 0x00E0 || a == 0x00EE)),
    ensures
        0 <= encode_word(i) < 0x10000,
        decode_word(encode_word(i) as u16) == Some(i),
{
    match i {
        Instruction::I0NNN(a) | Instruction::I1NNN(a) | Instruction::I2NNN(a)
        | Instruction::IANNN(a) | Instruction::IBNNN(a) => {
            lemma_word_fields(encode_word(i) / 4096, a as int / 256, a as int / 16 % 16, a as int % 16);
        },
        Instruction::I00E0 | Instruction::I00EE => {
            lemma_word_fields(0, 0, 0xE, encode_word(i) % 16);
        },
        Instruction::I3XKK(x, kk) | Instruction::I4XKK(x, kk) | Instruction::I6XKK(x, kk)
        | Instruction::I7XKK(x, kk) | Instruction::ICXKK(x, kk) => {
            lemma_word_fields(encode_word(i) / 4096, x as int, kk as int / 16, kk as int % 16);
        },
        Instruction::IDXYN(x, y, n) => {
            lemma_word_fields(0xD, x as int, y as int, n as int);
        },
        Instruction::I5XY0(x, y) | Instruction::I8XY0(x, y) | Instruction::I8XY1(x, y)
        | Instruction::I8XY2(x, y) | Instruction::I8XY3(x, y) | Instruction::I8XY4(x, y)
        | Instruction::I8XY5(x, y) | Instruction::I8XY6(x, y) | Instruction::I8XY7(x, y)
        | Instruction::I8XYE(x, y) | Instruction::I9XY0(x, y) => {
            lemma_word_fields(encode_word(i) / 4096, x as int, y as int, encode_word(i) % 16);
        },
        Instruction::IEX9E(x) | Instruction::IEXA1(x) | Instruction::IFX07(x)
        | Instruction::IFX0A(x) | Instruction::IFX15(x) | Instruction::IFX18(x)
        | Instruction::IFX1E(x) | Instruction::IFX29(x) | Instruction::IFX33(x)
        | Instruction::IFX55(x) | Instruction::IFX65(x) => {
            lemma_word_fields(encode_word(i) / 4096, x as int, encode_word(i) % 256 / 16, encode_word(i) % 16);
        },
    }
}

/// A word outside the recognised set is exactly one that `from_word` rejects,
/// and the rejection carries the word.
pub proof fn lemma_unknown_rejected(w: u16)
    ensures
        decode_word(w) is None <==> (
            (w / 4096 == 5 && nib_n(w) != 0)
            || (w / 4096 == 8 && !(nib_n(w) <= 7 || nib_n(w) == 0xE))
            || (w / 4096 == 9 && nib_n(w) != 0)
            || (w / 4096 == 0xE && byte_kk(w) != 0x9E && byte_kk(w) != 0xA1)
            || (w / 4096 == 0xF && !(byte_kk(w) == 0x07 || byte_kk(w) == 0x0A
                || byte_kk(w) == 0x15 || byte_kk(w) == 0x18 || byte_kk(w) == 0x1E
                || byte_kk(w) == 0x29 || byte_kk(w) == 0x33 || byte_kk(w) == 0x55
                || byte_kk(w) == 0x65))),
{
}


} // verus!
