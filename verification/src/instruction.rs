//! The instruction set and its decoder.
//!
//! An opcode is a 16-bit big-endian word. Written as four nibbles `a b c d`
//! from the most significant down, it carries the fields `X = b`, `Y = c`,
//! `N = d`, `NN = c d` and `NNN = b c d`. Decoding is pure: the same word
//! always gives the same instruction, and every word that matches no pattern
//! gives [`Instruction::Invalid`].

use vstd::prelude::*;

verus! {

/// One decoded instruction. `x` and `y` name registers, `n` is a nibble,
/// `nn` a byte and `nnn` a 12-bit address, all taken from the opcode word.
#[derive(Debug, Clone, Copy, PartialEq, Eq, Structural)]
pub enum Instruction {
    /// Any word that is not an instruction. 0NNN, the call into native
    /// machine code, is deliberately among them.
    Invalid,
    /// 00E0: clear the screen.
    Cls,
    /// 00EE: return from a subroutine.
    Rts,
    /// 1NNN: jump to NNN.
    Jump { nnn: u16 },
    /// 2NNN: call the subroutine at NNN.
    Call { nnn: u16 },
    /// 3XNN: skip the next instruction if VX equals NN.
    SkipEqConst { x: u8, nn: u8 },
    /// 4XNN: skip the next instruction if VX differs from NN.
    SkipNeqConst { x: u8, nn: u8 },
    /// 5XY0: skip the next instruction if VX equals VY.
    SkipEq { x: u8, y: u8 },
    /// 6XNN: set VX to NN.
    MovConst { x: u8, nn: u8 },
    /// 7XNN: add NN to VX, leaving VF alone.
    AddConst { x: u8, nn: u8 },
    /// 8XY0: set VX to VY.
    Mov { x: u8, y: u8 },
    /// 8XY1: set VX to VX or VY, bit by bit.
    Or { x: u8, y: u8 },
    /// 8XY2: set VX to VX and VY, bit by bit.
    And { x: u8, y: u8 },
    /// 8XY3: set VX to VX xor VY, bit by bit.
    Xor { x: u8, y: u8 },
    /// 8XY4: add VY to VX; VF becomes the carry.
    Add { x: u8, y: u8 },
    /// 8XY5: subtract VY from VX; VF is 1 when VX was the larger.
    SubXY { x: u8, y: u8 },
    /// 8XY6: shift VX right by one; VF becomes the bit shifted out.
    RightShift { x: u8, y: u8 },
    /// 8XY7: set VX to VY minus VX; VF is 1 when VY was the larger.
    SubYX { x: u8, y: u8 },
    /// 8XYE: shift VX left by one; VF becomes the top bit of the old VX.
    LeftShift { x: u8, y: u8 },
    /// 9XY0: skip the next instruction if VX differs from VY.
    SkipNeq { x: u8, y: u8 },
    /// ANNN: set I to NNN.
    MovI { nnn: u16 },
    /// BNNN: jump to NNN plus V0.
    JumpIndexed { nnn: u16 },
    /// CXNN: set VX to a random byte and NN.
    Rand { x: u8, nn: u8 },
    /// DXYN: draw the N-row sprite at I to the screen at (VX, VY); VF
    /// becomes 1 if a lit pixel went dark.
    Draw { x: u8, y: u8, n: u8 },
    /// EX9E: skip the next instruction if the key named by VX is down.
    SkipKeyEq { x: u8 },
    /// EXA1: skip the next instruction if the key named by VX is not down.
    SkipKeyNeq { x: u8 },
    /// FX07: set VX to the delay timer.
    GetDelayTimer { x: u8 },
    /// FX0A: wait for a key and store it in VX.
    WaitKey { x: u8 },
    /// FX15: set the delay timer to VX.
    SetDelayTimer { x: u8 },
    /// FX18: set the sound timer to VX.
    SetSoundTimer { x: u8 },
    /// FX1E: add VX to I, leaving VF alone.
    AddI { x: u8 },
    /// FX29: point I at the font glyph of the low nibble of VX.
    SetFontI { x: u8 },
    /// FX33: store the three decimal digits of VX at I, I+1 and I+2.
    BCD { x: u8 },
    /// FX55: store V0..=VX at I and upwards; I stays.
    RegDump { x: u8 },
    /// FX65: load V0..=VX from I and upwards; I stays.
    RegLoad { x: u8 },
}

/// The most significant nibble of an opcode, which selects its family.
pub open spec fn op_family(op: u16) -> int {
    op as int / 0x1000
}

/// The field X: the second nibble.
pub open spec fn op_x(op: u16) -> u8 {
    ((op as int / 0x100) % 0x10) as u8
}

/// The field Y: the third nibble.
pub open spec fn op_y(op: u16) -> u8 {
    ((op as int / 0x10) % 0x10) as u8
}

/// The field N: the last nibble.
pub open spec fn op_n(op: u16) -> u8 {
    (op as int % 0x10) as u8
}

/// The field NN: the low byte.
pub open spec fn op_nn(op: u16) -> u8 {
    (op as int % 0x100) as u8
}

/// The field NNN: the low twelve bits.
pub open spec fn op_nnn(op: u16) -> u16 {
    (op as int % 0x1000) as u16
}

/// The arithmetic family 8XY_, selected by the last nibble.
pub open spec fn decode_arithmetic(op: u16) -> Instruction {
    let x = op_x(op);
    let y = op_y(op);
    let n = op_n(op);
    if n == 0x0 {
        Instruction::Mov { x, y }
    } else if n == 0x1 {
        Instruction::Or { x, y }
    } else if n == 0x2 {
        Instruction::And { x, y }
    } else if n == 0x3 {
        Instruction::Xor { x, y }
    } else if n == 0x4 {
        Instruction::Add { x, y }
    } else if n == 0x5 {
        Instruction::SubXY { x, y }
    } else if n == 0x6 {
        Instruction::RightShift { x, y }
    } else if n == 0x7 {
        Instruction::SubYX { x, y }
    } else if n == 0xE {
        Instruction::LeftShift { x, y }
    } else {
        Instruction::Invalid
    }
}

/// The family FX__ of timer, key, index and memory instructions, selected by
/// the low byte.
pub open spec fn decode_misc(op: u16) -> Instruction {
    let x = op_x(op);
    let nn = op_nn(op);
    if nn == 0x07 {
        Instruction::GetDelayTimer { x }
    } else if nn == 0x0A {
        Instruction::WaitKey { x }
    } else if nn == 0x15 {
        Instruction::SetDelayTimer { x }
    } else if nn == 0x18 {
        Instruction::SetSoundTimer { x }
    } else if nn == 0x1E {
        Instruction::AddI { x }
    } else if nn == 0x29 {
        Instruction::SetFontI { x }
    } else if nn == 0x33 {
        Instruction::BCD { x }
    } else if nn == 0x55 {
        Instruction::RegDump { x }
    } else if nn == 0x65 {
        Instruction::RegLoad { x }
    } else {
        Instruction::Invalid
    }
}

/// What an opcode word means: the whole instruction table.
pub open spec fn decode_spec(op: u16) -> Instruction {
    let family = op_family(op);
    let x = op_x(op);
    let y = op_y(op);
    let n = op_n(op);
    let nn = op_nn(op);
    let nnn = op_nnn(op);
    if family == 0x0 {
        if op == 0x00E0 {
            Instruction::Cls
        } else if op == 0x00EE {
            Instruction::Rts
        } else {
            Instruction::Invalid
        }
    } else if family == 0x1 {
        Instruction::Jump { nnn }
    } else if family == 0x2 {
        Instruction::Call { nnn }
    } else if family == 0x3 {
        Instruction::SkipEqConst { x, nn }
    } else if family == 0x4 {
        Instruction::SkipNeqConst { x, nn }
    } else if family == 0x5 {
        if n == 0 {
            Instruction::SkipEq { x, y }
        } else {
            Instruction::Invalid
        }
    } else if family == 0x6 {
        Instruction::MovConst { x, nn }
    } else if family == 0x7 {
        Instruction::AddConst { x, nn }
    } else if family == 0x8 {
        decode_arithmetic(op)
    } else if family == 0x9 {
        if n == 0 {
            Instruction::SkipNeq { x, y }
        } else {
            Instruction::Invalid
        }
    } else if family == 0xA {
        Instruction::MovI { nnn }
    } else if family == 0xB {
        Instruction::JumpIndexed { nnn }
    } else if family == 0xC {
        Instruction::Rand { x, nn }
    } else if family == 0xD {
        Instruction::Draw { x, y, n }
    } else if family == 0xE {
        if nn == 0x9E {
            Instruction::SkipKeyEq { x }
        } else if nn == 0xA1 {
            Instruction::SkipKeyNeq { x }
        } else {
            Instruction::Invalid
        }
    } else {
        decode_misc(op)
    }
}

/// The number that a run of nibbles spells, most significant first.
pub open spec fn nibbles_value(nibbles: Seq<u16>) -> int
    decreases nibbles.len(),
{
    if nibbles.len() == 0 {
        0
    } else {
        16 * nibbles_value(nibbles.drop_last()) + nibbles.last()
    }
}

/// Sixteen to the power `k`.
spec fn sixteen_to(k: nat) -> int
    decreases k,
{
    if k == 0 {
        1
    } else {
        16 * sixteen_to((k - 1) as nat)
    }
}

/// A run of `k` nibbles spells a number below sixteen to the `k`.
proof fn lemma_nibbles_value_bound(nibbles: Seq<u16>)
    requires
        forall|i: int| 0 <= i < nibbles.len() ==> nibbles[i] < 16,
    ensures
        0 <= nibbles_value(nibbles) < sixteen_to(nibbles.len()),
    decreases nibbles.len(),
{
    if nibbles.len() > 0 {
        lemma_nibbles_value_bound(nibbles.drop_last());
    }
}

/// Three nibbles spell `256 a + 16 b + c`, and two spell `16 a + b`.
proof fn lemma_nibbles_value_short(nibbles: Seq<u16>)
    ensures
        nibbles.len() == 2 ==> nibbles_value(nibbles) == 16 * nibbles[0] + nibbles[1],
        nibbles.len() == 3 ==> nibbles_value(nibbles) == 256 * nibbles[0] + 16 * nibbles[1]
            + nibbles[2],
{
    if nibbles.len() == 2 {
        let one = nibbles.drop_last();
        assert(nibbles_value(one.drop_last()) == 0);
        assert(nibbles_value(one) == nibbles[0]);
    } else if nibbles.len() == 3 {
        let two = nibbles.drop_last();
        let one = two.drop_last();
        assert(nibbles_value(one.drop_last()) == 0);
        assert(nibbles_value(one) == nibbles[0]);
        assert(nibbles_value(two) == 16 * nibbles[0] + nibbles[1]);
    }
}

impl Instruction {
    /// Register indices and the row count are nibbles, and an address has
    /// twelve bits. Every decoded instruction is of this shape.
    pub open spec fn well_formed(self) -> bool {
        match self {
            Instruction::Invalid | Instruction::Cls | Instruction::Rts => true,
            Instruction::Jump { nnn }
            | Instruction::Call { nnn }
            | Instruction::MovI { nnn }
            | Instruction::JumpIndexed { nnn } => nnn < 0x1000,
            Instruction::SkipEqConst { x, nn }
            | Instruction::SkipNeqConst { x, nn }
            | Instruction::MovConst { x, nn }
            | Instruction::AddConst { x, nn }
            | Instruction::Rand { x, nn } => x < 16,
            Instruction::SkipEq { x, y }
            | Instruction::Mov { x, y }
            | Instruction::Or { x, y }
            | Instruction::And { x, y }
            | Instruction::Xor { x, y }
            | Instruction::Add { x, y }
            | Instruction::SubXY { x, y }
            | Instruction::RightShift { x, y }
            | Instruction::SubYX { x, y }
            | Instruction::LeftShift { x, y }
            | Instruction::SkipNeq { x, y } => x < 16 && y < 16,
            Instruction::Draw { x, y, n } => x < 16 && y < 16 && n < 16,
            Instruction::SkipKeyEq { x }
            | Instruction::SkipKeyNeq { x }
            | Instruction::GetDelayTimer { x }
            | Instruction::WaitKey { x }
            | Instruction::SetDelayTimer { x }
            | Instruction::SetSoundTimer { x }
            | Instruction::AddI { x }
            | Instruction::SetFontI { x }
            | Instruction::BCD { x }
            | Instruction::RegDump { x }
            | Instruction::RegLoad { x } => x < 16,
        }
    }

    /// Decodes one opcode word.
    pub fn decode(op_code: u16) -> (instruction: Instruction)
        ensures
            instruction == decode_spec(op_code),
            instruction.well_formed(),
    {
        let nibbles = Instruction::code_to_nibble_array(op_code);
        let fields = nibbles.as_slice();
        proof {
            lemma_nibbles_value_short(fields@.subrange(1, 4));
            lemma_nibbles_value_short(fields@.subrange(2, 4));
        }

        if nibbles[0] == 0 {
            if nibbles[1] == 0 && nibbles[2] == 0xE && nibbles[3] == 0 {
                return Instruction::Cls;
            } else if nibbles[1] == 0 && nibbles[2] == 0xE && nibbles[3] == 0xE {
                return Instruction::Rts;
            } else {
                return Instruction::Invalid;
            }
        }
        if nibbles[0] == 1 {
            return Instruction::Jump {
                nnn: Instruction::combine_nibbles(vstd::slice::slice_subrange(fields, 1, 4)),
            };
        }
        if nibbles[0] == 2 {
            return Instruction::Call {
                nnn: Instruction::combine_nibbles(vstd::slice::slice_subrange(fields, 1, 4)),
            };
        }
        if nibbles[0] == 3 {
            return Instruction::SkipEqConst {
                x: nibbles[1] as u8,
                nn: Instruction::combine_nibbles(vstd::slice::slice_subrange(fields, 2, 4)) as u8,
            };
        }
        if nibbles[0] == 4 {
            return Instruction::SkipNeqConst {
                x: nibbles[1] as u8,
                nn: Instruction::combine_nibbles(vstd::slice::slice_subrange(fields, 2, 4)) as u8,
            };
        }
        if nibbles[0] == 5 {
            if nibbles[3] != 0 {
                return Instruction::Invalid;
            }
            return Instruction::SkipEq { x: nibbles[1] as u8, y: nibbles[2] as u8 };
        }
        if nibbles[0] == 6 {
            return Instruction::MovConst {
                x: nibbles[1] as u8,
                nn: Instruction::combine_nibbles(vstd::slice::slice_subrange(fields, 2, 4)) as u8,
            };
        }
        if nibbles[0] == 7 {
            return Instruction::AddConst {
                x: nibbles[1] as u8,
                nn: Instruction::combine_nibbles(vstd::slice::slice_subrange(fields, 2, 4)) as u8,
            };
        }
        if nibbles[0] == 8 {
            let x = nibbles[1] as u8;
            let y = nibbles[2] as u8;
            if nibbles[3] == 0 {
                return Instruction::Mov { x, y };
            }
            if nibbles[3] == 1 {
                return Instruction::Or { x, y };
            }
            if nibbles[3] == 2 {
                return Instruction::And { x, y };
            }
            if nibbles[3] == 3 {
                return Instruction::Xor { x, y };
            }
            if nibbles[3] == 4 {
                return Instruction::Add { x, y };
            }
            if nibbles[3] == 5 {
                return Instruction::SubXY { x, y };
            }
            if nibbles[3] == 6 {
                return Instruction::RightShift { x, y };
            }
            if nibbles[3] == 7 {
                return Instruction::SubYX { x, y };
            }
            if nibbles[3] == 0xE {
                return Instruction::LeftShift { x, y };
            }
        }
        if nibbles[0] == 9 {
            if nibbles[3] == 0 {
                return Instruction::SkipNeq { x: nibbles[1] as u8, y: nibbles[2] as u8 };
            }
        }
        if nibbles[0] == 0xA {
            return Instruction::MovI {
                nnn: Instruction::combine_nibbles(vstd::slice::slice_subrange(fields, 1, 4)),
            };
        }
        if nibbles[0] == 0xB {
            return Instruction::JumpIndexed {
                nnn: Instruction::combine_nibbles(vstd::slice::slice_subrange(fields, 1, 4)),
            };
        }
        if nibbles[0] == 0xC {
            return Instruction::Rand {
                x: nibbles[1] as u8,
                nn: Instruction::combine_nibbles(vstd::slice::slice_subrange(fields, 2, 4)) as u8,
            };
        }
        if nibbles[0] == 0xD {
            return Instruction::Draw {
                x: nibbles[1] as u8,
                y: nibbles[2] as u8,
                n: nibbles[3] as u8,
            };
        }
        if nibbles[0] == 0xE {
            let x = nibbles[1] as u8;
            if nibbles[2] == 9 && nibbles[3] == 0xE {
                return Instruction::SkipKeyEq { x };
            }
            if nibbles[2] == 0xA && nibbles[3] == 1 {
                return Instruction::SkipKeyNeq { x };
            }
        }
        if nibbles[0] == 0xF {
            let x = nibbles[1] as u8;
            if nibbles[2] == 0 && nibbles[3] == 7 {
                return Instruction::GetDelayTimer { x };
            }
            if nibbles[2] == 0 && nibbles[3] == 0xA {
                return Instruction::WaitKey { x };
            }
            if nibbles[2] == 1 && nibbles[3] == 5 {
                return Instruction::SetDelayTimer { x };
            }
            if nibbles[2] == 1 && nibbles[3] == 8 {
                return Instruction::SetSoundTimer { x };
            }
            if nibbles[2] == 1 && nibbles[3] == 0xE {
                return Instruction::AddI { x };
            }
            if nibbles[2] == 2 && nibbles[3] == 9 {
                return Instruction::SetFontI { x };
            }
            if nibbles[2] == 3 && nibbles[3] == 3 {
                return Instruction::BCD { x };
            }
            if nibbles[2] == 5 && nibbles[3] == 5 {
                return Instruction::RegDump { x };
            }
            if nibbles[2] == 6 && nibbles[3] == 5 {
                return Instruction::RegLoad { x };
            }
        }
        Instruction::Invalid
    }

    /// Splits an opcode into its four nibbles, most significant first.
    pub fn code_to_nibble_array(op_code: u16) -> (nibbles: [u16; 4])
        ensures
            nibbles@[0] == op_family(op_code),
            nibbles@[1] == op_x(op_code),
            nibbles@[2] == op_y(op_code),
            nibbles@[3] == op_n(op_code),
    {
        assert((op_code & 0xF000) >> 12 == op_code / 0x1000) by (bit_vector);
        assert((op_code & 0x0F00) >> 8 == (op_code / 0x100) % 0x10) by (bit_vector);
        assert((op_code & 0x00F0) >> 4 == (op_code / 0x10) % 0x10) by (bit_vector);
        assert(op_code & 0x000F == op_code % 0x10) by (bit_vector);
        [
            (op_code & 0xF000) >> 12,
            (op_code & 0x0F00) >> 8,
            (op_code & 0x00F0) >> 4,
            op_code & 0x000F,
        ]
    }

    /// Joins up to four nibbles, most significant first, into one number.
    pub fn combine_nibbles(nibbles: &[u16]) -> (combined: u16)
        requires
            nibbles@.len() <= 4,
            forall|i: int| 0 <= i < nibbles@.len() ==> nibbles@[i] < 16,
        ensures
            combined == nibbles_value(nibbles@),
    {
        let mut combined: u16 = 0;
        let mut i: usize = 0;
        while i < nibbles.len()
            invariant
                i <= nibbles@.len() <= 4,
                forall|k: int| 0 <= k < nibbles@.len() ==> nibbles@[k] < 16,
                combined == nibbles_value(nibbles@.take(i as int)),
            decreases nibbles@.len() - i,
        {
            let nibble = nibbles[i];
            proof {
                let done = nibbles@.take(i as int);
                let next = nibbles@.take(i + 1);
                lemma_nibbles_value_bound(done);
                reveal_with_fuel(sixteen_to, 4);
                assert(combined < 0x1000);
                assert(next.drop_last() =~= done);
                assert(next.last() == nibble);
                assert((combined << 4) | nibble == 16 * combined + nibble) by (bit_vector)
                    requires
                        combined < 0x1000,
                        nibble < 16,
                ;
            }
            combined = (combined << 4) | nibble;
            i += 1;
        }
        assert(nibbles@.take(i as int) =~= nibbles@);
        combined
    }
}

} // verus!
