//! The static disassembler: maps raw instruction bytes to one mnemonic
//! line per two-byte instruction, for developer-facing inspection. It
//! consumes the same decode scheme as the interpreter and has no
//! execution semantics and no state; printing is the host's business.
use vstd::prelude::*;
use vstd::string::StringExecFns;
use crate::opcode::{OpCode, op_family, op_n, op_x, op_y};

verus! {

/// The lowercase hex digit naming a value below 16.
pub open spec fn nibble_text(d: u8) -> Seq<char> {
    if d == 0 {
        "0"@
    } else if d == 1 {
        "1"@
    } else if d == 2 {
        "2"@
    } else if d == 3 {
        "3"@
    } else if d == 4 {
        "4"@
    } else if d == 5 {
        "5"@
    } else if d == 6 {
        "6"@
    } else if d == 7 {
        "7"@
    } else if d == 8 {
        "8"@
    } else if d == 9 {
        "9"@
    } else if d == 10 {
        "a"@
    } else if d == 11 {
        "b"@
    } else if d == 12 {
        "c"@
    } else if d == 13 {
        "d"@
    } else if d == 14 {
        "e"@
    } else {
        "f"@
    }
}

/// A byte as two lowercase hex digits.
pub open spec fn byte_text(b: u8) -> Seq<char> {
    nibble_text(b / 16) + nibble_text(b % 16)
}

/// The mnemonic line for the instruction `(hi, lo)`: operation name,
/// then the operand fields of the shared decode, register operands as a
/// hex digit after `V` and immediates as lowercase hex.
pub open spec fn mnemonic_text(hi: u8, lo: u8) -> Seq<char> {
    let fam = op_family(hi);
    let x = op_x(hi);
    let y = op_y(lo);
    let n = op_n(lo);
    if fam == 0x0 {
        if lo == 0xE0 {
            "CLS"@
        } else if lo == 0xEE {
            "RET"@
        } else {
            "not impl"@
        }
    } else if fam == 0x1 {
        "JMP\t$"@ + byte_text(x) + byte_text(lo)
    } else if fam == 0x2 {
        "CALL\t$"@ + byte_text(x) + byte_text(lo)
    } else if fam == 0x3 {
        "S.EQ\tV"@ + nibble_text(x) + ", "@ + byte_text(lo)
    } else if fam == 0x4 {
        "S.NEQ\tV"@ + nibble_text(x) + ", "@ + byte_text(lo)
    } else if fam == 0x5 {
        "S.EQ\tV"@ + nibble_text(x) + ", v"@ + nibble_text(y)
    } else if fam == 0x6 {
        "MVI\tV"@ + nibble_text(x) + ", "@ + byte_text(lo)
    } else if fam == 0x7 {
        "ADI\tV"@ + nibble_text(x) + ", "@ + byte_text(lo)
    } else if fam == 0x8 {
        if n == 0x0 {
            "MOV\tV"@ + nibble_text(x) + ", V"@ + nibble_text(y)
        } else if n == 0x1 {
            "OR\tV"@ + nibble_text(x) + ", V"@ + nibble_text(y)
        } else if n == 0x2 {
            "AND\tV"@ + nibble_text(x) + ", V"@ + nibble_text(y)
        } else if n == 0x3 {
            "XOR\tV"@ + nibble_text(x) + ", V"@ + nibble_text(y)
        } else if n == 0x4 {
            "ADD\tV"@ + nibble_text(x) + ", V"@ + nibble_text(y)
        } else if n == 0x5 {
            "SUB\tV"@ + nibble_text(x) + ", V"@ + nibble_text(y)
        } else if n == 0x6 {
            "SHR\tV"@ + nibble_text(x)
        } else if n == 0x7 {
            "SUBN\tV"@ + nibble_text(x) + ", V"@ + nibble_text(y)
        } else if n == 0xE {
            "SHL\tV"@ + nibble_text(x)
        } else {
            ""@
        }
    } else if fam == 0x9 {
        "S.NEQ\tV"@ + nibble_text(x) + ", V"@ + nibble_text(y)
    } else if fam == 0xA {
        "MVI\tI, $"@ + nibble_text(x) + byte_text(lo)
    } else if fam == 0xB {
        "JMP\t$"@ + nibble_text(x) + byte_text(lo) + "(V0)"@
    } else if fam == 0xC {
        "RND\tV"@ + nibble_text(x) + ", "@ + byte_text(lo)
    } else if fam == 0xD {
        "DRW\tV"@ + nibble_text(x) + ", V"@ + nibble_text(y) + ", "@ + nibble_text(n)
    } else if fam == 0xE {
        if lo == 0x9E {
            "SKP\tV"@ + nibble_text(x)
        } else if lo == 0xA1 {
            "SKNP\tV"@ + nibble_text(x)
        } else {
            ""@
        }
    } else {
        "not impl"@
    }
}

/// The lowercase hex digit for a value below 16.
fn nibble_str(d: u8) -> (r: &'static str)
    requires
        d < 16,
    ensures
        r@ == nibble_text(d),
{
    match d {
        0 => "0",
        1 => "1",
        2 => "2",
        3 => "3",
        4 => "4",
        5 => "5",
        6 => "6",
        7 => "7",
        8 => "8",
        9 => "9",
        10 => "a",
        11 => "b",
        12 => "c",
        13 => "d",
        14 => "e",
        _ => "f",
    }
}

/// A byte as two lowercase hex digits.
fn byte_str(b: u8) -> (r: String)
    ensures
        r@ == byte_text(b),
{
    let mut s: String = String::from_str(nibble_str(b / 16));
    s.append(nibble_str(b % 16));
    s
}

/// One mnemonic with a `V`-register operand.
fn line_reg(mnemonic: &str, x: u8) -> (r: String)
    requires
        x < 16,
    ensures
        r@ == mnemonic@ + nibble_text(x),
{
    let mut s: String = String::from_str(mnemonic);
    s.append(nibble_str(x));
    s
}

/// One mnemonic with a `V`-register operand and a byte immediate.
fn line_reg_byte(mnemonic: &str, x: u8, b: u8) -> (r: String)
    requires
        x < 16,
    ensures
        r@ == mnemonic@ + nibble_text(x) + ", "@ + byte_text(b),
{
    let mut s: String = String::from_str(mnemonic);
    s.append(nibble_str(x));
    s.append(", ");
    let tail: String = byte_str(b);
    s.append(tail.as_str());
    proof {
        assert(s@ =~= mnemonic@ + nibble_text(x) + ", "@ + byte_text(b));
    }
    s
}

/// One mnemonic with two register operands, the second after `sep`.
fn line_reg_reg(mnemonic: &str, x: u8, sep: &str, y: u8) -> (r: String)
    requires
        x < 16,
        y < 16,
    ensures
        r@ == mnemonic@ + nibble_text(x) + sep@ + nibble_text(y),
{
    let mut s: String = String::from_str(mnemonic);
    s.append(nibble_str(x));
    s.append(sep);
    s.append(nibble_str(y));
    proof {
        assert(s@ =~= mnemonic@ + nibble_text(x) + sep@ + nibble_text(y));
    }
    s
}

/// Disassemble the two-byte instruction at `program_counter` in a raw
/// byte buffer: the mnemonic line for it, and the offset of the next
/// instruction.
pub fn disassemble_chip8(code_buffer: &Vec<u8>, program_counter: usize) -> (r: (String, usize))
    requires
        program_counter + 1 < code_buffer@.len(),
    ensures
        r.0@ == mnemonic_text(
            code_buffer@[program_counter as int],
            code_buffer@[program_counter as int + 1],
        ),
        r.1 == program_counter + 2,
{
    let buffer_len: usize = code_buffer.len();
    proof {
        assert(program_counter + 2 <= buffer_len);
    }
    let hi: u8 = code_buffer[program_counter];
    let lo: u8 = code_buffer[program_counter + 1];
    let op_code = OpCode { higher_byte: hi, lower_byte: lo };
    let fam: u8 = op_code.family();
    let x: u8 = op_code.get_x();
    let y: u8 = op_code.get_y();
    let n: u8 = op_code.get_n();
    let text: String = match fam {
        0x0 => {
            if lo == 0xE0 {
                String::from_str("CLS")
            } else if lo == 0xEE {
                String::from_str("RET")
            } else {
                String::from_str("not impl")
            }
        },
        0x1 => {
            let mut s: String = String::from_str("JMP\t$");
            let a: String = byte_str(x);
            s.append(a.as_str());
            let b: String = byte_str(lo);
            s.append(b.as_str());
            proof {
                assert(s@ =~= "JMP\t$"@ + byte_text(x) + byte_text(lo));
            }
            s
        },
        0x2 => {
            let mut s: String = String::from_str("CALL\t$");
            let a: String = byte_str(x);
            s.append(a.as_str());
            let b: String = byte_str(lo);
            s.append(b.as_str());
            proof {
                assert(s@ =~= "CALL\t$"@ + byte_text(x) + byte_text(lo));
            }
            s
        },
        0x3 => line_reg_byte("S.EQ\tV", x, lo),
        0x4 => line_reg_byte("S.NEQ\tV", x, lo),
        0x5 => line_reg_reg("S.EQ\tV", x, ", v", y),
        0x6 => line_reg_byte("MVI\tV", x, lo),
        0x7 => line_reg_byte("ADI\tV", x, lo),
        0x8 => {
            match n {
                0x0 => line_reg_reg("MOV\tV", x, ", V", y),
                0x1 => line_reg_reg("OR\tV", x, ", V", y),
                0x2 => line_reg_reg("AND\tV", x, ", V", y),
                0x3 => line_reg_reg("XOR\tV", x, ", V", y),
                0x4 => line_reg_reg("ADD\tV", x, ", V", y),
                0x5 => line_reg_reg("SUB\tV", x, ", V", y),
                0x6 => line_reg("SHR\tV", x),
                0x7 => line_reg_reg("SUBN\tV", x, ", V", y),
                0xE => line_reg("SHL\tV", x),
                _ => String::from_str(""),
            }
        },
        0x9 => line_reg_reg("S.NEQ\tV", x, ", V", y),
        0xA => {
            let mut s: String = String::from_str("MVI\tI, $");
            s.append(nibble_str(x));
            let b: String = byte_str(lo);
            s.append(b.as_str());
            proof {
                assert(s@ =~= "MVI\tI, $"@ + nibble_text(x) + byte_text(lo));
            }
            s
        },
        0xB => {
            let mut s: String = String::from_str("JMP\t$");
            s.append(nibble_str(x));
            let b: String = byte_str(lo);
            s.append(b.as_str());
            s.append("(V0)");
            proof {
                assert(s@ =~= "JMP\t$"@ + nibble_text(x) + byte_text(lo) + "(V0)"@);
            }
            s
        },
        0xC => line_reg_byte("RND\tV", x, lo),
        0xD => {
            let mut s: String = line_reg_reg("DRW\tV", x, ", V", y);
            s.append(", ");
            s.append(nibble_str(n));
            proof {
                assert(s@ =~= "DRW\tV"@ + nibble_text(x) + ", V"@ + nibble_text(y) + ", "@
                    + nibble_text(n));
            }
            s
        },
        0xE => {
            if lo == 0x9E {
                line_reg("SKP\tV", x)
            } else if lo == 0xA1 {
                line_reg("SKNP\tV", x)
            } else {
                String::from_str("")
            }
        },
        _ => String::from_str("not impl"),
    };
    (text, program_counter + 2)
}

} // verus!
