//! Instruction decode: a two-byte instruction is split into typed operand
//! fields. The leading nibble selects the opcode family; the remaining
//! fields (`x`, `y`, `n`, `kk`, `nnn`) are reused across families.
//! Both the interpreter and the disassembler decode through this one type.
use vstd::prelude::*;

verus! {

/// A fetched two-byte instruction, high byte first.
pub struct OpCode {
    pub higher_byte: u8,
    pub lower_byte: u8,
}

/// Leading nibble of the instruction: the opcode family, 0x0 to 0xF.
pub open spec fn op_family(hi: u8) -> u8 {
    hi / 16
}

/// Second nibble: a register index, 0 to 15.
pub open spec fn op_x(hi: u8) -> u8 {
    hi % 16
}

/// Third nibble: a register index, 0 to 15.
pub open spec fn op_y(lo: u8) -> u8 {
    lo / 16
}

/// Fourth nibble: a 4-bit immediate.
pub open spec fn op_n(lo: u8) -> u8 {
    lo % 16
}

/// Low 12 bits across both bytes: an address or 12-bit immediate.
pub open spec fn op_nnn(hi: u8, lo: u8) -> u16 {
    ((op_x(hi) as u16) * 256 + (lo as u16)) as u16
}

/// The nibble fields are below 16, so `nnn` is below 4096.
pub proof fn lemma_field_bounds(hi: u8, lo: u8)
    ensures
        op_family(hi) < 16,
        op_x(hi) < 16,
        op_y(lo) < 16,
        op_n(lo) < 16,
        op_nnn(hi, lo) < 4096,
{
}

/// The shift and mask forms of the nibble fields equal their place-value
/// forms.
pub proof fn lemma_field_bits(hi: u8, lo: u8)
    ensures
        hi >> 4 == op_family(hi),
        hi & 0xF == op_x(hi),
        lo >> 4 == op_y(lo),
        lo & 0xF == op_n(lo),
{
    assert(hi >> 4 == hi / 16 && (hi & 0xF) == hi % 16 && lo >> 4 == lo / 16 && (lo & 0xF) == lo
        % 16) by (bit_vector);
}

impl OpCode {
    /// Opcode family: the leading nibble.
    pub fn family(&self) -> (r: u8)
        ensures
            r == op_family(self.higher_byte),
            r < 16,
    {
        proof { lemma_field_bits(self.higher_byte, self.lower_byte); }
        self.higher_byte >> 4
    }

    /// The `x` operand: second nibble, a register index.
    pub fn get_x(&self) -> (r: u8)
        ensures
            r == op_x(self.higher_byte),
            r < 16,
    {
        proof { lemma_field_bits(self.higher_byte, self.lower_byte); }
        self.higher_byte & 0xF
    }

    /// The `y` operand: third nibble, a register index.
    pub fn get_y(&self) -> (r: u8)
        ensures
            r == op_y(self.lower_byte),
            r < 16,
    {
        proof { lemma_field_bits(self.higher_byte, self.lower_byte); }
        self.lower_byte >> 4
    }

    /// The `n` operand: fourth nibble, a 4-bit immediate.
    pub fn get_n(&self) -> (r: u8)
        ensures
            r == op_n(self.lower_byte),
            r < 16,
    {
        proof { lemma_field_bits(self.higher_byte, self.lower_byte); }
        self.lower_byte & 0xF
    }

    /// The `kk` operand: the whole low byte, an 8-bit immediate.
    pub fn get_kk(&self) -> (r: u8)
        ensures
            r == self.lower_byte,
    {
        self.lower_byte
    }

    /// The `nnn` operand: the low 12 bits, an address or 12-bit immediate.
    pub fn get_nnn(&self) -> (r: u16)
        ensures
            r == op_nnn(self.higher_byte, self.lower_byte),
            r < 4096,
    {
        proof { lemma_field_bits(self.higher_byte, self.lower_byte); }
        ((self.higher_byte & 0xF) as u16) * 256 + (self.lower_byte as u16)
    }
}

} // verus!
