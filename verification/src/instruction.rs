//! Addressing modes, their byte-width contributions, and the per-tag
//! addressing-mode table.

use crate::classify::OperandTag;
use vstd::prelude::*;

verus! {

/// The hardware-level access pattern implied by a resolved operand tag. The
/// `bool` of `Immediate` and `Direct` says whether the operand takes two
/// bytes rather than one.
#[derive(Clone, Copy, Debug, PartialEq, Eq, Structural)]
pub enum AddressingMode {
    Immediate(bool),
    Direct(bool),
    RegisterDirect,
    RegisterIndirect,
    Indexed,
    Implied,
}

/// A mnemonic together with one operand list, as handed to the cycle-cost
/// matcher: the operands are resolved tag names, not raw tokens.
pub struct Instruction {
    pub name: String,
    pub operands: Vec<String>,
}

/// The bytes an operand in this addressing mode contributes to the
/// instruction length.
pub open spec fn bytes_required_spec(m: AddressingMode) -> int {
    match m {
        AddressingMode::Immediate(two) => if two {
            2
        } else {
            1
        },
        AddressingMode::Direct(two) => if two {
            2
        } else {
            1
        },
        AddressingMode::RegisterDirect => 0,
        AddressingMode::RegisterIndirect => 0,
        AddressingMode::Indexed => 0,
        AddressingMode::Implied => 0,
    }
}

impl AddressingMode {
    /// How many operand bytes this addressing mode occupies.
    pub fn bytes_required(&self) -> (r: usize)
        ensures
            r == bytes_required_spec(*self),
    {
        match self {
            AddressingMode::Immediate(is_two) => 1 + (if *is_two {
                1
            } else {
                0
            }),
            AddressingMode::Indexed => 0,
            AddressingMode::Direct(is_two) => 1 + (if *is_two {
                1
            } else {
                0
            }),
            AddressingMode::Implied => 0,
            AddressingMode::RegisterDirect => 0,
            AddressingMode::RegisterIndirect => 0,
        }
    }
}

/// The addressing mode of each operand tag: a total function of the tag, so
/// every tag of the variant table has complete metadata by construction.
pub open spec fn addr_mode_of_spec(tag: OperandTag) -> AddressingMode {
    match tag {
        OperandTag::A => AddressingMode::RegisterDirect,
        OperandTag::Ab => AddressingMode::Implied,
        OperandTag::C => AddressingMode::RegisterDirect,
        OperandTag::Dptr => AddressingMode::RegisterDirect,
        OperandTag::AtADptr => AddressingMode::Indexed,
        OperandTag::AtAPc => AddressingMode::Indexed,
        OperandTag::AtDptr => AddressingMode::RegisterIndirect,
        OperandTag::AtRi => AddressingMode::RegisterIndirect,
        OperandTag::Rn => AddressingMode::RegisterDirect,
        OperandTag::Addr1B => AddressingMode::Direct(false),
        OperandTag::Imm1B => AddressingMode::Immediate(false),
        OperandTag::Addr2B => AddressingMode::Direct(true),
        OperandTag::Imm2B => AddressingMode::Immediate(true),
        OperandTag::Rel1B => AddressingMode::Direct(false),
        OperandTag::Bit => AddressingMode::Direct(false),
    }
}

/// The addressing mode implied by an operand tag.
pub fn addr_mode_of(tag: OperandTag) -> (r: AddressingMode)
    ensures
        r == addr_mode_of_spec(tag),
{
    match tag {
        OperandTag::A => AddressingMode::RegisterDirect,
        OperandTag::Ab => AddressingMode::Implied,
        OperandTag::C => AddressingMode::RegisterDirect,
        OperandTag::Dptr => AddressingMode::RegisterDirect,
        OperandTag::AtADptr => AddressingMode::Indexed,
        OperandTag::AtAPc => AddressingMode::Indexed,
        OperandTag::AtDptr => AddressingMode::RegisterIndirect,
        OperandTag::AtRi => AddressingMode::RegisterIndirect,
        OperandTag::Rn => AddressingMode::RegisterDirect,
        OperandTag::Addr1B => AddressingMode::Direct(false),
        OperandTag::Imm1B => AddressingMode::Immediate(false),
        OperandTag::Addr2B => AddressingMode::Direct(true),
        OperandTag::Imm2B => AddressingMode::Immediate(true),
        OperandTag::Rel1B => AddressingMode::Direct(false),
        OperandTag::Bit => AddressingMode::Direct(false),
    }
}

/// The tags of the addressing-mode table, in its declaration order.
pub open spec fn addr_mode_map_tags() -> Seq<OperandTag> {
    seq![
        OperandTag::A,
        OperandTag::Ab,
        OperandTag::C,
        OperandTag::Rn,
        OperandTag::Dptr,
        OperandTag::AtRi,
        OperandTag::AtDptr,
        OperandTag::Imm1B,
        OperandTag::Imm2B,
        OperandTag::Addr1B,
        OperandTag::Addr2B,
        OperandTag::Rel1B,
        OperandTag::Bit,
        OperandTag::AtADptr,
        OperandTag::AtAPc,
    ]
}

/// The per-tag addressing-mode association as a table: one entry for every
/// operand tag, each paired with its addressing mode.
pub fn get_addr_mode_map() -> (r: Vec<(OperandTag, AddressingMode)>)
    ensures
        r@.map_values(|p: (OperandTag, AddressingMode)| p.0) == addr_mode_map_tags(),
        forall|i: int| 0 <= i < r@.len() ==> (#[trigger] r@[i]).1 == addr_mode_of_spec(r@[i].0),
{
    let mut r: Vec<(OperandTag, AddressingMode)> = Vec::new();
    r.push((OperandTag::A, AddressingMode::RegisterDirect));
    r.push((OperandTag::Ab, AddressingMode::Implied));
    r.push((OperandTag::C, AddressingMode::RegisterDirect));
    r.push((OperandTag::Rn, AddressingMode::RegisterDirect));
    r.push((OperandTag::Dptr, AddressingMode::RegisterDirect));
    r.push((OperandTag::AtRi, AddressingMode::RegisterIndirect));
    r.push((OperandTag::AtDptr, AddressingMode::RegisterIndirect));
    r.push((OperandTag::Imm1B, AddressingMode::Immediate(false)));
    r.push((OperandTag::Imm2B, AddressingMode::Immediate(true)));
    r.push((OperandTag::Addr1B, AddressingMode::Direct(false)));
    r.push((OperandTag::Addr2B, AddressingMode::Direct(true)));
    r.push((OperandTag::Rel1B, AddressingMode::Direct(false)));
    r.push((OperandTag::Bit, AddressingMode::Direct(false)));
    r.push((OperandTag::AtADptr, AddressingMode::Indexed));
    r.push((OperandTag::AtAPc, AddressingMode::Indexed));
    proof {
        assert(r@.map_values(|p: (OperandTag, AddressingMode)| p.0) =~= addr_mode_map_tags());
    }
    r
}

} // verus!
