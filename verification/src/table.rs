//! The instruction variant table: every supported mnemonic mapped to its
//! ordered list of operand-shape alternatives. The order of the alternatives
//! decides ambiguous lines: the first fully matching shape wins.

use crate::classify::OperandTag as Tag;
use crate::parser::{alts_view, entry_view, table_view, VariantEntry};
use vstd::prelude::*;
use vstd::string::*;

verus! {

pub open spec fn table_rows_a() -> Seq<(Seq<char>, Seq<Seq<Tag>>)> {
    seq![
        ("NOP"@, Seq::<Seq<Tag>>::empty()),
        ("AJMP"@, seq![seq![Tag::Addr1B]]),
        ("RR"@, seq![seq![Tag::A]]),
        (
            "INC"@,
            seq![
                seq![Tag::A],
                seq![Tag::Addr1B],
                seq![Tag::AtRi],
                seq![Tag::Rn],
                seq![Tag::Dptr],
            ],
        ),
        ("JBC"@, seq![seq![Tag::Bit, Tag::Rel1B]]),
        ("ACALL"@, seq![seq![Tag::Addr1B]]),
        ("LCALL"@, seq![seq![Tag::Addr2B]]),
        ("RRC"@, seq![seq![Tag::A]]),
    ]
}

pub open spec fn table_rows_b() -> Seq<(Seq<char>, Seq<Seq<Tag>>)> {
    seq![
        ("DEC"@, seq![seq![Tag::A], seq![Tag::AtRi], seq![Tag::Rn]]),
        ("JB"@, seq![seq![Tag::Bit, Tag::Rel1B]]),
        ("RET"@, Seq::<Seq<Tag>>::empty()),
        ("RL"@, seq![seq![Tag::A]]),
        (
            "ADD"@,
            seq![
                seq![Tag::A, Tag::Imm1B],
                seq![Tag::A, Tag::Addr1B],
                seq![Tag::A, Tag::AtRi],
                seq![Tag::A, Tag::Rn],
            ],
        ),
        ("JNB"@, seq![seq![Tag::Bit, Tag::Rel1B]]),
        ("RETI"@, Seq::<Seq<Tag>>::empty()),
        ("RLC"@, seq![seq![Tag::A]]),
    ]
}

pub open spec fn table_rows_c() -> Seq<(Seq<char>, Seq<Seq<Tag>>)> {
    seq![
        (
            "ADDC"@,
            seq![
                seq![Tag::A, Tag::Imm1B],
                seq![Tag::A, Tag::Addr1B],
                seq![Tag::A, Tag::AtRi],
                seq![Tag::A, Tag::Rn],
            ],
        ),
        ("JC"@, seq![seq![Tag::Rel1B]]),
        (
            "ORL"@,
            seq![
                seq![Tag::Addr1B, Tag::A],
                seq![Tag::Addr1B, Tag::Imm1B],
                seq![Tag::A, Tag::Imm1B],
                seq![Tag::A, Tag::Addr1B],
                seq![Tag::A, Tag::AtRi],
                seq![Tag::A, Tag::Rn],
                seq![Tag::C, Tag::Bit],
                seq![Tag::Bit, Tag::C],
            ],
        ),
        ("JNC"@, seq![seq![Tag::Rel1B]]),
        (
            "ANL"@,
            seq![
                seq![Tag::Addr1B, Tag::A],
                seq![Tag::Addr1B, Tag::Imm1B],
                seq![Tag::A, Tag::Imm1B],
                seq![Tag::A, Tag::Addr1B],
                seq![Tag::A, Tag::AtRi],
                seq![Tag::A, Tag::Rn],
                seq![Tag::C, Tag::Bit],
                seq![Tag::Bit, Tag::C],
            ],
        ),
        ("JZ"@, seq![seq![Tag::Rel1B]]),
        (
            "XRL"@,
            seq![
                seq![Tag::Addr1B, Tag::A],
                seq![Tag::Addr1B, Tag::Imm1B],
                seq![Tag::A, Tag::Imm1B],
                seq![Tag::A, Tag::Addr1B],
                seq![Tag::A, Tag::AtRi],
                seq![Tag::A, Tag::Rn],
            ],
        ),
        ("JNZ"@, seq![seq![Tag::Rel1B]]),
    ]
}

pub open spec fn table_rows_d() -> Seq<(Seq<char>, Seq<Seq<Tag>>)> {
    seq![
        ("JMP"@, seq![seq![Tag::AtADptr]]),
        (
            "MOV"@,
            seq![
                seq![Tag::A, Tag::Imm1B],
                seq![Tag::Addr1B, Tag::Imm1B],
                seq![Tag::AtRi, Tag::Imm1B],
                seq![Tag::Rn, Tag::Imm1B],
                seq![Tag::Addr1B, Tag::Addr1B],
                seq![Tag::Addr1B, Tag::AtRi],
                seq![Tag::Addr1B, Tag::Rn],
                seq![Tag::Dptr, Tag::Imm2B],
                seq![Tag::Bit, Tag::C],
                seq![Tag::C, Tag::Bit],
                seq![Tag::AtRi, Tag::Addr1B],
                seq![Tag::Rn, Tag::Addr1B],
                seq![Tag::A, Tag::Addr1B],
                seq![Tag::A, Tag::AtRi],
                seq![Tag::A, Tag::Rn],
                seq![Tag::Addr1B, Tag::A],
                seq![Tag::AtRi, Tag::A],
                seq![Tag::Rn, Tag::A],
            ],
        ),
        ("SJMP"@, seq![seq![Tag::Rel1B]]),
        ("MOVC"@, seq![seq![Tag::A, Tag::AtADptr], seq![Tag::A, Tag::AtAPc]]),
    ]
}

pub open spec fn table_rows_e() -> Seq<(Seq<char>, Seq<Seq<Tag>>)> {
    seq![
        ("DIV"@, seq![seq![Tag::Ab]]),
        (
            "SUBB"@,
            seq![
                seq![Tag::A, Tag::Imm1B],
                seq![Tag::A, Tag::Addr1B],
                seq![Tag::A, Tag::AtRi],
                seq![Tag::A, Tag::Rn],
            ],
        ),
        ("MUL"@, seq![seq![Tag::Ab]]),
        ("CPL"@, seq![seq![Tag::Bit], seq![Tag::C], seq![Tag::A]]),
        (
            "CJNE"@,
            seq![
                seq![Tag::A, Tag::Imm1B, Tag::Rel1B],
                seq![Tag::A, Tag::Addr1B, Tag::Rel1B],
                seq![Tag::AtRi, Tag::Imm1B, Tag::Rel1B],
                seq![Tag::Rn, Tag::Imm1B, Tag::Rel1B],
            ],
        ),
        ("PUSH"@, seq![seq![Tag::Addr1B]]),
        ("CLR"@, seq![seq![Tag::Bit], seq![Tag::C], seq![Tag::A]]),
        ("SWAP"@, seq![seq![Tag::A]]),
    ]
}

pub open spec fn table_rows_f() -> Seq<(Seq<char>, Seq<Seq<Tag>>)> {
    seq![
        (
            "XCH"@,
            seq![seq![Tag::A, Tag::Addr1B], seq![Tag::A, Tag::AtRi], seq![Tag::A, Tag::Rn]],
        ),
        ("POP"@, seq![seq![Tag::Addr1B]]),
        ("SETB"@, seq![seq![Tag::Bit], seq![Tag::C]]),
        ("DA"@, seq![seq![Tag::A]]),
        ("DJNZ"@, seq![seq![Tag::Addr1B, Tag::Rel1B], seq![Tag::Rn, Tag::Rel1B]]),
        ("XCHD"@, seq![seq![Tag::A, Tag::AtRi]]),
        (
            "MOVX"@,
            seq![
                seq![Tag::A, Tag::AtDptr],
                seq![Tag::A, Tag::AtRi],
                seq![Tag::AtDptr, Tag::A],
                seq![Tag::AtRi, Tag::A],
            ],
        ),
    ]
}

/// The whole variant table as plain values, in declaration order.
pub open spec fn table_spec() -> Seq<(Seq<char>, Seq<Seq<Tag>>)> {
    table_rows_a() + table_rows_b() + table_rows_c() + table_rows_d() + table_rows_e()
        + table_rows_f()
}

fn tags1(a: Tag) -> (r: Vec<Tag>)
    ensures
        r@ == seq![a],
{
    let mut r: Vec<Tag> = Vec::new();
    r.push(a);
    proof {
        assert(r@ =~= seq![a]);
    }
    r
}

fn tags2(a: Tag, b: Tag) -> (r: Vec<Tag>)
    ensures
        r@ == seq![a, b],
{
    let mut r: Vec<Tag> = Vec::new();
    r.push(a);
    r.push(b);
    proof {
        assert(r@ =~= seq![a, b]);
    }
    r
}

fn tags3(a: Tag, b: Tag, c: Tag) -> (r: Vec<Tag>)
    ensures
        r@ == seq![a, b, c],
{
    let mut r: Vec<Tag> = Vec::new();
    r.push(a);
    r.push(b);
    r.push(c);
    proof {
        assert(r@ =~= seq![a, b, c]);
    }
    r
}

fn alts0() -> (r: Vec<Vec<Tag>>)
    ensures
        alts_view(r) == Seq::<Seq<Tag>>::empty(),
{
    let r: Vec<Vec<Tag>> = Vec::new();
    proof {
        assert(alts_view(r) =~= Seq::<Seq<Tag>>::empty());
    }
    r
}

fn alts_push(v: &mut Vec<Vec<Tag>>, a: Vec<Tag>)
    ensures
        alts_view(*final(v)) == alts_view(*old(v)).push(a@),
{
    let ghost v0 = v@;
    let ghost av = a@;
    v.push(a);
    proof {
        assert(alts_view(*v) =~= v0.map_values(|x: Vec<Tag>| x@).push(av));
    }
}

fn entry(m: &str, alternatives: Vec<Vec<Tag>>) -> (e: VariantEntry)
    ensures
        entry_view(e) == (m@, alts_view(alternatives)),
{
    VariantEntry { mnemonic: String::from_str(m), alternatives }
}

fn push_rows_a(t: &mut Vec<VariantEntry>)
    ensures
        table_view(final(t)@) == table_view(old(t)@) + table_rows_a(),
{
    let ghost t0 = t@;
    t.push(entry("NOP", alts0()));
    t.push(entry("AJMP", {
        let mut a = alts0();
        alts_push(&mut a, tags1(Tag::Addr1B));
        a
    }));
    t.push(entry("RR", {
        let mut a = alts0();
        alts_push(&mut a, tags1(Tag::A));
        a
    }));
    t.push(entry("INC", {
        let mut a = alts0();
        alts_push(&mut a, tags1(Tag::A));
        alts_push(&mut a, tags1(Tag::Addr1B));
        alts_push(&mut a, tags1(Tag::AtRi));
        alts_push(&mut a, tags1(Tag::Rn));
        alts_push(&mut a, tags1(Tag::Dptr));
        a
    }));
    t.push(entry("JBC", {
        let mut a = alts0();
        alts_push(&mut a, tags2(Tag::Bit, Tag::Rel1B));
        a
    }));
    t.push(entry("ACALL", {
        let mut a = alts0();
        alts_push(&mut a, tags1(Tag::Addr1B));
        a
    }));
    t.push(entry("LCALL", {
        let mut a = alts0();
        alts_push(&mut a, tags1(Tag::Addr2B));
        a
    }));
    t.push(entry("RRC", {
        let mut a = alts0();
        alts_push(&mut a, tags1(Tag::A));
        a
    }));
    proof {
        assert(table_view(t@) =~~= table_view(t0) + table_rows_a());
    }
}

fn push_rows_b(t: &mut Vec<VariantEntry>)
    ensures
        table_view(final(t)@) == table_view(old(t)@) + table_rows_b(),
{
    let ghost t0 = t@;
    t.push(entry("DEC", {
        let mut a = alts0();
        alts_push(&mut a, tags1(Tag::A));
        alts_push(&mut a, tags1(Tag::AtRi));
        alts_push(&mut a, tags1(Tag::Rn));
        a
    }));
    t.push(entry("JB", {
        let mut a = alts0();
        alts_push(&mut a, tags2(Tag::Bit, Tag::Rel1B));
        a
    }));
    t.push(entry("RET", alts0()));
    t.push(entry("RL", {
        let mut a = alts0();
        alts_push(&mut a, tags1(Tag::A));
        a
    }));
    t.push(entry("ADD", {
        let mut a = alts0();
        alts_push(&mut a, tags2(Tag::A, Tag::Imm1B));
        alts_push(&mut a, tags2(Tag::A, Tag::Addr1B));
        alts_push(&mut a, tags2(Tag::A, Tag::AtRi));
        alts_push(&mut a, tags2(Tag::A, Tag::Rn));
        a
    }));
    t.push(entry("JNB", {
        let mut a = alts0();
        alts_push(&mut a, tags2(Tag::Bit, Tag::Rel1B));
        a
    }));
    t.push(entry("RETI", alts0()));
    t.push(entry("RLC", {
        let mut a = alts0();
        alts_push(&mut a, tags1(Tag::A));
        a
    }));
    proof {
        assert(table_view(t@) =~~= table_view(t0) + table_rows_b());
    }
}

fn logic_alts(with_carry_forms: bool) -> (a: Vec<Vec<Tag>>)
    ensures
        with_carry_forms ==> alts_view(a) == seq![
            seq![Tag::Addr1B, Tag::A],
            seq![Tag::Addr1B, Tag::Imm1B],
            seq![Tag::A, Tag::Imm1B],
            seq![Tag::A, Tag::Addr1B],
            seq![Tag::A, Tag::AtRi],
            seq![Tag::A, Tag::Rn],
            seq![Tag::C, Tag::Bit],
            seq![Tag::Bit, Tag::C],
        ],
        !with_carry_forms ==> alts_view(a) == seq![
            seq![Tag::Addr1B, Tag::A],
            seq![Tag::Addr1B, Tag::Imm1B],
            seq![Tag::A, Tag::Imm1B],
            seq![Tag::A, Tag::Addr1B],
            seq![Tag::A, Tag::AtRi],
            seq![Tag::A, Tag::Rn],
        ],
{
    let mut a = alts0();
    alts_push(&mut a, tags2(Tag::Addr1B, Tag::A));
    alts_push(&mut a, tags2(Tag::Addr1B, Tag::Imm1B));
    alts_push(&mut a, tags2(Tag::A, Tag::Imm1B));
    alts_push(&mut a, tags2(Tag::A, Tag::Addr1B));
    alts_push(&mut a, tags2(Tag::A, Tag::AtRi));
    alts_push(&mut a, tags2(Tag::A, Tag::Rn));
    if with_carry_forms {
        alts_push(&mut a, tags2(Tag::C, Tag::Bit));
        alts_push(&mut a, tags2(Tag::Bit, Tag::C));
        proof {
            assert(alts_view(a) =~~= seq![
                seq![Tag::Addr1B, Tag::A],
                seq![Tag::Addr1B, Tag::Imm1B],
                seq![Tag::A, Tag::Imm1B],
                seq![Tag::A, Tag::Addr1B],
                seq![Tag::A, Tag::AtRi],
                seq![Tag::A, Tag::Rn],
                seq![Tag::C, Tag::Bit],
                seq![Tag::Bit, Tag::C],
            ]);
        }
    } else {
        proof {
            assert(alts_view(a) =~~= seq![
                seq![Tag::Addr1B, Tag::A],
                seq![Tag::Addr1B, Tag::Imm1B],
                seq![Tag::A, Tag::Imm1B],
                seq![Tag::A, Tag::Addr1B],
                seq![Tag::A, Tag::AtRi],
                seq![Tag::A, Tag::Rn],
            ]);
        }
    }
    a
}

fn push_rows_c(t: &mut Vec<VariantEntry>)
    ensures
        table_view(final(t)@) == table_view(old(t)@) + table_rows_c(),
{
    let ghost t0 = t@;
    t.push(entry("ADDC", {
        let mut a = alts0();
        alts_push(&mut a, tags2(Tag::A, Tag::Imm1B));
        alts_push(&mut a, tags2(Tag::A, Tag::Addr1B));
        alts_push(&mut a, tags2(Tag::A, Tag::AtRi));
        alts_push(&mut a, tags2(Tag::A, Tag::Rn));
        a
    }));
    t.push(entry("JC", {
        let mut a = alts0();
        alts_push(&mut a, tags1(Tag::Rel1B));
        a
    }));
    t.push(entry("ORL", logic_alts(true)));
    t.push(entry("JNC", {
        let mut a = alts0();
        alts_push(&mut a, tags1(Tag::Rel1B));
        a
    }));
    t.push(entry("ANL", logic_alts(true)));
    t.push(entry("JZ", {
        let mut a = alts0();
        alts_push(&mut a, tags1(Tag::Rel1B));
        a
    }));
    t.push(entry("XRL", logic_alts(false)));
    t.push(entry("JNZ", {
        let mut a = alts0();
        alts_push(&mut a, tags1(Tag::Rel1B));
        a
    }));
    proof {
        assert(table_view(t@) =~~= table_view(t0) + table_rows_c());
    }
}

fn push_rows_d(t: &mut Vec<VariantEntry>)
    ensures
        table_view(final(t)@) == table_view(old(t)@) + table_rows_d(),
{
    let ghost t0 = t@;
    t.push(entry("JMP", {
        let mut a = alts0();
        alts_push(&mut a, tags1(Tag::AtADptr));
        a
    }));
    t.push(entry("MOV", {
        let mut a = alts0();
        alts_push(&mut a, tags2(Tag::A, Tag::Imm1B));
        alts_push(&mut a, tags2(Tag::Addr1B, Tag::Imm1B));
        alts_push(&mut a, tags2(Tag::AtRi, Tag::Imm1B));
        alts_push(&mut a, tags2(Tag::Rn, Tag::Imm1B));
        alts_push(&mut a, tags2(Tag::Addr1B, Tag::Addr1B));
        alts_push(&mut a, tags2(Tag::Addr1B, Tag::AtRi));
        alts_push(&mut a, tags2(Tag::Addr1B, Tag::Rn));
        alts_push(&mut a, tags2(Tag::Dptr, Tag::Imm2B));
        alts_push(&mut a, tags2(Tag::Bit, Tag::C));
        alts_push(&mut a, tags2(Tag::C, Tag::Bit));
        alts_push(&mut a, tags2(Tag::AtRi, Tag::Addr1B));
        alts_push(&mut a, tags2(Tag::Rn, Tag::Addr1B));
        alts_push(&mut a, tags2(Tag::A, Tag::Addr1B));
        alts_push(&mut a, tags2(Tag::A, Tag::AtRi));
        alts_push(&mut a, tags2(Tag::A, Tag::Rn));
        alts_push(&mut a, tags2(Tag::Addr1B, Tag::A));
        alts_push(&mut a, tags2(Tag::AtRi, Tag::A));
        alts_push(&mut a, tags2(Tag::Rn, Tag::A));
        a
    }));
    t.push(entry("SJMP", {
        let mut a = alts0();
        alts_push(&mut a, tags1(Tag::Rel1B));
        a
    }));
    t.push(entry("MOVC", {
        let mut a = alts0();
        alts_push(&mut a, tags2(Tag::A, Tag::AtADptr));
        alts_push(&mut a, tags2(Tag::A, Tag::AtAPc));
        a
    }));
    proof {
        assert(table_view(t@) =~~= table_view(t0) + table_rows_d());
    }
}

fn push_rows_e(t: &mut Vec<VariantEntry>)
    ensures
        table_view(final(t)@) == table_view(old(t)@) + table_rows_e(),
{
    let ghost t0 = t@;
    t.push(entry("DIV", {
        let mut a = alts0();
        alts_push(&mut a, tags1(Tag::Ab));
        a
    }));
    t.push(entry("SUBB", {
        let mut a = alts0();
        alts_push(&mut a, tags2(Tag::A, Tag::Imm1B));
        alts_push(&mut a, tags2(Tag::A, Tag::Addr1B));
        alts_push(&mut a, tags2(Tag::A, Tag::AtRi));
        alts_push(&mut a, tags2(Tag::A, Tag::Rn));
        a
    }));
    t.push(entry("MUL", {
        let mut a = alts0();
        alts_push(&mut a, tags1(Tag::Ab));
        a
    }));
    t.push(entry("CPL", {
        let mut a = alts0();
        alts_push(&mut a, tags1(Tag::Bit));
        alts_push(&mut a, tags1(Tag::C));
        alts_push(&mut a, tags1(Tag::A));
        a
    }));
    t.push(entry("CJNE", {
        let mut a = alts0();
        alts_push(&mut a, tags3(Tag::A, Tag::Imm1B, Tag::Rel1B));
        alts_push(&mut a, tags3(Tag::A, Tag::Addr1B, Tag::Rel1B));
        alts_push(&mut a, tags3(Tag::AtRi, Tag::Imm1B, Tag::Rel1B));
        alts_push(&mut a, tags3(Tag::Rn, Tag::Imm1B, Tag::Rel1B));
        a
    }));
    t.push(entry("PUSH", {
        let mut a = alts0();
        alts_push(&mut a, tags1(Tag::Addr1B));
        a
    }));
    t.push(entry("CLR", {
        let mut a = alts0();
        alts_push(&mut a, tags1(Tag::Bit));
        alts_push(&mut a, tags1(Tag::C));
        alts_push(&mut a, tags1(Tag::A));
        a
    }));
    t.push(entry("SWAP", {
        let mut a = alts0();
        alts_push(&mut a, tags1(Tag::A));
        a
    }));
    proof {
        assert(table_view(t@) =~~= table_view(t0) + table_rows_e());
    }
}

fn push_rows_f(t: &mut Vec<VariantEntry>)
    ensures
        table_view(final(t)@) == table_view(old(t)@) + table_rows_f(),
{
    let ghost t0 = t@;
    t.push(entry("XCH", {
        let mut a = alts0();
        alts_push(&mut a, tags2(Tag::A, Tag::Addr1B));
        alts_push(&mut a, tags2(Tag::A, Tag::AtRi));
        alts_push(&mut a, tags2(Tag::A, Tag::Rn));
        a
    }));
    t.push(entry("POP", {
        let mut a = alts0();
        alts_push(&mut a, tags1(Tag::Addr1B));
        a
    }));
    t.push(entry("SETB", {
        let mut a = alts0();
        alts_push(&mut a, tags1(Tag::Bit));
        alts_push(&mut a, tags1(Tag::C));
        a
    }));
    t.push(entry("DA", {
        let mut a = alts0();
        alts_push(&mut a, tags1(Tag::A));
        a
    }));
    t.push(entry("DJNZ", {
        let mut a = alts0();
        alts_push(&mut a, tags2(Tag::Addr1B, Tag::Rel1B));
        alts_push(&mut a, tags2(Tag::Rn, Tag::Rel1B));
        a
    }));
    t.push(entry("XCHD", {
        let mut a = alts0();
        alts_push(&mut a, tags2(Tag::A, Tag::AtRi));
        a
    }));
    t.push(entry("MOVX", {
        let mut a = alts0();
        alts_push(&mut a, tags2(Tag::A, Tag::AtDptr));
        alts_push(&mut a, tags2(Tag::A, Tag::AtRi));
        alts_push(&mut a, tags2(Tag::AtDptr, Tag::A));
        alts_push(&mut a, tags2(Tag::AtRi, Tag::A));
        a
    }));
    proof {
        assert(table_view(t@) =~~= table_view(t0) + table_rows_f());
    }
}

/// Builds the variant table of the supported instruction set.
pub fn get_all_inst_variants() -> (r: Vec<VariantEntry>)
    ensures
        table_view(r@) == table_spec(),
{
    let mut t: Vec<VariantEntry> = Vec::new();
    proof {
        assert(table_view(t@) =~= Seq::<(Seq<char>, Seq<Seq<Tag>>)>::empty());
    }
    push_rows_a(&mut t);
    push_rows_b(&mut t);
    push_rows_c(&mut t);
    push_rows_d(&mut t);
    push_rows_e(&mut t);
    push_rows_f(&mut t);
    proof {
        assert(table_view(t@) =~~= table_spec());
    }
    t
}

} // verus!
