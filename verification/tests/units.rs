use asm2table::classify::{classify, OperandTag};
use asm2table::instruction::{get_addr_mode_map, AddressingMode, Instruction};
use asm2table::matching::{make_matcher, unit, when_inst, when_specific, MatchError};
use asm2table::parser::VariantEntry;
use asm2table::resolver::{check_table_widths, get_memory, get_modes};
use asm2table::table::get_all_inst_variants;

#[test]
fn bytes_required_per_mode() {
    assert_eq!(1, AddressingMode::Immediate(false).bytes_required());
    assert_eq!(2, AddressingMode::Immediate(true).bytes_required());
    assert_eq!(1, AddressingMode::Direct(false).bytes_required());
    assert_eq!(2, AddressingMode::Direct(true).bytes_required());
    assert_eq!(0, AddressingMode::RegisterDirect.bytes_required());
    assert_eq!(0, AddressingMode::RegisterIndirect.bytes_required());
    assert_eq!(0, AddressingMode::Indexed.bytes_required());
    assert_eq!(0, AddressingMode::Implied.bytes_required());
}

#[test]
fn addr_mode_map_contents() {
    let map = get_addr_mode_map();
    assert_eq!(15, map.len());
    let mode_of = |tag: OperandTag| {
        map.iter()
            .find(|p| p.0 == tag)
            .map(|p| p.1)
            .expect("tag missing from the map")
    };
    assert_eq!(AddressingMode::RegisterDirect, mode_of(OperandTag::A));
    assert_eq!(AddressingMode::Implied, mode_of(OperandTag::Ab));
    assert_eq!(AddressingMode::RegisterDirect, mode_of(OperandTag::Dptr));
    assert_eq!(AddressingMode::RegisterIndirect, mode_of(OperandTag::AtRi));
    assert_eq!(AddressingMode::Immediate(true), mode_of(OperandTag::Imm2B));
    assert_eq!(AddressingMode::Direct(false), mode_of(OperandTag::Rel1B));
    assert_eq!(AddressingMode::Direct(false), mode_of(OperandTag::Bit));
    assert_eq!(AddressingMode::Indexed, mode_of(OperandTag::AtAPc));
}

#[test]
fn classify_registers() {
    assert!(classify(OperandTag::A, "A"));
    assert!(!classify(OperandTag::A, "AB"));
    assert!(classify(OperandTag::Ab, "AB"));
    assert!(classify(OperandTag::C, "C"));
    assert!(classify(OperandTag::Dptr, "DPTR"));
    assert!(classify(OperandTag::AtDptr, "@DPTR"));
    assert!(classify(OperandTag::AtRi, "@R0"));
    assert!(classify(OperandTag::AtRi, "@R1"));
    assert!(!classify(OperandTag::AtRi, "@R2"));
    assert!(classify(OperandTag::Rn, "R7"));
    assert!(!classify(OperandTag::Rn, "R8"));
}

#[test]
fn classify_indexed() {
    assert!(classify(OperandTag::AtADptr, "@A+DPTR"));
    assert!(classify(OperandTag::AtADptr, "@A + DPTR"));
    assert!(classify(OperandTag::AtADptr, "@A  +DPTR"));
    assert!(!classify(OperandTag::AtADptr, "@A++DPTR"));
    assert!(!classify(OperandTag::AtADptr, "@A+PC"));
    assert!(classify(OperandTag::AtAPc, "@A+PC"));
    assert!(classify(OperandTag::AtAPc, "@A + PC"));
    assert!(!classify(OperandTag::AtAPc, "@A+DPTR"));
}

#[test]
fn classify_hex_numerals() {
    assert!(classify(OperandTag::Addr1B, "25H"));
    assert!(classify(OperandTag::Addr1B, "0FFH"));
    assert!(classify(OperandTag::Addr1B, "00H"));
    assert!(!classify(OperandTag::Addr1B, "0H"));
    assert!(!classify(OperandTag::Addr1B, "FFH"));
    assert!(!classify(OperandTag::Addr1B, "200H"));
    assert!(classify(OperandTag::Addr2B, "200H"));
    assert!(classify(OperandTag::Addr2B, "0FFFFH"));
    assert!(!classify(OperandTag::Addr2B, "12345H"));
}

#[test]
fn classify_bin_and_dec_numerals() {
    assert!(classify(OperandTag::Addr1B, "0101B"));
    assert!(classify(OperandTag::Addr1B, "11111111B"));
    assert!(!classify(OperandTag::Addr1B, "012B"));
    assert!(classify(OperandTag::Addr1B, "255"));
    assert!(classify(OperandTag::Addr1B, "255D"));
    assert!(!classify(OperandTag::Addr1B, "1000"));
    assert!(classify(OperandTag::Addr2B, "1000"));
    assert!(classify(OperandTag::Addr1B, "B"));
    assert!(classify(OperandTag::Addr1B, "TMOD"));
    assert!(classify(OperandTag::Addr1B, "SBUF"));
    assert!(!classify(OperandTag::Addr1B, "TMOX"));
}

#[test]
fn classify_immediates() {
    assert!(classify(OperandTag::Imm1B, "#25H"));
    assert!(classify(OperandTag::Imm1B, "#-5"));
    assert!(classify(OperandTag::Imm1B, "#255D"));
    assert!(!classify(OperandTag::Imm1B, "25H"));
    assert!(!classify(OperandTag::Imm1B, "#200H"));
    assert!(classify(OperandTag::Imm2B, "#200H"));
    assert!(!classify(OperandTag::Imm2B, "#-5"));
}

#[test]
fn classify_relative_and_bits() {
    assert!(classify(OperandTag::Rel1B, "LOOP_1-A"));
    assert!(classify(OperandTag::Rel1B, "25H"));
    assert!(!classify(OperandTag::Rel1B, "1LOOP"));
    assert!(classify(OperandTag::Bit, "P2.0"));
    assert!(classify(OperandTag::Bit, "ACC.7"));
    assert!(classify(OperandTag::Bit, "TF1"));
    assert!(classify(OperandTag::Bit, "TR0"));
    assert!(classify(OperandTag::Bit, "TI"));
    assert!(classify(OperandTag::Bit, "RI"));
    assert!(classify(OperandTag::Bit, "25"));
    assert!(!classify(OperandTag::Bit, "P8.0"));
    assert!(!classify(OperandTag::Bit, "P2.8"));
}

#[test]
fn matcher_baseline_and_rules() {
    let matcher = make_matcher();
    assert_eq!(
        Ok(4),
        matcher.do_match(Instruction {
            name: String::from("MUL"),
            operands: vec![],
        })
    );
    assert_eq!(
        Ok(1),
        matcher.do_match(Instruction {
            name: String::from("SETB"),
            operands: vec![String::from("bit")],
        })
    );
    assert_eq!(
        Ok(2),
        matcher.do_match(Instruction {
            name: String::from("INC"),
            operands: vec![String::from("DPTR")],
        })
    );
    assert_eq!(
        Ok(1),
        matcher.do_match(Instruction {
            name: String::from("INC"),
            operands: vec![String::from("A")],
        })
    );
}

#[test]
fn specific_rule_outranks_mnemonic_rule() {
    // The later-registered operand-shape rule wins over the mnemonic-wide one.
    let matcher = unit().inst("X", 3).specific("X", vec!["imm1B"], 7);
    assert_eq!(
        Ok(7),
        matcher.do_match(Instruction {
            name: String::from("X"),
            operands: vec![String::from("imm1B")],
        })
    );
    assert_eq!(
        Ok(3),
        matcher.do_match(Instruction {
            name: String::from("X"),
            operands: vec![String::from("addr1B")],
        })
    );
}

#[test]
fn builder_functions_compose() {
    let matcher = when_specific(
        when_inst(unit(), String::from("Y"), 5),
        String::from("Y"),
        vec![String::from("bit")],
        9,
    );
    assert_eq!(
        Ok(9),
        matcher.do_match(Instruction {
            name: String::from("Y"),
            operands: vec![String::from("bit")],
        })
    );
    assert_eq!(
        Ok(5),
        matcher.do_match(Instruction {
            name: String::from("Y"),
            operands: vec![],
        })
    );
    assert_eq!(
        Ok(1),
        matcher.do_match(Instruction {
            name: String::from("Z"),
            operands: vec![],
        })
    );
}

#[test]
fn resolve_line_hands_back_mnemonic_and_tags() {
    let table = get_all_inst_variants();
    let resolved = asm2table::parser::resolve_line("HERE: SJMP HERE", &table)
        .unwrap()
        .unwrap();
    assert_eq!("SJMP", resolved.0);
    assert_eq!(vec![OperandTag::Rel1B], resolved.1);
    assert_eq!(
        Ok(None),
        asm2table::parser::resolve_line("ORG 0H", &table)
    );
}

#[test]
fn shipped_table_widths_fit() {
    assert!(check_table_widths(&get_all_inst_variants()));
}

#[test]
fn match_error_text() {
    assert_eq!("Match Error", MatchError.message());
}

#[test]
fn first_match_wins_and_is_stable() {
    // Two alternatives that both accept the same operand list: the one
    // declared earlier decides the outcome, on every call.
    let table = vec![VariantEntry {
        mnemonic: String::from("X"),
        alternatives: vec![vec![OperandTag::Imm1B], vec![OperandTag::Imm2B]],
    }];
    let first = get_modes("X #5", &table);
    assert_eq!(Ok(vec![AddressingMode::Immediate(false)]), first);
    assert_eq!(first, get_modes("X #5", &table));
    assert_eq!(Ok(2), get_memory("X #5", &table));
    // Swapping the declaration order flips the winner.
    let swapped = vec![VariantEntry {
        mnemonic: String::from("X"),
        alternatives: vec![vec![OperandTag::Imm2B], vec![OperandTag::Imm1B]],
    }];
    assert_eq!(
        Ok(vec![AddressingMode::Immediate(true)]),
        get_modes("X #5", &swapped)
    );
    assert_eq!(Ok(3), get_memory("X #5", &swapped));
}
