use asm2table::instruction::AddressingMode;
use asm2table::matching::make_matcher;
use asm2table::parser::{is_skippable, is_valid, ParseError};
use asm2table::resolver::{get_cycle, get_memory, get_modes};
use asm2table::table::get_all_inst_variants;

#[test]
fn sjmp() {
    let all_inst_map = get_all_inst_variants();
    let valid = is_valid("HERE: SJMP HERE", &all_inst_map).is_ok();
    assert!(valid);
    assert_eq!(Ok(2), get_memory("HERE: SJMP HERE", &all_inst_map));
}

#[test]
fn setb() {
    let all_inst_map = get_all_inst_variants();
    let valid = is_valid("BACK: SETB TR1", &all_inst_map).is_ok();
    assert!(valid);
    assert_eq!(Ok(2), get_memory("BACK: SETB TR1", &all_inst_map));
}

#[test]
fn clr() {
    let all_inst_map = get_all_inst_variants();
    let valid = is_valid("CLR P2.0", &all_inst_map).is_ok();
    assert!(valid);
    assert_eq!(Ok(2), get_memory("CLR P2.0", &all_inst_map));
}

#[test]
fn dptr() {
    let all_inst_map = get_all_inst_variants();
    let valid = is_valid("MOV DPTR, #200H", &all_inst_map).is_ok();
    assert!(valid);
    assert_eq!(Ok(3), get_memory("MOV DPTR, #200H", &all_inst_map));
}

#[test]
fn label() {
    let all_inst_map = get_all_inst_variants();
    let valid = is_valid("WAIT:", &all_inst_map).is_ok();
    assert!(valid);
    assert_eq!(Ok(0), get_memory("WAIT:", &all_inst_map));
}

#[test]
fn jnb() {
    let all_inst_map = get_all_inst_variants();
    let valid = is_valid("WAIT: JNB TI, WAIT", &all_inst_map).is_ok();
    assert!(valid);
    assert_eq!(Ok(3), get_memory("WAIT: JNB TI, WAIT", &all_inst_map));
}

#[test]
fn sjmp_modes_and_cycles() {
    let table = get_all_inst_variants();
    let matcher = make_matcher();
    assert_eq!(
        Ok(vec![AddressingMode::Direct(false)]),
        get_modes("HERE: SJMP HERE", &table)
    );
    assert_eq!(Ok(2), get_cycle("HERE: SJMP HERE", &table, &matcher));
}

#[test]
fn setb_baseline_cycle() {
    let table = get_all_inst_variants();
    let matcher = make_matcher();
    assert_eq!(Ok(1), get_cycle("BACK: SETB TR1", &table, &matcher));
}

#[test]
fn dptr_modes_and_cycles() {
    let table = get_all_inst_variants();
    let matcher = make_matcher();
    assert_eq!(
        Ok(vec![
            AddressingMode::RegisterDirect,
            AddressingMode::Immediate(true)
        ]),
        get_modes("MOV DPTR, #200H", &table)
    );
    assert_eq!(Ok(2), get_cycle("MOV DPTR, #200H", &table, &matcher));
}

#[test]
fn label_only_line_is_zero() {
    let table = get_all_inst_variants();
    let matcher = make_matcher();
    assert_eq!(Ok(vec![]), get_modes("WAIT:", &table));
    assert_eq!(Ok(0), get_memory("WAIT:", &table));
    assert_eq!(Ok(0), get_cycle("WAIT:", &table, &matcher));
}

#[test]
fn unknown_mnemonic_fails_everywhere() {
    let table = get_all_inst_variants();
    let matcher = make_matcher();
    assert_eq!(
        Err(ParseError::UnknownInstruction),
        get_modes("FOO R1", &table)
    );
    assert_eq!(
        Err(ParseError::UnknownInstruction),
        get_memory("FOO R1", &table)
    );
    assert_eq!(
        Err(asm2table::matching::MatchError),
        get_cycle("FOO R1", &table, &matcher)
    );
    assert_eq!(
        Err(ParseError::UnknownInstruction),
        is_valid("FOO R1", &table)
    );
}

#[test]
fn skip_lines_cost_nothing() {
    let table = get_all_inst_variants();
    let matcher = make_matcher();
    for line in ["END", "ORG 100H", "DB 1, 2, 3", "TEN EQU 10", "   ", ""] {
        assert_eq!(Ok(vec![]), get_modes(line, &table), "line {:?}", line);
        assert_eq!(Ok(0), get_memory(line, &table), "line {:?}", line);
        assert_eq!(Ok(0), get_cycle(line, &table, &matcher), "line {:?}", line);
        assert!(is_skippable(line), "line {:?}", line);
    }
    assert!(!is_skippable("SJMP HERE"));
}

#[test]
fn zero_operand_mnemonics() {
    let table = get_all_inst_variants();
    let matcher = make_matcher();
    // A zero-operand instruction still occupies its opcode byte.
    assert_eq!(Ok(vec![]), get_modes("NOP", &table));
    assert_eq!(Ok(1), get_memory("NOP", &table));
    assert_eq!(Ok(1), get_cycle("NOP", &table, &matcher));
    assert_eq!(Ok(2), get_cycle("RET", &table, &matcher));
    // Any trailing operand text is rejected.
    assert_eq!(Err(ParseError::UnexpectedOperands), get_memory("RET A", &table));
    assert_eq!(Err(ParseError::UnexpectedOperands), get_modes("NOP 5", &table));
    assert_eq!(
        Err(ParseError::UnexpectedOperands),
        is_valid("RETI 0, 1", &table)
    );
}

#[test]
fn no_matching_variant() {
    let table = get_all_inst_variants();
    assert_eq!(Err(ParseError::NoMatchingVariant), get_modes("MOV A", &table));
    assert_eq!(Err(ParseError::NoMatchingVariant), get_memory("SJMP", &table));
    assert_eq!(
        Err(ParseError::NoMatchingVariant),
        is_valid("ADD A, DPTR", &table)
    );
}

#[test]
fn comment_and_label_stripping() {
    let table = get_all_inst_variants();
    assert_eq!(Ok(2), get_memory("LOOP: SJMP LOOP ; spin forever", &table));
    assert_eq!(Ok(0), get_memory("   ; only a comment", &table));
    assert_eq!(Ok(1), get_memory("INC A", &table));
    assert_eq!(Ok(2), get_memory("INC 40H", &table));
}

#[test]
fn implied_operands_have_no_width() {
    let table = get_all_inst_variants();
    let matcher = make_matcher();
    assert_eq!(Ok(vec![AddressingMode::Implied]), get_modes("MUL AB", &table));
    assert_eq!(Ok(1), get_memory("MUL AB", &table));
    assert_eq!(Ok(4), get_cycle("MUL AB", &table, &matcher));
}

#[test]
fn extra_tokens_are_ignored() {
    let table = get_all_inst_variants();
    // Pairing is position-wise over the alternative's tags; tokens beyond
    // them do not disturb the match.
    assert_eq!(Ok(2), get_memory("INC 40H, 50H", &table));
}
