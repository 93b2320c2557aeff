use xvm::assembler::{encode_upper_token, tokens_of_clean_line, Assembler};
use xvm::isa::{lookup_mnemonic, mnemonic_of, opcode_of, register_index_of};

fn toks(lines: &[&[&str]]) -> Vec<Vec<String>> {
    lines
        .iter()
        .map(|l| l.iter().map(|t| t.to_string()).collect())
        .collect()
}

#[test]
fn opcode_round_trip_on_table() {
    for op in [10, 11, 20, 21, 30, 31, 40, 41, 42, 50, 60, 61, 62, 70, 255] {
        assert_eq!(opcode_of(mnemonic_of(op)), op);
    }
    assert_eq!(mnemonic_of(41), "JL");
    assert_eq!(opcode_of("HALT"), 255);
}

#[test]
fn unknown_names_give_minus_one() {
    assert_eq!(opcode_of("NOP"), -1);
    assert_eq!(lookup_mnemonic("add"), -1);
    assert_eq!(lookup_mnemonic("ADD"), 20);
    assert_eq!(register_index_of("R10"), -1);
    assert_eq!(register_index_of("R7"), 7);
    assert_eq!(mnemonic_of(9999), "UNKNOWN");
}

#[test]
fn empty_source_assembles_empty() {
    let a = Assembler::new();
    assert_eq!(a.assemble(""), Vec::<i32>::new());
    assert_eq!(a.get_tokens(""), Vec::<Vec<String>>::new());
}

#[test]
fn comment_only_source_assembles_empty() {
    let a = Assembler::new();
    assert_eq!(a.assemble("// header\n\n   // indented\n\t\n"), Vec::<i32>::new());
}

#[test]
fn add_with_comma_tokens_and_bytecode() {
    let a = Assembler::new();
    assert_eq!(a.get_tokens("ADD R0, R1"), toks(&[&["ADD", "R0", "R1"]]));
    assert_eq!(a.assemble("ADD R0, R1"), vec![20, 0, 1]);
}

#[test]
fn lower_case_source_is_raised() {
    let a = Assembler::new();
    assert_eq!(a.get_tokens("movv r0 5"), toks(&[&["MOVV", "R0", "5"]]));
    assert_eq!(a.assemble("movv r0 5"), vec![11, 0, 5]);
}

#[test]
fn trailing_comment_and_blank_lines() {
    let a = Assembler::new();
    let src = "  MOVV R0 5 // five\n\nADD R0 R1\r\nHALT";
    assert_eq!(
        a.get_tokens(src),
        toks(&[&["MOVV", "R0", "5"], &["ADD", "R0", "R1"], &["HALT"]])
    );
    assert_eq!(a.assemble(src), vec![11, 0, 5, 20, 0, 1, 255]);
}

#[test]
fn unresolved_tokens_become_minus_one() {
    let a = Assembler::new();
    assert_eq!(a.assemble("FOO R0 x"), vec![-1, 0, -1]);
    assert_eq!(a.assemble("MOVR R12 R3"), vec![10, -1, 3]);
    assert_eq!(a.assemble("MOVV R0 5,"), vec![11, 0, -1]);
}

#[test]
fn literals_in_range_and_out() {
    let a = Assembler::new();
    assert_eq!(a.assemble("MOVV R0 2147483647"), vec![11, 0, 2147483647]);
    assert_eq!(a.assemble("MOVV R0 -2147483648"), vec![11, 0, i32::MIN]);
    assert_eq!(a.assemble("MOVV R0 2147483648"), vec![11, 0, -1]);
    assert_eq!(a.assemble("MOVV R0 99999999999999"), vec![11, 0, -1]);
    assert_eq!(a.assemble("MOVV R0 +7"), vec![11, 0, 7]);
    assert_eq!(a.assemble("MOVV R0 -"), vec![11, 0, -1]);
    assert_eq!(a.assemble("MOVV R0 0012"), vec![11, 0, 12]);
}

#[test]
fn bytecode_from_given_tokens() {
    let a = Assembler::new();
    let t = toks(&[&["jp", " 7 "], &["push", "r3,"], &["ret"]]);
    assert_eq!(a.get_bytecode(&t), vec![40, 7, 30, 3, 50]);
}

#[test]
fn arity_zero_line_emits_one_value() {
    let a = Assembler::new();
    assert_eq!(a.assemble("CLS"), vec![62]);
}

#[test]
fn opcode_lookup_ignores_case() {
    assert_eq!(opcode_of("add"), 20);
    assert_eq!(opcode_of("Halt"), 255);
    assert_eq!(opcode_of("movR"), 10);
    for op in [10, 11, 20, 21, 30, 31, 40, 41, 42, 50, 60, 61, 62, 70, 255] {
        assert_eq!(opcode_of(&mnemonic_of(op).to_lowercase()), op);
    }
}

#[test]
fn upper_token_dispatch() {
    assert_eq!(encode_upper_token("SUB", true), 21);
    assert_eq!(encode_upper_token("R4,", false), 4);
    assert_eq!(encode_upper_token("R4", true), -1);
    assert_eq!(encode_upper_token("-15", false), -15);
    assert_eq!(encode_upper_token("RX", false), -1);
    assert_eq!(encode_upper_token("12A", false), -1);
}

#[test]
fn clean_line_tokens_cut_register_commas() {
    assert_eq!(
        tokens_of_clean_line("JL R0, R1,  12"),
        vec!["JL".to_string(), "R0".to_string(), "R1".to_string(), "12".to_string()]
    );
    assert_eq!(tokens_of_clean_line("R1, 5,"), vec!["R1,".to_string(), "5,".to_string()]);
    assert_eq!(tokens_of_clean_line(""), Vec::<String>::new());
}
