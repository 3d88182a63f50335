use synacor::compiler::compile;
use synacor::decompiler::decompile;
use synacor::image::load_image;
use synacor::parser::parse;

#[test]
fn assemble_with_labels() {
    let source = "start: jmp end\ndata 42\nend:   halt\n";
    let parsing = parse(source).unwrap();
    let bytes = compile(&parsing).unwrap();
    assert_eq!(load_image(&bytes), vec![6, 3, 42, 0]);
    let end = parsing
        .labels
        .iter()
        .find(|b| b.name == "end")
        .expect("the end label is bound");
    assert_eq!(end.address, 3);
    let start = parsing
        .labels
        .iter()
        .find(|b| b.name == "start")
        .expect("the start label is bound");
    assert_eq!(start.address, 0);
}

#[test]
fn assemble_forward_and_backward_references() {
    let source = "loop: add 32768 32768 1\njt 32768 loop\nhalt\n";
    let parsing = parse(source).unwrap();
    let bytes = compile(&parsing).unwrap();
    assert_eq!(
        load_image(&bytes),
        vec![9, 32768, 32768, 1, 7, 32768, 0, 0]
    );
}

#[test]
fn assemble_rejects_unknown_mnemonic() {
    let err = parse("frobnicate 1 2\n").unwrap_err();
    assert_eq!(
        err.message(),
        "Unknown op \"frobnicate\" at line 1.".to_string()
    );
}

#[test]
fn assemble_rejects_wrong_arity() {
    let err = parse("set 32768\n").unwrap_err();
    assert_eq!(err.message(), "set takes two arguments".to_string());
}

#[test]
fn assemble_rejects_second_label() {
    let err = parse("a: b: halt\n").unwrap_err();
    assert_eq!(
        err.message(),
        "Only one label per line! Detected a \":\" in an unusual place on line 1.".to_string()
    );
}

#[test]
fn pointer_label_checks_the_address() {
    assert!(parse("0: halt\n3: noop\n").is_err());
    let err = parse("5: halt\n").unwrap_err();
    assert_eq!(
        err.message(),
        "Pointer label was 5 but should have been 0 on line 1.".to_string()
    );
    assert!(parse("0: jmp 2\n2: halt\n").is_ok());
}

#[test]
fn compile_rejects_undefined_label() {
    let parsing = parse("jmp nowhere\n").unwrap();
    let err = compile(&parsing).unwrap_err();
    assert_eq!(err.cause.message(), "Undefined label \"nowhere\"!".to_string());
    assert_eq!(
        err.message(),
        "Error when compiling line 1.\n\tUndefined label \"nowhere\"!".to_string()
    );
}

#[test]
fn compile_rejects_symbol_where_literal_is_required() {
    let parsing = parse("here: set here 5\n").unwrap();
    let err = compile(&parsing).unwrap_err();
    assert_eq!(
        err.cause.message(),
        "The first argument of a set instruction must be a literal.".to_string()
    );
}

#[test]
fn compile_rejects_symbolic_data() {
    let parsing = parse("here: data here\n").unwrap();
    let err = compile(&parsing).unwrap_err();
    assert_eq!(err.cause.message(), "Data must be a literal.".to_string());
}

#[test]
fn comments_and_blank_lines_are_skipped() {
    let source = "# a comment line\n\nhalt # trailing words\n";
    let parsing = parse(source).unwrap();
    let bytes = compile(&parsing).unwrap();
    assert_eq!(load_image(&bytes), vec![0]);
}

#[test]
fn decompile_renders_lines() {
    let text = decompile(&[9, 32768, 32769, 4, 19, 32768, 0]);
    assert_eq!(
        text,
        "0:\tadd\t32768\t32769\t4\n4:\tout\t32768\n6:\thalt\n".to_string()
    );
}

#[test]
fn decompile_is_total_on_data_words() {
    // 1000 is no opcode; 6 at the end begins a jmp cut off by the end.
    let text = decompile(&[1000, 21, 6]);
    assert_eq!(text, "0:\t1000\n1:\tnoop\n2:\t6\n".to_string());
}

#[test]
fn decompile_of_empty_image_is_empty() {
    assert_eq!(decompile(&[]), "".to_string());
}

#[test]
fn assemble_inverts_decompile() {
    let image: Vec<u16> = vec![9, 32768, 32768, 4, 7, 32768, 0, 0];
    let text = decompile(&image);
    let parsing = parse(&text).unwrap();
    let bytes = compile(&parsing).unwrap();
    assert_eq!(load_image(&bytes), image);
}

#[test]
fn load_image_discards_odd_trailing_byte() {
    assert_eq!(load_image(&[1, 0, 2, 0, 5]), vec![1, 2]);
    assert_eq!(load_image(&[7]), vec![]);
    assert_eq!(load_image(&[0x34, 0x12]), vec![0x1234]);
}

#[test]
fn plus_signs_and_leading_zeros_parse_as_literals() {
    let parsing = parse("out +065\nhalt\n").unwrap();
    let bytes = compile(&parsing).unwrap();
    assert_eq!(load_image(&bytes), vec![19, 65, 0]);
}

#[test]
fn duplicate_label_keeps_the_later_binding() {
    let source = "a: halt\na: noop\njmp a\n";
    let parsing = parse(source).unwrap();
    let bytes = compile(&parsing).unwrap();
    assert_eq!(load_image(&bytes), vec![0, 21, 6, 1]);
}

#[test]
fn assemble_rejects_extra_operands() {
    let err = parse("add 1 2 3 4\n").unwrap_err();
    assert_eq!(err.message(), "add takes three arguments".to_string());
    let err = parse("halt 1\n").unwrap_err();
    assert_eq!(err.message(), "halt takes no arguments".to_string());
    let err = parse("data\n").unwrap_err();
    assert_eq!(err.message(), "data takes one argument".to_string());
}
