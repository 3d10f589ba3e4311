use astolfo::lex::{tokenize, Mnemonic, Token};

#[test]
fn happy() {
    let code: &str = "inc r1\ninc r2\nadd r1,r2\n";
    let tokens = tokenize(code);
    assert_eq!(tokens.len(), 12);
    let expected = [
        Token::Instruction(Mnemonic::Inc),
        Token::Register(1),
        Token::Newline,
        Token::Instruction(Mnemonic::Inc),
        Token::Register(2),
        Token::Newline,
        Token::Instruction(Mnemonic::Add),
        Token::Register(1),
        Token::Comma,
        Token::Register(2),
        Token::Newline,
        Token::Eof,
    ];
    assert_eq!(tokens, expected);
}

#[test]
fn long_numbers() {
    let code: &str = "inc r10\ninc r12\nadd r10,r12\n";
    let tokens = tokenize(code);
    assert_eq!(tokens.len(), 12);
    let expected = [
        Token::Instruction(Mnemonic::Inc),
        Token::Register(10),
        Token::Newline,
        Token::Instruction(Mnemonic::Inc),
        Token::Register(12),
        Token::Newline,
        Token::Instruction(Mnemonic::Add),
        Token::Register(10),
        Token::Comma,
        Token::Register(12),
        Token::Newline,
        Token::Eof,
    ];
    assert_eq!(tokens, expected);
}

#[test]
fn labels_and_symbols() {
    let code: &str = "start: nop\ndec r0\n";
    let tokens = tokenize(code);
    let expected = [
        Token::Label(String::from("start")),
        Token::Colon,
        Token::Instruction(Mnemonic::Nop),
        Token::Newline,
        Token::Instruction(Mnemonic::Dec),
        Token::Register(0),
        Token::Newline,
        Token::Eof,
    ];
    assert_eq!(tokens, expected);
}

#[test]
fn bare_numbers_and_hash() {
    let code: &str = "#12 255\n";
    let tokens = tokenize(code);
    let expected = [
        Token::Hash,
        Token::Number(12),
        Token::Number(255),
        Token::Newline,
        Token::Eof,
    ];
    assert_eq!(tokens, expected);
}

#[test]
fn word_may_carry_digits() {
    let code: &str = "add1 nope";
    let tokens = tokenize(code);
    let expected = [
        Token::Label(String::from("add1")),
        Token::Label(String::from("nope")),
        Token::Eof,
    ];
    assert_eq!(tokens, expected);
}

#[test]
fn empty_source_is_just_eof() {
    let tokens = tokenize("");
    assert_eq!(tokens, [Token::Eof]);
}
