//! The tokenizer of the assembler front end: it turns assembly source text
//! into a flat token stream, ending in `Eof`.
//!
//! The scan is a single left-to-right pass. An `r` begins a register operand
//! and must be followed by a decimal number; a digit begins a bare number; a
//! letter begins a word, which continues through letters and digits and is
//! either a known mnemonic or a label; `,`, `:`, `#` and newline are tokens of
//! their own; any other character is skipped. A number must fit in 8 bits,
//! and a bare `r` with no digits after it is malformed: `tokenize` asks its
//! callers, through its precondition, for source on which the whole scan
//! succeeds, which `spec_tokenize` states exactly.

use vstd::prelude::*;
use vstd::string::StrSliceExecFns;
use vstd::string::StringExecFns;

verus! {

/// One lexical token of assembly source text.
#[derive(Debug, PartialEq, Eq)]
pub enum Token {
    /// A register operand: `r` followed by its decimal index.
    Register(u8),
    /// A bare decimal number.
    Number(u8),
    /// A word that is no mnemonic.
    Label(String),
    /// A known mnemonic.
    Instruction(Mnemonic),
    /// An assembler directive.
    Directive(Directive),
    Comma,
    Colon,
    Hash,
    Newline,
    Eof,
}

/// The mnemonics the tokenizer recognizes.
#[derive(Clone, Copy, Debug, PartialEq, Eq)]
pub enum Mnemonic {
    Inc,
    Dec,
    Add,
    Nop,
}

/// Assembler directives. No token rule produces them yet; the variants name
/// the directives the assembler reserves.
#[derive(Clone, Copy, Debug, PartialEq, Eq)]
pub enum Directive {
    Include,
    Global,
    End,
}

/// The mathematical shape of a token: as `Token`, with a label carried as its
/// character sequence.
pub enum TokenModel {
    Register(u8),
    Number(u8),
    Label(Seq<char>),
    Instruction(Mnemonic),
    Directive(Directive),
    Comma,
    Colon,
    Hash,
    Newline,
    Eof,
}

impl View for Token {
    type V = TokenModel;

    open spec fn view(&self) -> TokenModel {
        match self {
            Token::Register(n) => TokenModel::Register(*n),
            Token::Number(n) => TokenModel::Number(*n),
            Token::Label(s) => TokenModel::Label(s@),
            Token::Instruction(m) => TokenModel::Instruction(*m),
            Token::Directive(d) => TokenModel::Directive(*d),
            Token::Comma => TokenModel::Comma,
            Token::Colon => TokenModel::Colon,
            Token::Hash => TokenModel::Hash,
            Token::Newline => TokenModel::Newline,
            Token::Eof => TokenModel::Eof,
        }
    }
}

/// The views of a token sequence.
pub open spec fn token_views(tokens: Seq<Token>) -> Seq<TokenModel> {
    tokens.map_values(|t: Token| t@)
}

/// An ASCII decimal digit.
pub open spec fn is_digit_char(c: char) -> bool {
    '0' <= c && c <= '9'
}

/// A letter that can begin a word.
pub open spec fn is_letter(c: char) -> bool {
    ('a' <= c && c <= 'z') || ('A' <= c && c <= 'Z')
}

/// A character that can continue a word once begun: a letter or a digit.
pub open spec fn is_word_char(c: char) -> bool {
    is_letter(c) || is_digit_char(c)
}

/// The numeric value of a digit character.
pub open spec fn digit_value(c: char) -> int {
    c as u32 - '0' as u32
}

/// The first position at or after `i` that does not hold a digit.
pub open spec fn digits_end(s: Seq<char>, i: int) -> int
    decreases s.len() - i
        when 0 <= i <= s.len()
{
    if i == s.len() || !is_digit_char(s[i]) {
        i
    } else {
        digits_end(s, i + 1)
    }
}

/// The first position at or after `i` that cannot continue a word.
pub open spec fn word_end(s: Seq<char>, i: int) -> int
    decreases s.len() - i
        when 0 <= i <= s.len()
{
    if i == s.len() || !is_word_char(s[i]) {
        i
    } else {
        word_end(s, i + 1)
    }
}

/// The value of the digit run `s[from..to)` read as a decimal numeral.
pub open spec fn digits_value(s: Seq<char>, from: int, to: int) -> int
    decreases to - from,
{
    if from >= to {
        0
    } else {
        digits_value(s, from, to - 1) * 10 + digit_value(s[to - 1])
    }
}

/// What `digits_end` returns: the end of the digit run that begins at `i`.
pub proof fn lemma_digits_end_spec(s: Seq<char>, i: int)
    requires
        0 <= i <= s.len(),
    ensures
        i <= digits_end(s, i) <= s.len(),
        forall|j: int| i <= j < digits_end(s, i) ==> is_digit_char(s[j]),
        digits_end(s, i) < s.len() ==> !is_digit_char(s[digits_end(s, i)]),
    decreases s.len() - i,
{
    if i == s.len() || !is_digit_char(s[i]) {
    } else {
        lemma_digits_end_spec(s, i + 1);
    }
}

/// What `word_end` returns: the end of the word run that begins at `i`.
pub proof fn lemma_word_end_spec(s: Seq<char>, i: int)
    requires
        0 <= i <= s.len(),
    ensures
        i <= word_end(s, i) <= s.len(),
        forall|j: int| i <= j < word_end(s, i) ==> is_word_char(s[j]),
        word_end(s, i) < s.len() ==> !is_word_char(s[word_end(s, i)]),
    decreases s.len() - i,
{
    if i == s.len() || !is_word_char(s[i]) {
    } else {
        lemma_word_end_spec(s, i + 1);
    }
}

/// Over a run of digits, the numeral's value is non-negative and no prefix of
/// the run exceeds the whole run's value.
pub proof fn lemma_digits_value_prefix(s: Seq<char>, from: int, mid: int, to: int)
    requires
        0 <= from <= mid <= to <= s.len(),
        forall|j: int| from <= j < to ==> is_digit_char(#[trigger] s[j]),
    ensures
        0 <= digits_value(s, from, mid) <= digits_value(s, from, to),
    decreases to - mid,
{
    if mid == to {
        lemma_digits_value_nonneg(s, from, to);
    } else {
        lemma_digits_value_prefix(s, from, mid, to - 1);
        lemma_digits_value_nonneg(s, from, to - 1);
    }
}

proof fn lemma_digits_value_nonneg(s: Seq<char>, from: int, to: int)
    requires
        0 <= from <= to <= s.len(),
        forall|j: int| from <= j < to ==> is_digit_char(#[trigger] s[j]),
    ensures
        digits_value(s, from, to) >= 0,
    decreases to - from,
{
    if from < to {
        lemma_digits_value_nonneg(s, from, to - 1);
    }
}

/// The token a completed word makes: a known mnemonic, else a label.
pub open spec fn spec_word_token(w: Seq<char>) -> TokenModel {
    if w == "inc"@ {
        TokenModel::Instruction(Mnemonic::Inc)
    } else if w == "dec"@ {
        TokenModel::Instruction(Mnemonic::Dec)
    } else if w == "add"@ {
        TokenModel::Instruction(Mnemonic::Add)
    } else if w == "nop"@ {
        TokenModel::Instruction(Mnemonic::Nop)
    } else {
        TokenModel::Label(w)
    }
}

/// The given token in front of the rest of a scan, when the rest succeeds.
pub open spec fn cons_token(
    token: TokenModel,
    rest: Option<Seq<TokenModel>>,
) -> Option<Seq<TokenModel>> {
    match rest {
        Some(tokens) => Some(seq![token] + tokens),
        None => None,
    }
}

/// The tokens of `s` from position `i` on, `Eof`-terminated — or `None`
/// where the scan fails: a register `r` with no digits after it, or a
/// numeral whose value does not fit in 8 bits.
pub open spec fn spec_tokenize_from(s: Seq<char>, i: int) -> Option<Seq<TokenModel>>
    decreases s.len() - i
        when 0 <= i <= s.len()
        via spec_tokenize_from_decreases
{
    if i == s.len() {
        Some(seq![TokenModel::Eof])
    } else {
        let c = s[i];
        if c == 'r' {
            let end = digits_end(s, i + 1);
            if end == i + 1 || digits_value(s, i + 1, end) > 255 {
                None
            } else {
                cons_token(
                    TokenModel::Register(digits_value(s, i + 1, end) as u8),
                    spec_tokenize_from(s, end),
                )
            }
        } else if is_digit_char(c) {
            let end = digits_end(s, i + 1);
            if digits_value(s, i, end) > 255 {
                None
            } else {
                cons_token(
                    TokenModel::Number(digits_value(s, i, end) as u8),
                    spec_tokenize_from(s, end),
                )
            }
        } else if is_letter(c) {
            let end = word_end(s, i + 1);
            cons_token(spec_word_token(s.subrange(i, end)), spec_tokenize_from(s, end))
        } else if c == ',' {
            cons_token(TokenModel::Comma, spec_tokenize_from(s, i + 1))
        } else if c == ':' {
            cons_token(TokenModel::Colon, spec_tokenize_from(s, i + 1))
        } else if c == '#' {
            cons_token(TokenModel::Hash, spec_tokenize_from(s, i + 1))
        } else if c == '\n' {
            cons_token(TokenModel::Newline, spec_tokenize_from(s, i + 1))
        } else {
            spec_tokenize_from(s, i + 1)
        }
    }
}

#[via_fn]
proof fn spec_tokenize_from_decreases(s: Seq<char>, i: int) {
    if 0 <= i && i < s.len() {
        lemma_digits_end_spec(s, i + 1);
        lemma_word_end_spec(s, i + 1);
    }
}

/// The whole token stream of `s`, or `None` where the scan fails.
pub open spec fn spec_tokenize(s: Seq<char>) -> Option<Seq<TokenModel>> {
    spec_tokenize_from(s, 0)
}

fn exec_is_digit(c: char) -> (result: bool)
    ensures
        result == is_digit_char(c),
{
    '0' <= c && c <= '9'
}

fn exec_is_letter(c: char) -> (result: bool)
    ensures
        result == is_letter(c),
{
    ('a' <= c && c <= 'z') || ('A' <= c && c <= 'Z')
}

fn exec_is_word_char(c: char) -> (result: bool)
    ensures
        result == is_word_char(c),
{
    exec_is_letter(c) || exec_is_digit(c)
}

/// Read the run of decimal digits that begins at `from`, returning its value
/// and the position just past the run. The caller vouches that the run's
/// value fits in 8 bits.
fn read_number(input: &str, from: usize) -> (result: (u8, usize))
    requires
        from <= input@.len(),
        digits_value(input@, from as int, digits_end(input@, from as int)) <= 255,
    ensures
        result.0 as int == digits_value(input@, from as int, digits_end(input@, from as int)),
        result.1 as int == digits_end(input@, from as int),
{
    proof {
        lemma_digits_end_spec(input@, from as int);
    }
    let ghost end = digits_end(input@, from as int);
    let len = input.unicode_len();
    let mut i: usize = from;
    let mut value: u16 = 0;
    while i < len && exec_is_digit(input.get_char(i))
        invariant
            len == input@.len(),
            from <= i <= end <= len,
            end == digits_end(input@, from as int),
            forall|j: int| from <= j < end ==> is_digit_char(#[trigger] input@[j]),
            end < len ==> !is_digit_char(input@[end as int]),
            digits_value(input@, from as int, end) <= 255,
            value as int == digits_value(input@, from as int, i as int),
            value <= 255,
        decreases end - i,
    {
        let c = input.get_char(i);
        let d: u16 = ((c as u32) - ('0' as u32)) as u16;
        proof {
            lemma_digits_value_prefix(input@, from as int, i as int + 1, end);
        }
        value = value * 10 + d;
        i = i + 1;
    }
    (value as u8, i)
}

/// The token a completed word makes: one of the four mnemonics, or a label
/// carrying the word itself.
fn word_to_token(word: &String) -> (token: Token)
    ensures
        token@ == spec_word_token(word@),
{
    if *word == String::from_str("inc") {
        Token::Instruction(Mnemonic::Inc)
    } else if *word == String::from_str("dec") {
        Token::Instruction(Mnemonic::Dec)
    } else if *word == String::from_str("add") {
        Token::Instruction(Mnemonic::Add)
    } else if *word == String::from_str("nop") {
        Token::Instruction(Mnemonic::Nop)
    } else {
        Token::Label(word.clone())
    }
}

proof fn lemma_push_token(before: Seq<Token>, token: Token, rest: Seq<TokenModel>)
    ensures
        token_views(before.push(token)) + rest == token_views(before) + (seq![token@] + rest),
{
    assert(token_views(before.push(token)) =~= token_views(before).push(token@));
    assert(token_views(before).push(token@) + rest =~= token_views(before) + (seq![token@]
        + rest));
}

/// Scan assembly source text into its token stream, ending in `Eof` —
/// exactly the stream `spec_tokenize` names. The caller vouches that the
/// whole scan succeeds: no bare `r` without digits, no numeral beyond 255.
pub fn tokenize(input: &str) -> (tokens: Vec<Token>)
    requires
        spec_tokenize(input@) is Some,
    ensures
        Some(token_views(tokens@)) == spec_tokenize(input@),
{
    let len = input.unicode_len();
    let mut tokens: Vec<Token> = Vec::new();
    let mut i: usize = 0;
    while i < len
        invariant
            len == input@.len(),
            i <= len,
            spec_tokenize_from(input@, i as int) is Some,
            spec_tokenize(input@) is Some,
            token_views(tokens@) + spec_tokenize_from(input@, i as int)->Some_0
                == spec_tokenize(input@)->Some_0,
        decreases len - i,
    {
        let ghost before = tokens@;
        let c = input.get_char(i);
        if c == 'r' {
            proof {
                lemma_digits_end_spec(input@, i as int + 1);
            }
            let (value, next) = read_number(input, i + 1);
            let token = Token::Register(value);
            tokens.push(token);
            proof {
                lemma_push_token(
                    before,
                    token,
                    spec_tokenize_from(input@, next as int)->Some_0,
                );
            }
            i = next;
        } else if exec_is_digit(c) {
            proof {
                lemma_digits_end_spec(input@, i as int);
            }
            let (value, next) = read_number(input, i);
            let token = Token::Number(value);
            tokens.push(token);
            proof {
                lemma_push_token(
                    before,
                    token,
                    spec_tokenize_from(input@, next as int)->Some_0,
                );
            }
            i = next;
        } else if exec_is_letter(c) {
            proof {
                lemma_word_end_spec(input@, i as int + 1);
            }
            let ghost wend = word_end(input@, i as int + 1);
            let mut j: usize = i + 1;
            while j < len && exec_is_word_char(input.get_char(j))
                invariant
                    len == input@.len(),
                    i as int + 1 <= j <= wend <= len,
                    wend == word_end(input@, i as int + 1),
                    forall|k: int| i as int + 1 <= k < wend ==> is_word_char(#[trigger] input@[k]),
                    wend < len ==> !is_word_char(input@[wend as int]),
                decreases wend - j,
            {
                j = j + 1;
            }
            let word = input.substring_char(i, j).to_owned();
            let token = word_to_token(&word);
            tokens.push(token);
            proof {
                lemma_push_token(before, token, spec_tokenize_from(input@, j as int)->Some_0);
            }
            i = j;
        } else if c == ',' {
            let token = Token::Comma;
            tokens.push(token);
            proof {
                lemma_push_token(
                    before,
                    token,
                    spec_tokenize_from(input@, i as int + 1)->Some_0,
                );
            }
            i = i + 1;
        } else if c == ':' {
            let token = Token::Colon;
            tokens.push(token);
            proof {
                lemma_push_token(
                    before,
                    token,
                    spec_tokenize_from(input@, i as int + 1)->Some_0,
                );
            }
            i = i + 1;
        } else if c == '#' {
            let token = Token::Hash;
            tokens.push(token);
            proof {
                lemma_push_token(
                    before,
                    token,
                    spec_tokenize_from(input@, i as int + 1)->Some_0,
                );
            }
            i = i + 1;
        } else if c == '\n' {
            let token = Token::Newline;
            tokens.push(token);
            proof {
                lemma_push_token(
                    before,
                    token,
                    spec_tokenize_from(input@, i as int + 1)->Some_0,
                );
            }
            i = i + 1;
        } else {
            i = i + 1;
        }
    }
    let ghost before_eof = tokens@;
    tokens.push(Token::Eof);
    proof {
        assert(spec_tokenize_from(input@, len as int) == Some(seq![TokenModel::Eof]));
        assert(token_views(tokens@) =~= token_views(before_eof).push(TokenModel::Eof));
        assert(token_views(before_eof).push(TokenModel::Eof) =~= token_views(before_eof) + seq![
            TokenModel::Eof,
        ]);
    }
    tokens
}

} // verus!
