//! Reading Rox programs: the lexer splits the text into tokens, and the
//! reader builds the syntax tree from them, as the grammar describes.
pub mod grammar;
pub mod lexer;
pub mod reader;
pub mod syntax;

use vstd::prelude::*;
use std::path::PathBuf;
use crate::roxc::errors::{
    all_quotable, byte_len, expected_note, labels_range, strings_view, ParseError, RoxError,
    Result,
};
use crate::roxc::parser::grammar::{binop, parse_program, BinOp, ParseFailureV};
use crate::roxc::parser::lexer::{
    chars_of, lex, lex_from, lex_spec, pair_kind, single_kind, tokens_view, Token, TokenKind, TokenV,
};
use crate::roxc::parser::reader::{countable, read_program, ParseFailure};
use crate::roxc::parser::syntax::{statements_view, Operation, Statement};
use crate::roxc::text::{push_quoted, quoted};

verus! {

broadcast use vstd::seq::group_seq_axioms, vstd::std_specs::vec::group_vec_axioms;

/// The name of each kind of token, as diagnostics write it.
pub open spec fn kind_name(k: TokenKind) -> Seq<char> {
    match k {
        TokenKind::Identifier => "identifier"@,
        TokenKind::Number => "number"@,
        TokenKind::Str => "string"@,
        TokenKind::Fn => "fn"@,
        TokenKind::Extern => "extern"@,
        TokenKind::Struct => "struct"@,
        TokenKind::Let => "let"@,
        TokenKind::If => "if"@,
        TokenKind::Else => "else"@,
        TokenKind::Do => "do"@,
        TokenKind::End => "end"@,
        TokenKind::Return => "return"@,
        TokenKind::True => "true"@,
        TokenKind::False => "false"@,
        TokenKind::LeftParen => "("@,
        TokenKind::RightParen => ")"@,
        TokenKind::LeftBrace => "{"@,
        TokenKind::RightBrace => "}"@,
        TokenKind::LeftBracket => "["@,
        TokenKind::RightBracket => "]"@,
        TokenKind::Comma => ","@,
        TokenKind::Colon => ":"@,
        TokenKind::ColonColon => "::"@,
        TokenKind::Semicolon => ";"@,
        TokenKind::Dot => "."@,
        TokenKind::Arrow => "->"@,
        TokenKind::Equal => "="@,
        TokenKind::EqualEqual => "=="@,
        TokenKind::BangEqual => "!="@,
        TokenKind::Less => "<"@,
        TokenKind::Greater => ">"@,
        TokenKind::Plus => "+"@,
        TokenKind::Minus => "-"@,
        TokenKind::Star => "*"@,
        TokenKind::Slash => "/"@,
        TokenKind::Bang => "!"@,
        TokenKind::AndAnd => "&&"@,
        TokenKind::OrOr => "||"@,
        TokenKind::Eof => "EOF"@,
    }
}

/// The name of a kind of token.
fn kind_name_text(k: TokenKind) -> (r: &'static str)
    ensures
        r@ == kind_name(k),
{
    match k {
        TokenKind::Identifier => "identifier",
        TokenKind::Number => "number",
        TokenKind::Str => "string",
        TokenKind::Fn => "fn",
        TokenKind::Extern => "extern",
        TokenKind::Struct => "struct",
        TokenKind::Let => "let",
        TokenKind::If => "if",
        TokenKind::Else => "else",
        TokenKind::Do => "do",
        TokenKind::End => "end",
        TokenKind::Return => "return",
        TokenKind::True => "true",
        TokenKind::False => "false",
        TokenKind::LeftParen => "(",
        TokenKind::RightParen => ")",
        TokenKind::LeftBrace => "{",
        TokenKind::RightBrace => "}",
        TokenKind::LeftBracket => "[",
        TokenKind::RightBracket => "]",
        TokenKind::Comma => ",",
        TokenKind::Colon => ":",
        TokenKind::ColonColon => "::",
        TokenKind::Semicolon => ";",
        TokenKind::Dot => ".",
        TokenKind::Arrow => "->",
        TokenKind::Equal => "=",
        TokenKind::EqualEqual => "==",
        TokenKind::BangEqual => "!=",
        TokenKind::Less => "<",
        TokenKind::Greater => ">",
        TokenKind::Plus => "+",
        TokenKind::Minus => "-",
        TokenKind::Star => "*",
        TokenKind::Slash => "/",
        TokenKind::Bang => "!",
        TokenKind::AndAnd => "&&",
        TokenKind::OrOr => "||",
        TokenKind::Eof => "EOF",
    }
}

/// The quoted names of the expected kinds of tokens.
pub open spec fn kinds_text(ks: Seq<TokenKind>) -> Seq<Seq<char>> {
    Seq::new(ks.len(), |i: int| quoted(kind_name(ks[i])))
}

/// The UTF-8 encoding has at least one byte per character.
proof fn lemma_byte_len(cs: Seq<char>)
    ensures
        byte_len(cs) >= cs.len(),
    decreases cs.len(),
{
    if cs.len() > 0 {
        lemma_byte_len(cs.drop_first());
    }
}

/// The quoted names of the expected kinds of tokens.
fn expected_texts(ks: &Vec<TokenKind>) -> (r: Vec<String>)
    ensures
        strings_view(r@) == kinds_text(ks@),
        all_quotable(strings_view(r@)),
{
    let mut r: Vec<String> = Vec::new();
    let mut i: usize = 0;
    while i < ks.len()
        invariant
            i <= ks@.len(),
            r@.len() == i,
            forall|j: int| 0 <= j < i ==> #[trigger] r@[j]@ == quoted(kind_name(ks@[j])),
        decreases ks.len() - i,
    {
        let mut s = String::new();
        push_quoted(&mut s, kind_name_text(ks[i]));
        assert(s@ =~= quoted(kind_name(ks@[i as int])));
        r.push(s);
        i += 1;
    }
    proof {
        assert(strings_view(r@) =~= kinds_text(ks@));
        assert forall|j: int| 0 <= j < strings_view(r@).len() implies byte_len(#[trigger] strings_view(r@)[j]) >= 2 by {
            lemma_byte_len(strings_view(r@)[j]);
        }
    }
    r
}

/// Where the end of the file stands, for a failure past the last token.
pub open spec fn eof_location(ts: Seq<TokenV>) -> int {
    if ts.len() > 0 {
        ts.last().end
    } else {
        0
    }
}

/// Whether the failure is at a token other than the end of the file.
pub open spec fn at_token(ts: Seq<TokenV>, f: ParseFailureV) -> bool {
    0 <= f.at < ts.len() && ts[f.at].kind != TokenKind::Eof
}

/// Whether `e` reports the failure `f` on the tokens `ts`: the token it
/// stopped at is labelled as unrecognized, or the end of the file, and a
/// note lists the tokens that could have stood there.
pub open spec fn reports_failure(e: RoxError, ts: Seq<TokenV>, f: ParseFailureV) -> bool {
    &&& e.message is None
    &&& e.labels@.len() == 1
    &&& if at_token(ts, f) {
        labels_range(e.labels@[0], ts[f.at].start, ts[f.at].end, "Unrecognized token "@)
    } else {
        let location = if 0 <= f.at < ts.len() {
            ts[f.at].start
        } else {
            eof_location(ts)
        };
        labels_range(e.labels@[0], location, location + 1, "Unrecognized EOF"@)
    }
    &&& e.notes@.len() == 1
    &&& e.notes@[0]@ == expected_note(kinds_text(f.expected))
}

/// The tokens lie within the text, and are no more than one per character
/// and the end of the file.
proof fn lemma_lex_bounds(cs: Seq<char>, i: int)
    requires
        0 <= i <= cs.len(),
    ensures
        lex_from(cs, i) matches Ok(ts) ==> ts.len() <= cs.len() - i + 1 && forall|k: int|
            0 <= k < ts.len() ==> 0 <= (#[trigger] ts[k]).start <= ts[k].end <= cs.len(),
        lex_from(cs, i) matches Err(p) ==> 0 <= p <= cs.len(),
    decreases cs.len() - i,
{
    let j = crate::roxc::parser::lexer::skip_trivia(cs, i, false);
    crate::roxc::parser::lexer::lemma_skip_trivia_bounds(cs, i, false);
    if i <= j && j < cs.len() {
        match crate::roxc::parser::lexer::token_at(cs, j) {
            Some(t) => {
                if j < t.end <= cs.len() {
                    lemma_lex_bounds(cs, t.end);
                    match lex_from(cs, t.end) {
                        Ok(rest) => {
                            let ts = seq![t] + rest;
                            assert forall|k: int| 0 <= k < ts.len() implies 0 <= (#[trigger] ts[k]).start
                                <= ts[k].end <= cs.len() by {
                                if k > 0 {
                                    assert(ts[k] == rest[k - 1]);
                                }
                            }
                        },
                        Err(_) => {},
                    }
                }
            },
            None => {},
        }
    }
}

/// The text of a path, for diagnostics: `Path::to_string_lossy`, which
/// keeps what is valid Unicode and replaces the rest.  Nothing is stated
/// of the text.
#[verifier::external_body]
fn path_text(path: &PathBuf) -> String {
    path.to_string_lossy().into_owned()
}

/// The error that reports a failure.
fn parse_error_of(toks: &Vec<Token>, f: &ParseFailure) -> (r: ParseError)
    ensures
        all_quotable(strings_view(
            match r {
                ParseError::InvalidToken { .. } => Seq::<String>::empty(),
                ParseError::UnrecognizedEof { expected, .. } => expected@,
                ParseError::UnrecognizedToken { expected, .. } => expected@,
            },
        )),
        !(r is InvalidToken),
        match r {
            ParseError::UnrecognizedToken { token, expected } => at_token(tokens_view(toks@), f@)
                && token.0 as int == toks@[f.at as int].start && token.2 as int == toks@[f.at as int].end
                && strings_view(expected@) == kinds_text(f.expected@),
            ParseError::UnrecognizedEof { location, expected } => !at_token(tokens_view(toks@), f@)
                && location as int == (if f.at < toks@.len() {
                toks@[f.at as int].start as int
            } else {
                eof_location(tokens_view(toks@))
            }) && strings_view(expected@) == kinds_text(f.expected@),
            ParseError::InvalidToken { .. } => false,
        },
{
    let expected = expected_texts(&f.expected);
    if f.at < toks.len() && toks[f.at].kind != TokenKind::Eof {
        let t = &toks[f.at];
        ParseError::UnrecognizedToken { token: (t.start, t.text.clone(), t.end), expected }
    } else {
        let location = if f.at < toks.len() {
            toks[f.at].start
        } else if toks.len() > 0 {
            toks[toks.len() - 1].end
        } else {
            0
        };
        ParseError::UnrecognizedEof { location, expected }
    }
}

/// Whether `r` is what reading the program `source` gives: the statements
/// the grammar reads from its tokens; or, where no token starts at some
/// position, an error that labels that character as invalid; or, where
/// the tokens do not follow the grammar, an error that reports where
/// reading stopped.
pub open spec fn parsed_as(source: Seq<char>, r: Result<Vec<Box<Statement>>>) -> bool {
    match lex_spec(source) {
        Err(p) => r matches Err(e) && e.file.source@ == source && e.message is None
            && e.labels@.len() == 1 && labels_range(e.labels@[0], p, p + 1, "Invalid token."@)
            && e.notes@.len() == 0,
        Ok(ts) => match parse_program(ts) {
            Ok(stmts) => r matches Ok(x) && statements_view(x@) == stmts,
            Err(f) => r matches Err(e) && e.file.source@ == source && reports_failure(e, ts, f),
        },
    }
}

/// Reads the statements of a program from its text; `file_name` names the
/// file in diagnostics.
pub fn parse_named(source: &str, file_name: String) -> (r: Result<Vec<Box<Statement>>>)
    requires
        source@.len() + 16 <= usize::MAX,
    ensures
        parsed_as(source@, r),
        r matches Err(e) ==> e.file.name@ == file_name@,
{
    let cs = chars_of(source);
    proof {
        lemma_lex_bounds(cs@, 0);
    }
    let toks = match lex(&cs) {
        Ok(t) => t,
        Err(p) => {
            let error = ParseError::InvalidToken { location: p };
            return Err(RoxError::from_parse_error(&error, file_name, source.to_owned()));
        },
    };
    let ghost ts = tokens_view(toks@);
    proof {
        assert forall|k: int| 0 <= k < toks@.len() implies (#[trigger] toks@[k]).end <= cs@.len() by {
            assert(ts[k] == toks@[k]@);
        }
    }
    match read_program(&toks) {
        Ok(stmts) => Ok(stmts),
        Err(f) => {
            let error = parse_error_of(&toks, &f);
            proof {
                if f.at < toks@.len() {
                    assert(ts[f.at as int] == toks@[f.at as int]@);
                }
                if toks@.len() > 0 {
                    assert(ts.last() == toks@[toks@.len() - 1]@);
                }
            }
            Err(RoxError::from_parse_error(&error, file_name, source.to_owned()))
        },
    }
}

/// Reads the statements of a program from its text; `path` names the file
/// in diagnostics.
pub fn parse_string(source: &str, path: &PathBuf) -> (r: Result<Vec<Box<Statement>>>)
    requires
        source@.len() + 16 <= usize::MAX,
    ensures
        parsed_as(source@, r),
{
    parse_named(source, path_text(path))
}

/// The kind of every operator and punctuation token is the one whose name
/// is the token's text: a two-character operator such as `!=` or `==` is
/// lexed as the kind named by those two characters, and a one-character
/// token as the kind named by that character.  Distinct texts therefore
/// give distinct kinds.
pub proof fn lemma_operator_kinds_match_text(a: char, b: char)
    ensures
        match pair_kind(a, b) {
            Some(k) => kind_name(k) == seq![a, b],
            None => true,
        },
        match single_kind(a) {
            Some(k) => kind_name(k) == seq![a],
            None => true,
        },
{
    reveal_strlit("->");
    reveal_strlit("==");
    reveal_strlit("!=");
    reveal_strlit("&&");
    reveal_strlit("||");
    reveal_strlit("::");
    reveal_strlit("(");
    reveal_strlit(")");
    reveal_strlit("{");
    reveal_strlit("}");
    reveal_strlit("[");
    reveal_strlit("]");
    reveal_strlit(",");
    reveal_strlit(":");
    reveal_strlit(";");
    reveal_strlit(".");
    reveal_strlit("=");
    reveal_strlit("<");
    reveal_strlit(">");
    reveal_strlit("+");
    reveal_strlit("-");
    reveal_strlit("*");
    reveal_strlit("/");
    reveal_strlit("!");
    assert(seq![a, b] =~= seq![a, b]);
}

/// The symbol of an arithmetic or comparison operation.
pub open spec fn operation_symbol(o: Operation) -> Seq<char> {
    match o {
        Operation::Equals => "=="@,
        Operation::NotEquals => "!="@,
        Operation::GreaterThan => ">"@,
        Operation::LessThan => "<"@,
        Operation::Add => "+"@,
        Operation::Subtract => "-"@,
        Operation::Multiply => "*"@,
        Operation::Divide => "/"@,
    }
}

/// Multiplication and division.
pub open spec fn multiplicative(o: Operation) -> bool {
    o == Operation::Multiply || o == Operation::Divide
}

/// Addition and subtraction.
pub open spec fn additive(o: Operation) -> bool {
    o == Operation::Add || o == Operation::Subtract
}

/// Whether some token, at some precedence level, is read as the
/// operation.
pub open spec fn read_from_a_token(o: Operation) -> bool {
    exists|k: TokenKind, l: nat| #[trigger] binop(k, l) == Some(BinOp::Op(o))
}

/// How the grammar reads binary operators: each operation is read from
/// the token whose name is its symbol; multiplication and division share
/// one precedence level, addition and subtraction share another, and the
/// first binds more tightly (a higher level) than the second, so that
/// `a + b / c` divides first.  Every operation has a token and a level.
pub proof fn lemma_binary_operators(k1: TokenKind, l1: nat, k2: TokenKind, l2: nat)
    ensures
        match binop(k1, l1) {
            Some(BinOp::Op(o)) => kind_name(k1) == operation_symbol(o),
            _ => true,
        },
        match (binop(k1, l1), binop(k2, l2)) {
            (Some(BinOp::Op(o1)), Some(BinOp::Op(o2))) => {
                &&& multiplicative(o1) && multiplicative(o2) ==> l1 == l2
                &&& additive(o1) && additive(o2) ==> l1 == l2
                &&& multiplicative(o1) && additive(o2) ==> l1 > l2
            },
            _ => true,
        },
        forall|o: Operation| #[trigger] read_from_a_token(o),
{
    assert forall|o: Operation| #[trigger] read_from_a_token(o) by {
        match o {
            Operation::Equals => assert(binop(TokenKind::EqualEqual, 2) == Some(BinOp::Op(o))),
            Operation::NotEquals => assert(binop(TokenKind::BangEqual, 2) == Some(BinOp::Op(o))),
            Operation::GreaterThan => assert(binop(TokenKind::Greater, 3) == Some(BinOp::Op(o))),
            Operation::LessThan => assert(binop(TokenKind::Less, 3) == Some(BinOp::Op(o))),
            Operation::Add => assert(binop(TokenKind::Plus, 4) == Some(BinOp::Op(o))),
            Operation::Subtract => assert(binop(TokenKind::Minus, 4) == Some(BinOp::Op(o))),
            Operation::Multiply => assert(binop(TokenKind::Star, 5) == Some(BinOp::Op(o))),
            Operation::Divide => assert(binop(TokenKind::Slash, 5) == Some(BinOp::Op(o))),
        }
    }
}

} // verus!
