//! The lexer of the Rox language: it splits the characters of a program
//! into tokens, skipping whitespace and `//` comments.
use vstd::prelude::*;
use crate::roxc::text::push_char;
use vstd::string::StrSliceExecFns;

verus! {

broadcast use vstd::seq::group_seq_axioms, vstd::std_specs::vec::group_vec_axioms;

/// The kinds of tokens.
#[derive(Clone, Copy, Debug, PartialEq, Eq, Structural)]
pub enum TokenKind {
    Identifier,
    Number,
    Str,
    Fn,
    Extern,
    Struct,
    Let,
    If,
    Else,
    Do,
    End,
    Return,
    True,
    False,
    LeftParen,
    RightParen,
    LeftBrace,
    RightBrace,
    LeftBracket,
    RightBracket,
    Comma,
    Colon,
    ColonColon,
    Semicolon,
    Dot,
    Arrow,
    Equal,
    EqualEqual,
    BangEqual,
    Less,
    Greater,
    Plus,
    Minus,
    Star,
    Slash,
    Bang,
    AndAnd,
    OrOr,
    Eof,
}

/// A token: its kind, its text (for a string, the characters between the
/// quotes), and the range of character positions it covers.
#[derive(Debug)]
pub struct Token {
    pub kind: TokenKind,
    pub text: String,
    pub start: usize,
    pub end: usize,
}

/// The model of a token.
pub struct TokenV {
    pub kind: TokenKind,
    pub text: Seq<char>,
    pub start: int,
    pub end: int,
}

impl View for Token {
    type V = TokenV;

    open spec fn view(&self) -> TokenV {
        TokenV { kind: self.kind, text: self.text@, start: self.start as int, end: self.end as int }
    }
}

/// The models of a list of tokens.
pub open spec fn tokens_view(s: Seq<Token>) -> Seq<TokenV> {
    Seq::new(s.len(), |i: int| s[i]@)
}

/// Whitespace.
pub open spec fn is_space(c: char) -> bool {
    c == ' ' || c == '\t' || c == '\n' || c == '\r'
}

/// A letter or an underscore, which start names.
pub open spec fn is_alpha(c: char) -> bool {
    ('a' <= c && c <= 'z') || ('A' <= c && c <= 'Z') || c == '_'
}

/// A decimal digit.
pub open spec fn is_digit(c: char) -> bool {
    '0' <= c && c <= '9'
}

/// A character that may continue a name: a letter, a digit, an
/// underscore or a question mark.
pub open spec fn is_name_char(c: char) -> bool {
    is_alpha(c) || is_digit(c) || c == '?'
}

/// The position after the whitespace and comments from `i` on; within a
/// comment when `in_comment`.  A comment runs from `//` to the end of the
/// line.
pub open spec fn skip_trivia(cs: Seq<char>, i: int, in_comment: bool) -> int
    decreases cs.len() - i,
{
    if i < 0 || i >= cs.len() {
        i
    } else if in_comment {
        skip_trivia(cs, i + 1, cs[i] != '\n')
    } else if is_space(cs[i]) {
        skip_trivia(cs, i + 1, false)
    } else if cs[i] == '/' && i + 1 < cs.len() && cs[i + 1] == '/' {
        skip_trivia(cs, i + 2, true)
    } else {
        i
    }
}

/// The end of the name characters from `i` on.
pub open spec fn name_end(cs: Seq<char>, i: int) -> int
    decreases cs.len() - i,
{
    if 0 <= i < cs.len() && is_name_char(cs[i]) {
        name_end(cs, i + 1)
    } else {
        i
    }
}

/// The end of the digits from `i` on.
pub open spec fn digits_end(cs: Seq<char>, i: int) -> int
    decreases cs.len() - i,
{
    if 0 <= i < cs.len() && is_digit(cs[i]) {
        digits_end(cs, i + 1)
    } else {
        i
    }
}

/// The end of a number starting at `i`: digits, then a point and more
/// digits where a digit follows the point.
pub open spec fn number_end(cs: Seq<char>, i: int) -> int {
    let d = digits_end(cs, i);
    if 0 <= d && d + 1 < cs.len() && cs[d] == '.' && is_digit(cs[d + 1]) {
        digits_end(cs, d + 1)
    } else {
        d
    }
}

/// The position of the first double quote from `i` on, if any.
pub open spec fn quote_at(cs: Seq<char>, i: int) -> Option<int>
    decreases cs.len() - i,
{
    if i < 0 || i >= cs.len() {
        None
    } else if cs[i] == '"' {
        Some(i)
    } else {
        quote_at(cs, i + 1)
    }
}

/// The kind of a name: a keyword, or an identifier.
pub open spec fn keyword_kind(t: Seq<char>) -> TokenKind {
    if t == seq!['f', 'n'] {
        TokenKind::Fn
    } else if t == seq!['e', 'x', 't', 'e', 'r', 'n'] {
        TokenKind::Extern
    } else if t == seq!['s', 't', 'r', 'u', 'c', 't'] {
        TokenKind::Struct
    } else if t == seq!['l', 'e', 't'] {
        TokenKind::Let
    } else if t == seq!['i', 'f'] {
        TokenKind::If
    } else if t == seq!['e', 'l', 's', 'e'] {
        TokenKind::Else
    } else if t == seq!['d', 'o'] {
        TokenKind::Do
    } else if t == seq!['e', 'n', 'd'] {
        TokenKind::End
    } else if t == seq!['r', 'e', 't', 'u', 'r', 'n'] {
        TokenKind::Return
    } else if t == seq!['t', 'r', 'u', 'e'] {
        TokenKind::True
    } else if t == seq!['f', 'a', 'l', 's', 'e'] {
        TokenKind::False
    } else {
        TokenKind::Identifier
    }
}

/// The kind of a two-character operator.
pub open spec fn pair_kind(a: char, b: char) -> Option<TokenKind> {
    if a == '-' && b == '>' {
        Some(TokenKind::Arrow)
    } else if a == '=' && b == '=' {
        Some(TokenKind::EqualEqual)
    } else if a == '!' && b == '=' {
        Some(TokenKind::BangEqual)
    } else if a == '&' && b == '&' {
        Some(TokenKind::AndAnd)
    } else if a == '|' && b == '|' {
        Some(TokenKind::OrOr)
    } else if a == ':' && b == ':' {
        Some(TokenKind::ColonColon)
    } else {
        None
    }
}

/// The kind of a one-character token.
pub open spec fn single_kind(c: char) -> Option<TokenKind> {
    if c == '(' {
        Some(TokenKind::LeftParen)
    } else if c == ')' {
        Some(TokenKind::RightParen)
    } else if c == '{' {
        Some(TokenKind::LeftBrace)
    } else if c == '}' {
        Some(TokenKind::RightBrace)
    } else if c == '[' {
        Some(TokenKind::LeftBracket)
    } else if c == ']' {
        Some(TokenKind::RightBracket)
    } else if c == ',' {
        Some(TokenKind::Comma)
    } else if c == ':' {
        Some(TokenKind::Colon)
    } else if c == ';' {
        Some(TokenKind::Semicolon)
    } else if c == '.' {
        Some(TokenKind::Dot)
    } else if c == '=' {
        Some(TokenKind::Equal)
    } else if c == '<' {
        Some(TokenKind::Less)
    } else if c == '>' {
        Some(TokenKind::Greater)
    } else if c == '+' {
        Some(TokenKind::Plus)
    } else if c == '-' {
        Some(TokenKind::Minus)
    } else if c == '*' {
        Some(TokenKind::Star)
    } else if c == '/' {
        Some(TokenKind::Slash)
    } else if c == '!' {
        Some(TokenKind::Bang)
    } else {
        None
    }
}

/// The token that starts at position `j`, by the longest match; `None`
/// where no token starts there.
pub open spec fn token_at(cs: Seq<char>, j: int) -> Option<TokenV> {
    if j < 0 || j >= cs.len() {
        None
    } else {
        let c = cs[j];
        if is_alpha(c) {
            let e = name_end(cs, j);
            Some(TokenV { kind: keyword_kind(cs.subrange(j, e)), text: cs.subrange(j, e), start: j, end: e })
        } else if is_digit(c) {
            let e = number_end(cs, j);
            Some(TokenV { kind: TokenKind::Number, text: cs.subrange(j, e), start: j, end: e })
        } else if c == '"' {
            match quote_at(cs, j + 1) {
                Some(k) => Some(TokenV { kind: TokenKind::Str, text: cs.subrange(j + 1, k), start: j, end: k + 1 }),
                None => None,
            }
        } else if j + 1 < cs.len() && pair_kind(c, cs[j + 1]) is Some {
            Some(TokenV { kind: pair_kind(c, cs[j + 1]).unwrap(), text: cs.subrange(j, j + 2), start: j, end: j + 2 })
        } else {
            match single_kind(c) {
                Some(k) => Some(TokenV { kind: k, text: cs.subrange(j, j + 1), start: j, end: j + 1 }),
                None => None,
            }
        }
    }
}

/// The tokens from position `i` on, ending with an end-of-file token; or
/// the position where no token starts.
pub open spec fn lex_from(cs: Seq<char>, i: int) -> Result<Seq<TokenV>, int>
    decreases cs.len() - i,
{
    let j = skip_trivia(cs, i, false);
    if i < 0 || j < i || j > cs.len() {
        Err(i)
    } else if j == cs.len() {
        Ok(seq![TokenV { kind: TokenKind::Eof, text: Seq::empty(), start: j, end: j }])
    } else {
        match token_at(cs, j) {
            None => Err(j),
            Some(t) => if j < t.end <= cs.len() {
                match lex_from(cs, t.end) {
                    Ok(ts) => Ok(seq![t] + ts),
                    Err(p) => Err(p),
                }
            } else {
                Err(j)
            },
        }
    }
}

/// The tokens of a whole program, or the position where no token starts.
pub open spec fn lex_spec(cs: Seq<char>) -> Result<Seq<TokenV>, int> {
    lex_from(cs, 0)
}

/// `skip_trivia` never goes backwards, nor past the end.
pub proof fn lemma_skip_trivia_bounds(cs: Seq<char>, i: int, in_comment: bool)
    requires
        0 <= i <= cs.len(),
    ensures
        i <= skip_trivia(cs, i, in_comment) <= cs.len(),
    decreases cs.len() - i,
{
    if i < cs.len() {
        if in_comment {
            lemma_skip_trivia_bounds(cs, i + 1, cs[i] != '\n');
        } else if is_space(cs[i]) {
            lemma_skip_trivia_bounds(cs, i + 1, false);
        } else if cs[i] == '/' && i + 1 < cs.len() && cs[i + 1] == '/' {
            lemma_skip_trivia_bounds(cs, i + 2, true);
        }
    }
}

/// The positions after whitespace and comments.
fn skip_trivia_exec(cs: &Vec<char>, start: usize) -> (r: usize)
    requires
        start <= cs@.len(),
    ensures
        r == skip_trivia(cs@, start as int, false),
        start <= r <= cs@.len(),
{
    proof {
        lemma_skip_trivia_bounds(cs@, start as int, false);
    }
    let mut i = start;
    let mut in_comment = false;
    while i < cs.len()
        invariant
            start <= i <= cs@.len(),
            skip_trivia(cs@, start as int, false) == skip_trivia(cs@, i as int, in_comment),
        decreases cs.len() - i,
    {
        let c = cs[i];
        if in_comment {
            in_comment = c != '\n';
            i += 1;
        } else if c == ' ' || c == '\t' || c == '\n' || c == '\r' {
            i += 1;
        } else if c == '/' && i + 1 < cs.len() && cs[i + 1] == '/' {
            in_comment = true;
            i += 2;
        } else {
            return i;
        }
    }
    i
}

/// The end of the name characters from `start` on.
fn name_end_exec(cs: &Vec<char>, start: usize) -> (r: usize)
    requires
        start <= cs@.len(),
    ensures
        r == name_end(cs@, start as int),
        start <= r <= cs@.len(),
{
    let mut i = start;
    while i < cs.len()
        invariant
            start <= i <= cs@.len(),
            name_end(cs@, start as int) == name_end(cs@, i as int),
        decreases cs.len() - i,
    {
        let c = cs[i];
        if ('a' <= c && c <= 'z') || ('A' <= c && c <= 'Z') || c == '_' || ('0' <= c && c <= '9') || c == '?' {
            i += 1;
        } else {
            return i;
        }
    }
    i
}

/// The end of the digits from `start` on.
fn digits_end_exec(cs: &Vec<char>, start: usize) -> (r: usize)
    requires
        start <= cs@.len(),
    ensures
        r == digits_end(cs@, start as int),
        start <= r <= cs@.len(),
{
    let mut i = start;
    while i < cs.len()
        invariant
            start <= i <= cs@.len(),
            digits_end(cs@, start as int) == digits_end(cs@, i as int),
        decreases cs.len() - i,
    {
        let c = cs[i];
        if '0' <= c && c <= '9' {
            i += 1;
        } else {
            return i;
        }
    }
    i
}

/// The position of the first double quote from `start` on, if any.
fn quote_at_exec(cs: &Vec<char>, start: usize) -> (r: Option<usize>)
    requires
        start <= cs@.len(),
    ensures
        match quote_at(cs@, start as int) {
            Some(k) => r == Some(k as usize) && start <= k < cs@.len(),
            None => r is None,
        },
{
    let mut i = start;
    while i < cs.len()
        invariant
            start <= i <= cs@.len(),
            quote_at(cs@, start as int) == quote_at(cs@, i as int),
        decreases cs.len() - i,
    {
        if cs[i] == '"' {
            return Some(i);
        }
        i += 1;
    }
    None
}

/// Whether the characters in `start..end` are those of `w`.
fn same_chars(cs: &Vec<char>, start: usize, end: usize, w: &[char]) -> (r: bool)
    requires
        start <= end <= cs@.len(),
    ensures
        r == (cs@.subrange(start as int, end as int) == w@),
{
    if end - start != w.len() {
        return false;
    }
    let mut i: usize = 0;
    while i < w.len()
        invariant
            end - start == w@.len(),
            start <= end <= cs@.len(),
            i <= w@.len(),
            forall|k: int| 0 <= k < i ==> cs@[start + k] == w@[k],
        decreases w.len() - i,
    {
        if cs[start + i] != w[i] {
            assert(cs@.subrange(start as int, end as int)[i as int] != w@[i as int]);
            return false;
        }
        i += 1;
    }
    assert(cs@.subrange(start as int, end as int) =~= w@);
    true
}

/// The kind of the name in `start..end`.
fn keyword_kind_exec(cs: &Vec<char>, start: usize, end: usize) -> (r: TokenKind)
    requires
        start <= end <= cs@.len(),
    ensures
        r == keyword_kind(cs@.subrange(start as int, end as int)),
{
    let ghost t = cs@.subrange(start as int, end as int);
    let fn_word = ['f', 'n'];
    let extern_word = ['e', 'x', 't', 'e', 'r', 'n'];
    let struct_word = ['s', 't', 'r', 'u', 'c', 't'];
    let let_word = ['l', 'e', 't'];
    let if_word = ['i', 'f'];
    let else_word = ['e', 'l', 's', 'e'];
    let do_word = ['d', 'o'];
    let end_word = ['e', 'n', 'd'];
    let return_word = ['r', 'e', 't', 'u', 'r', 'n'];
    let true_word = ['t', 'r', 'u', 'e'];
    let false_word = ['f', 'a', 'l', 's', 'e'];
    assert(fn_word@ =~= seq!['f', 'n']);
    assert(extern_word@ =~= seq!['e', 'x', 't', 'e', 'r', 'n']);
    assert(struct_word@ =~= seq!['s', 't', 'r', 'u', 'c', 't']);
    assert(let_word@ =~= seq!['l', 'e', 't']);
    assert(if_word@ =~= seq!['i', 'f']);
    assert(else_word@ =~= seq!['e', 'l', 's', 'e']);
    assert(do_word@ =~= seq!['d', 'o']);
    assert(end_word@ =~= seq!['e', 'n', 'd']);
    assert(return_word@ =~= seq!['r', 'e', 't', 'u', 'r', 'n']);
    assert(true_word@ =~= seq!['t', 'r', 'u', 'e']);
    assert(false_word@ =~= seq!['f', 'a', 'l', 's', 'e']);
    if same_chars(cs, start, end, &fn_word) {
        TokenKind::Fn
    } else if same_chars(cs, start, end, &extern_word) {
        TokenKind::Extern
    } else if same_chars(cs, start, end, &struct_word) {
        TokenKind::Struct
    } else if same_chars(cs, start, end, &let_word) {
        TokenKind::Let
    } else if same_chars(cs, start, end, &if_word) {
        TokenKind::If
    } else if same_chars(cs, start, end, &else_word) {
        TokenKind::Else
    } else if same_chars(cs, start, end, &do_word) {
        TokenKind::Do
    } else if same_chars(cs, start, end, &end_word) {
        TokenKind::End
    } else if same_chars(cs, start, end, &return_word) {
        TokenKind::Return
    } else if same_chars(cs, start, end, &true_word) {
        TokenKind::True
    } else if same_chars(cs, start, end, &false_word) {
        TokenKind::False
    } else {
        TokenKind::Identifier
    }
}

/// The kind of a two-character operator.
fn pair_kind_exec(a: char, b: char) -> (r: Option<TokenKind>)
    ensures
        r == pair_kind(a, b),
{
    if a == '-' && b == '>' {
        Some(TokenKind::Arrow)
    } else if a == '=' && b == '=' {
        Some(TokenKind::EqualEqual)
    } else if a == '!' && b == '=' {
        Some(TokenKind::BangEqual)
    } else if a == '&' && b == '&' {
        Some(TokenKind::AndAnd)
    } else if a == '|' && b == '|' {
        Some(TokenKind::OrOr)
    } else if a == ':' && b == ':' {
        Some(TokenKind::ColonColon)
    } else {
        None
    }
}

/// The kind of a one-character token.
fn single_kind_exec(c: char) -> (r: Option<TokenKind>)
    ensures
        r == single_kind(c),
{
    if c == '(' {
        Some(TokenKind::LeftParen)
    } else if c == ')' {
        Some(TokenKind::RightParen)
    } else if c == '{' {
        Some(TokenKind::LeftBrace)
    } else if c == '}' {
        Some(TokenKind::RightBrace)
    } else if c == '[' {
        Some(TokenKind::LeftBracket)
    } else if c == ']' {
        Some(TokenKind::RightBracket)
    } else if c == ',' {
        Some(TokenKind::Comma)
    } else if c == ':' {
        Some(TokenKind::Colon)
    } else if c == ';' {
        Some(TokenKind::Semicolon)
    } else if c == '.' {
        Some(TokenKind::Dot)
    } else if c == '=' {
        Some(TokenKind::Equal)
    } else if c == '<' {
        Some(TokenKind::Less)
    } else if c == '>' {
        Some(TokenKind::Greater)
    } else if c == '+' {
        Some(TokenKind::Plus)
    } else if c == '-' {
        Some(TokenKind::Minus)
    } else if c == '*' {
        Some(TokenKind::Star)
    } else if c == '/' {
        Some(TokenKind::Slash)
    } else if c == '!' {
        Some(TokenKind::Bang)
    } else {
        None
    }
}

/// The characters in `start..end` as a string.
fn text_of(cs: &Vec<char>, start: usize, end: usize) -> (r: String)
    requires
        start <= end <= cs@.len(),
    ensures
        r@ == cs@.subrange(start as int, end as int),
{
    let mut s = String::new();
    let mut i = start;
    while i < end
        invariant
            start <= i <= end <= cs@.len(),
            s@ == cs@.subrange(start as int, i as int),
        decreases end - i,
    {
        push_char(&mut s, cs[i]);
        assert(cs@.subrange(start as int, i + 1) =~= cs@.subrange(start as int, i as int).push(cs@[i as int]));
        i += 1;
    }
    s
}

/// `name_end` and `digits_end` go past at least what they start on.
proof fn lemma_ends(cs: Seq<char>, i: int)
    requires
        0 <= i <= cs.len(),
    ensures
        i <= name_end(cs, i) <= cs.len(),
        i <= digits_end(cs, i) <= cs.len(),
    decreases cs.len() - i,
{
    if i < cs.len() {
        lemma_ends(cs, i + 1);
    }
}

/// The token that starts at position `j`.
fn token_at_exec(cs: &Vec<char>, j: usize) -> (r: Option<Token>)
    requires
        j < cs@.len(),
    ensures
        match token_at(cs@, j as int) {
            Some(t) => r matches Some(x) && x@ == t && j < t.end <= cs@.len(),
            None => r is None,
        },
{
    let c = cs[j];
    let n = cs.len();
    proof {
        lemma_ends(cs@, j + 1);
    }
    if ('a' <= c && c <= 'z') || ('A' <= c && c <= 'Z') || c == '_' {
        let e = name_end_exec(cs, j);
        let kind = keyword_kind_exec(cs, j, e);
        Some(Token { kind, text: text_of(cs, j, e), start: j, end: e })
    } else if '0' <= c && c <= '9' {
        let d = digits_end_exec(cs, j);
        proof {
            if d < n - 1 {
                lemma_ends(cs@, d + 1);
            }
        }
        let e = if d < n - 1 && cs[d] == '.' && '0' <= cs[d + 1] && cs[d + 1] <= '9' {
            digits_end_exec(cs, d + 1)
        } else {
            d
        };
        Some(Token { kind: TokenKind::Number, text: text_of(cs, j, e), start: j, end: e })
    } else if c == '"' {
        match quote_at_exec(cs, j + 1) {
            Some(k) => Some(Token { kind: TokenKind::Str, text: text_of(cs, j + 1, k), start: j, end: k + 1 }),
            None => None,
        }
    } else {
        let pair = if j < n - 1 {
            pair_kind_exec(c, cs[j + 1])
        } else {
            None
        };
        match pair {
            Some(k) => Some(Token { kind: k, text: text_of(cs, j, j + 2), start: j, end: j + 2 }),
            None => match single_kind_exec(c) {
                Some(k) => Some(Token { kind: k, text: text_of(cs, j, j + 1), start: j, end: j + 1 }),
                None => None,
            },
        }
    }
}

/// The tokens of a program, ending with an end-of-file token; or the
/// position where no token starts.
pub fn lex(cs: &Vec<char>) -> (r: Result<Vec<Token>, usize>)
    ensures
        match lex_spec(cs@) {
            Ok(ts) => r matches Ok(v) && tokens_view(v@) == ts,
            Err(p) => r == Err::<Vec<Token>, usize>(p as usize),
        },
{
    let mut tokens: Vec<Token> = Vec::new();
    let mut i: usize = 0;
    proof {
        assert(tokens_view(tokens@) =~= Seq::<TokenV>::empty());
    }
    loop
        invariant
            i <= cs@.len(),
            lex_spec(cs@) == match lex_from(cs@, i as int) {
                Ok(ts) => Ok(tokens_view(tokens@) + ts),
                Err(p) => Err(p),
            },
        decreases cs@.len() - i,
    {
        let j = skip_trivia_exec(cs, i);
        if j == cs.len() {
            let ghost t0 = tokens@;
            tokens.push(Token { kind: TokenKind::Eof, text: String::new(), start: j, end: j });
            proof {
                assert(tokens_view(tokens@) =~= tokens_view(t0) + seq![
                    TokenV { kind: TokenKind::Eof, text: Seq::empty(), start: j as int, end: j as int },
                ]);
            }
            return Ok(tokens);
        }
        let t = match token_at_exec(cs, j) {
            Some(t) => t,
            None => {
                return Err(j);
            },
        };
        let e = t.end;
        let ghost t0 = tokens@;
        let ghost tv = t@;
        tokens.push(t);
        proof {
            match lex_from(cs@, e as int) {
                Ok(ts) => {
                    assert(tokens_view(tokens@) + ts =~= tokens_view(t0) + (seq![tv] + ts));
                },
                Err(_) => {},
            }
        }
        i = e;
    }
}

/// The characters of a string.
pub fn chars_of(s: &str) -> (r: Vec<char>)
    ensures
        r@ == s@,
{
    let n = s.unicode_len();
    let mut r: Vec<char> = Vec::new();
    let mut i: usize = 0;
    while i < n
        invariant
            n == s@.len(),
            i <= n,
            r@ == s@.subrange(0, i as int),
        decreases n - i,
    {
        r.push(s.get_char(i));
        assert(s@.subrange(0, i + 1) =~= s@.subrange(0, i as int).push(s@[i as int]));
        i += 1;
    }
    assert(s@.subrange(0, n as int) =~= s@);
    r
}

/// The token at a position starts there.
proof fn lemma_token_at_start(cs: Seq<char>, j: int)
    ensures
        token_at(cs, j) matches Some(t) ==> t.start == j,
{
}

/// Putting a token in front of ordered tokens that start after it keeps
/// them ordered.
proof fn lemma_prepend_in_order(t: TokenV, rest: Seq<TokenV>, i: int, len: int)
    requires
        i <= t.start <= t.end <= len,
        rest.len() > 0,
        forall|k: int| 0 <= k < rest.len() ==> t.end <= (#[trigger] rest[k]).start <= rest[k].end <= len,
        forall|a: int, b: int| 0 <= a < b < rest.len() ==> (#[trigger] rest[a]).end <= (#[trigger] rest[b]).start,
    ensures
        ({
            let ts = seq![t] + rest;
            &&& ts.last() == rest.last()
            &&& forall|k: int| 0 <= k < ts.len() ==> i <= (#[trigger] ts[k]).start <= ts[k].end <= len
            &&& forall|a: int, b: int| 0 <= a < b < ts.len() ==> (#[trigger] ts[a]).end <= (#[trigger] ts[b]).start
        }),
{
    let ts = seq![t] + rest;
    assert forall|k: int| 0 <= k < ts.len() implies i <= (#[trigger] ts[k]).start <= ts[k].end <= len by {
        if k > 0 {
            assert(ts[k] == rest[k - 1]);
        }
    }
    assert forall|a: int, b: int| 0 <= a < b < ts.len() implies (#[trigger] ts[a]).end <= (#[trigger] ts[b]).start by {
        assert(ts[b] == rest[b - 1]);
        if a > 0 {
            assert(ts[a] == rest[a - 1]);
        }
    }
}

/// The tokens of a program come in order and do not overlap, each
/// within the text, and the last is the end of the file, at the end of the
/// text.
pub proof fn lemma_tokens_in_order(cs: Seq<char>, i: int)
    requires
        0 <= i <= cs.len(),
    ensures
        lex_from(cs, i) matches Ok(ts) ==> {
            &&& ts.len() > 0
            &&& ts.last().kind == TokenKind::Eof
            &&& ts.last().start == cs.len()
            &&& forall|k: int| 0 <= k < ts.len() ==> i <= (#[trigger] ts[k]).start <= ts[k].end <= cs.len()
            &&& forall|a: int, b: int| 0 <= a < b < ts.len() ==> (#[trigger] ts[a]).end <= (#[trigger] ts[b]).start
        },
    decreases cs.len() - i,
{
    let j = skip_trivia(cs, i, false);
    lemma_skip_trivia_bounds(cs, i, false);
    lemma_token_at_start(cs, j);
    if j < cs.len() {
        match token_at(cs, j) {
            Some(t) => {
                if j < t.end <= cs.len() {
                    lemma_tokens_in_order(cs, t.end);
                    match lex_from(cs, t.end) {
                        Ok(rest) => {
                            lemma_prepend_in_order(t, rest, i, cs.len() as int);
                        },
                        Err(_) => {},
                    }
                }
            },
            None => {},
        }
    }
}

} // verus!
