//! The scanner of the bytecode interpreter: it reads tokens one at a time
//! from the bytes of a program.  A zero byte, like the end of the bytes,
//! ends the program.
use vstd::prelude::*;
use vstd::slice::slice_subrange;
use crate::lox::token::{Token, TokenType};

verus! {

broadcast use vstd::seq::group_seq_axioms, vstd::std_specs::vec::group_vec_axioms;

/// The byte at `cur`; zero at the end.
pub open spec fn peek_at(src: Seq<u8>, cur: int) -> u8 {
    if 0 <= cur < src.len() {
        src[cur]
    } else {
        0
    }
}

/// Whether the program ends at `cur`: at the end of the bytes, or at a
/// zero byte.
pub open spec fn at_end(src: Seq<u8>, cur: int) -> bool {
    peek_at(src, cur) == 0
}

/// Whether the byte after `cur` can be looked at: the scanner reads it
/// only where the program does not end at `cur`, and it must exist there.
pub open spec fn next_exists(src: Seq<u8>, cur: int) -> bool {
    at_end(src, cur) || cur + 1 < src.len()
}

/// The byte after `cur`; zero where the program ends at `cur`.
pub open spec fn next_at(src: Seq<u8>, cur: int) -> u8 {
    if at_end(src, cur) {
        0
    } else {
        src[cur + 1]
    }
}

/// A letter or an underscore.
pub open spec fn alpha(c: u8) -> bool {
    (97 <= c && c <= 122) || (65 <= c && c <= 90) || c == 95
}

/// A decimal digit.
pub open spec fn digit(c: u8) -> bool {
    48 <= c && c <= 57
}

/// The end of the comment from `cur`: the first newline or end of the
/// program.
pub open spec fn comment_end(src: Seq<u8>, cur: int) -> int
    decreases src.len() - cur,
{
    if 0 <= cur < src.len() && src[cur] != 10 && src[cur] != 0 {
        comment_end(src, cur + 1)
    } else {
        cur
    }
}

/// Skipping whitespace and comments from `cur`: the position after them and
/// the number of newlines passed; `None` where a `/` is the last byte,
/// which the scanner cannot look past.
pub open spec fn skip_whitespace_from(src: Seq<u8>, cur: int) -> Option<(int, int)>
    decreases src.len() - cur,
{
    if cur < 0 || cur > src.len() {
        None
    } else {
        let c = peek_at(src, cur);
        if c == 32 || c == 13 || c == 9 {
            skip_whitespace_from(src, cur + 1)
        } else if c == 10 {
            match skip_whitespace_from(src, cur + 1) {
                Some((e, n)) => Some((e, n + 1)),
                None => None,
            }
        } else if c == 47 {
            if !next_exists(src, cur) {
                None
            } else if next_at(src, cur) == 47 {
                let e = comment_end(src, cur);
                if cur < e <= src.len() {
                    skip_whitespace_from(src, e)
                } else {
                    None
                }
            } else {
                Some((cur, 0))
            }
        } else {
            Some((cur, 0))
        }
    }
}

/// The end of the letters and digits from `cur`.
pub open spec fn word_end(src: Seq<u8>, cur: int) -> int
    decreases src.len() - cur,
{
    if 0 <= cur < src.len() && (alpha(src[cur]) || digit(src[cur])) {
        word_end(src, cur + 1)
    } else {
        cur
    }
}

/// The end of the digits from `cur`.
pub open spec fn digits_end(src: Seq<u8>, cur: int) -> int
    decreases src.len() - cur,
{
    if 0 <= cur < src.len() && digit(src[cur]) {
        digits_end(src, cur + 1)
    } else {
        cur
    }
}

/// The end of a number from `cur`: digits, then a point and digits where a
/// digit follows the point; `None` where a point is the last byte.
pub open spec fn number_end(src: Seq<u8>, cur: int) -> Option<int> {
    let d = digits_end(src, cur);
    if peek_at(src, d) == 46 {
        if !next_exists(src, d) {
            None
        } else if digit(next_at(src, d)) {
            Some(digits_end(src, d + 1))
        } else {
            Some(d)
        }
    } else {
        Some(d)
    }
}

/// Whether the keyword check of a word that spans `start..end` fails: the
/// check compares a range of the source that always runs backwards, so a
/// word of the length of the keyword it might be cannot be scanned.  A
/// word starting with `f` or `t` and longer than one byte also looks at
/// the byte after the byte after it, which must exist.
pub open spec fn keyword_check_fails(src: Seq<u8>, start: int, end: int) -> bool {
    let n = end - start;
    let c = src[start];
    ||| c == 97 && n == 3
    ||| c == 99 && n == 5
    ||| c == 101 && n == 4
    ||| c == 105 && n == 2
    ||| c == 110 && n == 3
    ||| c == 111 && n == 2
    ||| c == 112 && n == 5
    ||| c == 114 && n == 6
    ||| c == 115 && n == 5
    ||| c == 118 && n == 3
    ||| c == 119 && n == 5
    ||| c == 102 && n > 1 && (end + 1 >= src.len() || (src[end + 1] == 97 && n == 5) || (src[end
        + 1] == 111 && n == 3) || (src[end + 1] == 110 && n == 2))
    ||| c == 116 && n > 1 && (end + 1 >= src.len() || (src[end + 1] == 104 && n == 4) || (src[end
        + 1] == 114 && n == 14))
}

/// What scanning one token from `cur` does: the kind of the token, where
/// its text starts and ends, where the scanner stops, and how many
/// newlines it passed; `None` where the scanner cannot go on.  A
/// one-byte operator has empty text; `!`, `<` and `>` are scanned without
/// moving on, and `=` as `==`.
pub open spec fn scan_from(src: Seq<u8>, cur: int) -> Option<(TokenType, int, int, int, int)> {
    match skip_whitespace_from(src, cur) {
        None => None,
        Some((s, n)) => if at_end(src, s) {
            Some((TokenType::TokenEof, s, s, s, n))
        } else {
            let c = peek_at(src, s);
            if alpha(c) {
                let e = word_end(src, s);
                if keyword_check_fails(src, s, e) {
                    None
                } else {
                    Some((TokenType::TokenIdentifier, s, e, e, n))
                }
            } else if digit(c) {
                match number_end(src, s) {
                    Some(e) => Some((TokenType::TokenNumber, s, e, e, n)),
                    None => None,
                }
            } else if c == 33 {
                Some((TokenType::TokenBang, s, s, s, n))
            } else if c == 61 {
                Some((TokenType::TokenEqualEqual, s, s + 1, s + 1, n))
            } else if c == 62 {
                Some((TokenType::TokenGreater, s, s, s, n))
            } else if c == 60 {
                Some((TokenType::TokenLess, s, s, s, n))
            } else {
                Some((single_byte_type(c), s, s, s + 1, n))
            }
        },
    }
}

/// The kind of a one-byte token, or an error.
pub open spec fn single_byte_type(c: u8) -> TokenType {
    if c == 40 {
        TokenType::TokenLeftParen
    } else if c == 41 {
        TokenType::TokenRightParen
    } else if c == 123 {
        TokenType::TokenLeftBrace
    } else if c == 125 {
        TokenType::TokenRightBrace
    } else if c == 59 {
        TokenType::TokenSemicolon
    } else if c == 44 {
        TokenType::TokenComma
    } else if c == 46 {
        TokenType::TokenDot
    } else if c == 43 {
        TokenType::TokenPlus
    } else if c == 45 {
        TokenType::TokenMinus
    } else if c == 47 {
        TokenType::TokenSlash
    } else if c == 42 {
        TokenType::TokenStar
    } else {
        TokenType::TokenError
    }
}

/// The scanner's state: the program, where the current token started,
/// where it is, and the line it is on.
#[derive(Debug)]
pub struct Scanner<'b> {
    pub source: &'b Vec<u8>,
    start: usize,
    pub current: usize,
    pub line: i32,
}

impl<'scanner> Scanner<'scanner> {
    /// Where the current token started.
    pub closed spec fn token_start(&self) -> usize {
        self.start
    }

    /// The bytes of the program.
    pub closed spec fn bytes(&self) -> Seq<u8> {
        self.source@
    }

    /// Where the scanner is.
    pub closed spec fn position(&self) -> usize {
        self.current
    }

    /// The line the scanner is on.
    pub closed spec fn line_number(&self) -> i32 {
        self.line
    }

    /// The line the scanner is on.
    pub fn current_line(&self) -> (r: i32)
        ensures
            r == self.line_number(),
    {
        self.line
    }

    /// A scanner at the start of the program, on line 1.
    pub fn new(source: &'scanner Vec<u8>) -> (r: Scanner<'scanner>)
        ensures
            r.bytes() == source@,
            r.token_start() == 0,
            r.position() == 0,
            r.line_number() == 1,
    {
        Scanner { source: source, start: 0, current: 0, line: 1 }
    }

    /// Moves past the current byte.
    pub fn advance(&mut self)
        requires
            old(self).position() < usize::MAX,
        ensures
            final(self).bytes() == old(self).bytes(),
            final(self).token_start() == old(self).token_start(),
            final(self).position() == old(self).position() + 1,
            final(self).line_number() == old(self).line_number(),
    {
        self.current += 1;
    }

    /// The current byte; zero at the end.
    fn peek(&self) -> (r: u8)
        requires
            self.current <= self.source.len(),
        ensures
            r == peek_at(self.source@, self.current as int),
    {
        if self.current == self.source.len() {
            return 0;
        }
        self.source[self.current]
    }

    /// The byte after the current one; zero where the program ends.
    fn peek_next(&self) -> (r: u8)
        requires
            self.current <= self.source.len(),
            next_exists(self.source@, self.current as int),
        ensures
            r == next_at(self.source@, self.current as int),
    {
        if self.is_at_end() {
            0
        } else {
            self.source[self.current + 1]
        }
    }

    /// Whether the program ends at the current byte.
    fn is_at_end(&self) -> (r: bool)
        requires
            self.current <= self.source.len(),
        ensures
            r == at_end(self.source@, self.current as int),
    {
        self.peek() == 0
    }

    /// A letter or an underscore.
    fn is_alpha(character: u8) -> (r: bool)
        ensures
            r == alpha(character),
    {
        (character >= 97 && character <= 122) || (character >= 65 && character <= 90) || character
            == 95
    }

    /// A decimal digit.
    fn is_digit(character: u8) -> (r: bool)
        ensures
            r == digit(character),
    {
        character >= 48 && character <= 57
    }

    /// A token of the given kind whose text is the source from the start of
    /// the token to the current position.
    fn make_token(&self, token_type: TokenType) -> (r: Token<'scanner>)
        requires
            self.start <= self.current <= self.source.len(),
        ensures
            r.token_type == token_type,
            r.text@ == self.source@.subrange(self.start as int, self.current as int),
            r.line == self.line,
    {
        Token {
            token_type: token_type,
            text: slice_subrange(self.source.as_slice(), self.start, self.current),
            line: self.line,
        }
    }

    /// An error token over the source from the start of the token to the
    /// current position.
    fn error_token(&self) -> (r: Token<'scanner>)
        requires
            self.start <= self.current <= self.source.len(),
        ensures
            r.token_type == TokenType::TokenError,
            r.text@ == self.source@.subrange(self.start as int, self.current as int),
            r.line == self.line,
    {
        Token {
            token_type: TokenType::TokenError,
            text: slice_subrange(self.source.as_slice(), self.start, self.current),
            line: self.line,
        }
    }

    /// Moves past the current byte where it is `expected`.
    fn match_char(&mut self, expected: u8) -> (r: bool)
        requires
            old(self).current < old(self).source.len(),
        ensures
            r == (!at_end(old(self).source@, old(self).current as int) && peek_at(
                old(self).source@,
                old(self).current as int,
            ) == expected),
            final(self).source@ == old(self).source@,
            final(self).start == old(self).start,
            final(self).line == old(self).line,
            final(self).current == old(self).current + (if r {
                1int
            } else {
                0int
            }),
    {
        if self.is_at_end() {
            return false;
        }
        if self.peek() != expected {
            return false;
        }
        self.advance();
        true
    }

    /// Moves past whitespace and comments, counting the lines.
    fn skip_whitespace(&mut self)
        requires
            old(self).current <= old(self).source.len(),
            skip_whitespace_from(old(self).source@, old(self).current as int) matches Some((_, n))
                && old(self).line + n <= i32::MAX,
        ensures
            skip_whitespace_from(old(self).source@, old(self).current as int) matches Some((e, n))
                && final(self).current == e && final(self).line == old(self).line + n,
            final(self).current <= final(self).source@.len(),
            final(self).source@ == old(self).source@,
            final(self).start == old(self).start,
    {
        let ghost src = self.source@;
        let ghost line0 = self.line as int;
        proof {
            lemma_skip_whitespace_bounds(src, self.current as int);
        }
        let ghost e_total = skip_whitespace_from(src, self.current as int).unwrap().0;
        let ghost n_total = skip_whitespace_from(src, self.current as int).unwrap().1;
        loop
            invariant
                src == self.source@,
                self.start == old(self).start,
                self.source@ == old(self).source@,
                self.source.len() == src.len(),
                self.current <= src.len(),
                skip_whitespace_from(old(self).source@, old(self).current as int) == Some((e_total, n_total)),
                line0 == old(self).line,
                line0 + n_total <= i32::MAX,
                line0 <= self.line,
                skip_whitespace_from(src, self.current as int) == Some((e_total, n_total - (self.line - line0))),
            decreases src.len() - self.current,
        {
            proof {
                lemma_skip_whitespace_bounds(src, self.current as int);
            }
            let current_char = self.peek();
            if current_char == 32 || current_char == 13 || current_char == 9 {
                self.advance();
            } else if current_char == 10 {
                proof {
                    lemma_skip_whitespace_bounds(src, self.current + 1);
                }
                self.line += 1;
                self.advance();
            } else if current_char == 47 {
                if self.peek_next() == 47 {
                    let ghost c0 = self.current as int;
                    let ghost l0 = self.line;
                    proof {
                        lemma_comment_end_moves(src, c0);
                    }
                    while self.peek() != 10 && !self.is_at_end()
                        invariant
                            src == self.source@,
                            self.start == old(self).start,
                            self.source@ == old(self).source@,
                self.source.len() == src.len(),
                            self.line == l0,
                            c0 <= self.current <= src.len(),
                            comment_end(src, c0) == comment_end(src, self.current as int),
                        decreases src.len() - self.current,
                    {
                        self.advance();
                    }
                    proof {
                        assert(comment_end(src, self.current as int) == self.current);
                    }
                } else {
                    return;
                }
            } else {
                return;
            }
        }
    }

    /// Whether the word that spans from the start of the token to the
    /// current position is the keyword of the given length whose first
    /// `start` bytes it starts with; the check is only made where it can
    /// be, which leaves every word an identifier.
    fn check_keyword(&self, start: usize, length: usize, rest: &str, token_type: TokenType) -> (r: TokenType)
        requires
            self.start <= self.current <= self.source.len(),
            self.current - self.start != start + length,
        ensures
            r == TokenType::TokenIdentifier,
    {
        let _ = rest;
        let _ = token_type;
        TokenType::TokenIdentifier
    }

    /// The kind of the word that spans from the start of the token to the
    /// current position.
    fn identifier_type(&self) -> (r: TokenType)
        requires
            self.start < self.current <= self.source.len(),
            !keyword_check_fails(self.source@, self.start as int, self.current as int),
        ensures
            r == TokenType::TokenIdentifier,
    {
        match self.source[self.start] {
            97 => return self.check_keyword(1, 2, "nd", TokenType::TokenAnd),
            99 => return self.check_keyword(1, 4, "lass", TokenType::TokenClass),
            101 => return self.check_keyword(1, 3, "lse", TokenType::TokenElse),
            105 => return self.check_keyword(1, 1, "f", TokenType::TokenIf),
            110 => return self.check_keyword(1, 2, "il", TokenType::TokenNil),
            111 => return self.check_keyword(1, 1, "r", TokenType::TokenOr),
            112 => return self.check_keyword(1, 4, "rint", TokenType::TokenPrint),
            114 => return self.check_keyword(1, 5, "eturn", TokenType::TokenReturn),
            115 => return self.check_keyword(1, 4, "uper", TokenType::TokenSuper),
            118 => return self.check_keyword(1, 2, "ar", TokenType::TokenVar),
            119 => return self.check_keyword(1, 4, "hile", TokenType::TokenWhile),
            102 => {
                if (self.current - self.start) > 1 {
                    match self.source[self.current + 1] {
                        97 => return self.check_keyword(2, 3, "lse", TokenType::TokenFalse),
                        111 => return self.check_keyword(2, 1, "r", TokenType::TokenFalse),
                        110 => return self.check_keyword(2, 0, "n", TokenType::TokenFalse),
                        _ => {},
                    }
                }
            },
            116 => {
                if (self.current - self.start) > 1 {
                    match self.source[self.current + 1] {
                        104 => return self.check_keyword(2, 2, "is", TokenType::TokenThis),
                        114 => return self.check_keyword(2, 12, "ue", TokenType::TokenTrue),
                        _ => {},
                    }
                }
            },
            _ => {},
        }
        TokenType::TokenIdentifier
    }

    /// Scans the word from the current position.
    fn identifier(&mut self) -> (r: Token<'scanner>)
        requires
            old(self).start == old(self).current < old(self).source.len(),
            alpha(old(self).source@[old(self).current as int]),
            !keyword_check_fails(
                old(self).source@,
                old(self).current as int,
                word_end(old(self).source@, old(self).current as int),
            ),
        ensures
            final(self).source@ == old(self).source@,
            final(self).start == old(self).start,
            final(self).line == old(self).line,
            final(self).current == word_end(old(self).source@, old(self).current as int),
            final(self).current <= final(self).source@.len(),
            r.token_type == TokenType::TokenIdentifier,
            r.text@ == old(self).source@.subrange(old(self).current as int, final(self).current as int),
            r.line == old(self).line,
    {
        let ghost src = self.source@;
        let ghost c0 = self.current as int;
        while Scanner::is_alpha(self.peek()) || Scanner::is_digit(self.peek())
            invariant
                src == self.source@,
                self.source@ == old(self).source@,
                self.source.len() == src.len(),
                self.start == old(self).start,
                self.line == old(self).line,
                c0 <= self.current <= src.len(),
                word_end(src, c0) == word_end(src, self.current as int),
            decreases src.len() - self.current,
        {
            self.advance();
        }
        self.make_token(self.identifier_type())
    }

    /// Scans the number from the current position.
    fn number(&mut self) -> (r: Token<'scanner>)
        requires
            old(self).start == old(self).current < old(self).source.len(),
            number_end(old(self).source@, old(self).current as int) is Some,
        ensures
            final(self).source@ == old(self).source@,
            final(self).start == old(self).start,
            final(self).line == old(self).line,
            number_end(old(self).source@, old(self).current as int) == Some(final(self).current as int),
            final(self).current <= final(self).source@.len(),
            r.token_type == TokenType::TokenNumber,
            r.text@ == old(self).source@.subrange(old(self).current as int, final(self).current as int),
            r.line == old(self).line,
    {
        let ghost src = self.source@;
        let ghost c0 = self.current as int;
        while Scanner::is_digit(self.peek())
            invariant
                src == self.source@,
                self.source@ == old(self).source@,
                self.source.len() == src.len(),
                self.start == old(self).start,
                self.line == old(self).line,
                c0 <= self.current <= src.len(),
                digits_end(src, c0) == digits_end(src, self.current as int),
            decreases src.len() - self.current,
        {
            self.advance();
        }
        if self.peek() == 46 && Scanner::is_digit(self.peek_next()) {
            self.advance();
            let ghost c1 = self.current as int;
            while Scanner::is_digit(self.peek())
                invariant
                    src == self.source@,
                    self.source@ == old(self).source@,
                self.source.len() == src.len(),
                    self.start == old(self).start,
                    self.line == old(self).line,
                    c1 <= self.current <= src.len(),
                    digits_end(src, c1) == digits_end(src, self.current as int),
                decreases src.len() - self.current,
            {
                self.advance();
            }
        }
        self.make_token(TokenType::TokenNumber)
    }

    /// Scans the next token.
    pub fn scan_token(&mut self) -> (r: Token<'scanner>)
        requires
            old(self).position() <= old(self).bytes().len(),
            scan_from(old(self).bytes(), old(self).position() as int) matches Some((_, _, _, _, n))
                && old(self).line_number() + n <= i32::MAX,
        ensures
            scan_from(old(self).bytes(), old(self).position() as int) matches Some((t, s, e, c, n))
                && r.token_type == t && r.text@ == old(self).bytes().subrange(s, e)
                && final(self).token_start() == s && final(self).position() == c
                && final(self).line_number() == old(self).line_number() + n && r.line
                == final(self).line_number(),
            final(self).bytes() == old(self).bytes(),
            final(self).position() <= final(self).bytes().len(),
    {
        self.skip_whitespace();
        self.start = self.current;
        if self.is_at_end() {
            let token = self.make_token(TokenType::TokenEof);
            return token;
        }
        let character = self.peek();
        if Scanner::is_alpha(character) {
            return self.identifier();
        } else if Scanner::is_digit(character) {
            return self.number();
        }
        let token = match character {
            40 => self.make_token(TokenType::TokenLeftParen),
            41 => self.make_token(TokenType::TokenRightParen),
            123 => self.make_token(TokenType::TokenLeftBrace),
            125 => self.make_token(TokenType::TokenRightBrace),
            59 => self.make_token(TokenType::TokenSemicolon),
            44 => self.make_token(TokenType::TokenComma),
            46 => self.make_token(TokenType::TokenDot),
            43 => self.make_token(TokenType::TokenPlus),
            45 => self.make_token(TokenType::TokenMinus),
            47 => self.make_token(TokenType::TokenSlash),
            42 => self.make_token(TokenType::TokenStar),
            33 => {
                if self.match_char(61) {
                    return self.make_token(TokenType::TokenBangEqual);
                } else {
                    return self.make_token(TokenType::TokenBang);
                }
            },
            61 => {
                if self.match_char(61) {
                    return self.make_token(TokenType::TokenEqualEqual);
                } else {
                    return self.make_token(TokenType::TokenEqual);
                }
            },
            62 => {
                if self.match_char(61) {
                    return self.make_token(TokenType::TokenGreaterEqual);
                } else {
                    return self.make_token(TokenType::TokenGreater);
                }
            },
            60 => {
                if self.match_char(61) {
                    return self.make_token(TokenType::TokenLessEqual);
                } else {
                    return self.make_token(TokenType::TokenLess);
                }
            },
            _ => self.error_token(),
        };
        self.advance();
        token
    }
}

/// Skipping whitespace stops within the program, no earlier than it
/// started, having passed no fewer than no newlines.
pub proof fn lemma_skip_whitespace_bounds(src: Seq<u8>, cur: int)
    ensures
        skip_whitespace_from(src, cur) matches Some((e, n)) ==> cur <= e <= src.len() && n >= 0,
    decreases src.len() - cur,
{
    if 0 <= cur <= src.len() {
        let c = peek_at(src, cur);
        if c == 32 || c == 13 || c == 9 || c == 10 {
            lemma_skip_whitespace_bounds(src, cur + 1);
        } else if c == 47 && next_exists(src, cur) && next_at(src, cur) == 47 {
            let e = comment_end(src, cur);
            if cur < e <= src.len() {
                lemma_skip_whitespace_bounds(src, e);
            }
        }
    }
}

/// A comment that starts with two slashes ends past them.
proof fn lemma_comment_end_moves(src: Seq<u8>, cur: int)
    requires
        0 <= cur,
        cur + 1 < src.len(),
        src[cur] == 47,
        src[cur + 1] == 47,
    ensures
        cur + 2 <= comment_end(src, cur) <= src.len(),
{
    lemma_comment_end_bound(src, cur + 2);
    assert(comment_end(src, cur) == comment_end(src, cur + 1));
    assert(comment_end(src, cur + 1) == comment_end(src, cur + 2));
}

/// A comment ends within the program, no earlier than it starts.
proof fn lemma_comment_end_bound(src: Seq<u8>, cur: int)
    requires
        0 <= cur <= src.len(),
    ensures
        cur <= comment_end(src, cur) <= src.len(),
    decreases src.len() - cur,
{
    if cur < src.len() && src[cur] != 10 && src[cur] != 0 {
        lemma_comment_end_bound(src, cur + 1);
    }
}

/// The end of a run of letters and digits, or of digits, lies within the
/// program and no earlier than where the run starts.
proof fn lemma_run_ends(src: Seq<u8>, cur: int)
    requires
        0 <= cur <= src.len(),
    ensures
        cur <= word_end(src, cur) <= src.len(),
        cur <= digits_end(src, cur) <= src.len(),
    decreases src.len() - cur,
{
    if cur < src.len() {
        lemma_run_ends(src, cur + 1);
    }
}

/// The scanner never goes backwards: a token starts where the scanner
/// stopped skipping whitespace, its text lies within the program, and the
/// scanner stops no earlier than the token starts.  It moves past the
/// token unless the token is the end of the program or one of `!`, `<`
/// and `>`, which are scanned without moving on.
pub proof fn lemma_scan_moves_forward(src: Seq<u8>, cur: int)
    requires
        0 <= cur <= src.len(),
    ensures
        scan_from(src, cur) matches Some((t, s, e, c, n)) ==> {
            &&& cur <= s <= e <= src.len()
            &&& s <= c <= src.len()
            &&& n >= 0
            &&& (c == s <==> (t == TokenType::TokenEof || t == TokenType::TokenBang || t
                == TokenType::TokenLess || t == TokenType::TokenGreater))
        },
{
    lemma_skip_whitespace_bounds(src, cur);
    match skip_whitespace_from(src, cur) {
        Some((s, n)) => {
            if !at_end(src, s) {
                let c = peek_at(src, s);
                lemma_run_ends(src, s);
                if alpha(c) {
                    lemma_run_ends(src, s + 1);
                    assert(word_end(src, s) == word_end(src, s + 1));
                } else if digit(c) {
                    lemma_run_ends(src, s + 1);
                    assert(digits_end(src, s) == digits_end(src, s + 1));
                    let d = digits_end(src, s);
                    if peek_at(src, d) == 46 && next_exists(src, d) && digit(next_at(src, d)) {
                        lemma_run_ends(src, d + 1);
                    }
                }
            }
        },
        None => {},
    }
}

/// Scanning stays where it starts only where the token starts right
/// there, with no newline passed on the way.
pub proof fn lemma_scan_in_place(src: Seq<u8>, cur: int)
    requires
        0 <= cur <= src.len(),
    ensures
        scan_from(src, cur) matches Some((t, s, e, c, n)) ==> (c == cur ==> s == cur && n == 0),
{
    lemma_scan_moves_forward(src, cur);
    match skip_whitespace_from(src, cur) {
        Some((s, n)) => {
            if s == cur {
                let c = peek_at(src, cur);
                if c == 32 || c == 13 || c == 9 || c == 10 {
                    lemma_skip_whitespace_bounds(src, cur + 1);
                } else if c == 47 && next_exists(src, cur) && next_at(src, cur) == 47 {
                    lemma_comment_end_moves(src, cur);
                    lemma_skip_whitespace_bounds(src, comment_end(src, cur));
                }
            }
        },
        None => {},
    }
}

/// Whitespace skipped from some position, with `k` more newlines before it.
pub open spec fn with_more_lines(r: Option<(int, int)>, k: int) -> Option<(int, int)> {
    match r {
        Some((e, n)) => Some((e, n + k)),
        None => None,
    }
}

/// Whether the keyword check of the word that spans `start..end` fails.
fn keyword_fails(source: &Vec<u8>, start: usize, end: usize) -> (r: bool)
    requires
        start < end <= source.len(),
    ensures
        r == keyword_check_fails(source@, start as int, end as int),
{
    let n = end - start;
    let c = source[start];
    let last = end >= source.len() - 1;
    (c == 97 && n == 3) || (c == 99 && n == 5) || (c == 101 && n == 4) || (c == 105 && n == 2) || (
    c == 110 && n == 3) || (c == 111 && n == 2) || (c == 112 && n == 5) || (c == 114 && n == 6) || (
    c == 115 && n == 5) || (c == 118 && n == 3) || (c == 119 && n == 5) || (c == 102 && n > 1 && (
    last || (source[end + 1] == 97 && n == 5) || (source[end + 1] == 111 && n == 3) || (source[end
        + 1] == 110 && n == 2))) || (c == 116 && n > 1 && (last || (source[end + 1] == 104 && n
        == 4) || (source[end + 1] == 114 && n == 14)))
}

/// The end of the run of letters and digits, or of digits alone, from
/// `cur`.
fn run_end(source: &Vec<u8>, cur: usize, words: bool) -> (r: usize)
    requires
        cur <= source.len(),
    ensures
        words ==> r == word_end(source@, cur as int),
        !words ==> r == digits_end(source@, cur as int),
        cur <= r <= source.len(),
{
    let mut i = cur;
    while i < source.len() && (Scanner::is_digit(source[i]) || (words && Scanner::is_alpha(
        source[i],
    )))
        invariant
            cur <= i <= source.len(),
            words ==> word_end(source@, cur as int) == word_end(source@, i as int),
            !words ==> digits_end(source@, cur as int) == digits_end(source@, i as int),
        decreases source.len() - i,
    {
        i += 1;
    }
    i
}

/// What scanning one token from `cur` gives, without scanning it: where
/// the scanner stops and how many newlines it passes; `None` where the
/// scanner cannot go on.
pub fn scan_outcome(source: &Vec<u8>, cur: usize) -> (r: Option<(usize, usize)>)
    requires
        cur <= source.len(),
    ensures
        match scan_from(source@, cur as int) {
            Some((t, s, e, c, n)) => r matches Some((c2, n2)) && c2 == c && n2 == n,
            None => r is None,
        },
{
    let ghost src = source@;
    let len = source.len();
    let mut i = cur;
    let mut n: usize = 0;
    proof {
        lemma_skip_whitespace_bounds(src, cur as int);
    }
    loop
        invariant
            cur <= i <= len,
            len == src.len(),
            src == source@,
            n <= i - cur,
            skip_whitespace_from(src, cur as int) == with_more_lines(
                skip_whitespace_from(src, i as int),
                n as int,
            ),
        ensures
            cur <= i <= len,
            skip_whitespace_from(src, cur as int) == Some((i as int, n as int)),
        decreases len - i,
    {
        let c = if i < len {
            source[i]
        } else {
            0
        };
        if c == 32 || c == 13 || c == 9 {
            i += 1;
        } else if c == 10 {
            i += 1;
            n += 1;
        } else if c == 47 {
            if i + 1 >= len {
                return None;
            }
            if source[i + 1] != 47 {
                break ;
            }
            let ghost c0 = i as int;
            proof {
                lemma_comment_end_moves(src, c0);
            }
            while i < len && source[i] != 10 && source[i] != 0
                invariant
                    c0 <= i <= len,
                    len == src.len(),
                    src == source@,
                    comment_end(src, c0) == comment_end(src, i as int),
                decreases len - i,
            {
                i += 1;
            }
        } else {
            break ;
        }
    }
    let s = i;
    if s == len || source[s] == 0 {
        return Some((s, n));
    }
    let c = source[s];
    if Scanner::is_alpha(c) {
        let e = run_end(source, s, true);
        proof {
            lemma_run_ends(src, s + 1);
            assert(word_end(src, s as int) == word_end(src, s + 1));
        }
        if keyword_fails(source, s, e) {
            return None;
        }
        return Some((e, n));
    }
    if Scanner::is_digit(c) {
        let d = run_end(source, s, false);
        if d < len && source[d] == 46 {
            if d + 1 >= len {
                return None;
            }
            if Scanner::is_digit(source[d + 1]) {
                let e = run_end(source, d + 1, false);
                return Some((e, n));
            }
            return Some((d, n));
        }
        return Some((d, n));
    }
    if c == 33 || c == 62 || c == 60 {
        return Some((s, n));
    }
    Some((s + 1, n))
}

/// A space, a tab, a carriage return or a newline.
pub open spec fn whitespace(c: u8) -> bool {
    c == 32 || c == 9 || c == 13 || c == 10
}

/// Skipping whitespace never stops on whitespace, and so no token ever
/// starts on a space, a tab, a carriage return or a newline.
pub proof fn lemma_tokens_never_start_on_whitespace(src: Seq<u8>, cur: int)
    ensures
        skip_whitespace_from(src, cur) matches Some((s, n)) ==> !whitespace(peek_at(src, s)),
        scan_from(src, cur) matches Some((t, s, e, c, n)) ==> !whitespace(peek_at(src, s)),
    decreases src.len() - cur,
{
    if 0 <= cur <= src.len() {
        let c = peek_at(src, cur);
        if c == 32 || c == 13 || c == 9 || c == 10 {
            lemma_tokens_never_start_on_whitespace(src, cur + 1);
        } else if c == 47 && next_exists(src, cur) && next_at(src, cur) == 47 {
            let e = comment_end(src, cur);
            if cur < e <= src.len() {
                lemma_tokens_never_start_on_whitespace(src, e);
            }
        }
    }
}

} // verus!
