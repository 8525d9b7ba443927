//! The bytecode compiler: a Pratt parser that reads the tokens of an
//! arithmetic expression and writes the instructions that compute it.
//!
//! Its behaviour is stated over a model of its state (`CompilerV`): the
//! spec functions below say what each step does to the model, and each
//! step of the compiler is proved to do exactly that.
use vstd::prelude::*;
use vstd::slice::{slice_subrange, slice_to_vec};
use crate::interpreter::common::OpCode;
use crate::lox::chunk::{constants_view, lines_view, Byte, Chunk};
use crate::lox::parse_rule::{ParseOp, ParseRule};
use crate::lox::parser::Parser;
use crate::lox::precedence::{lemma_rank_round_trip, precedence_rank, Precedence};
use crate::lox::scanner::{
    lemma_scan_in_place, lemma_scan_moves_forward, scan_from, scan_outcome, single_byte_type, Scanner,
};
use crate::lox::token::{Token, TokenType};
use crate::lox::traits::PushLine;

verus! {

broadcast use vstd::seq::group_seq_axioms, vstd::std_specs::vec::group_vec_axioms;

/// A token as the compiler sees it: its kind, its text and its line.
pub struct TokenV {
    pub kind: TokenType,
    pub text: Seq<u8>,
    pub line: int,
}

/// The model of a token.
pub open spec fn token_view(t: Token<'_>) -> TokenV {
    TokenV { kind: t.token_type, text: t.text@, line: t.line as int }
}

/// Why a compile error was reported.
#[derive(Clone, Copy, Debug, PartialEq, Eq, Structural)]
pub enum CompileErrorKind {
    /// The scanner met a byte that starts no token.
    UnexpectedCharacter,
    /// A token that cannot start an expression stands where one must.
    ExpectedExpression,
    /// A chunk has more constants than an index of one byte can reach.
    TooManyConstants,
}

impl CompileErrorKind {
    /// The message shown for the error.
    pub fn message(&self) -> (r: &'static str)
        ensures
            *self == CompileErrorKind::UnexpectedCharacter ==> r@
                == "This is a terrible error message."@,
            *self == CompileErrorKind::ExpectedExpression ==> r@ == "Expected expression."@,
            *self == CompileErrorKind::TooManyConstants ==> r@ == "Too many constants in one chunk."@,
    {
        match self {
            CompileErrorKind::UnexpectedCharacter => "This is a terrible error message.",
            CompileErrorKind::ExpectedExpression => "Expected expression.",
            CompileErrorKind::TooManyConstants => "Too many constants in one chunk.",
        }
    }
}

/// A reported compile error: the token it was found at, and why.
#[derive(Clone, Copy, Debug)]
pub struct CompileError<'a> {
    pub token: Token<'a>,
    pub kind: CompileErrorKind,
}

/// The model of the reported errors.
pub open spec fn errors_view(errors: Seq<CompileError<'_>>) -> Seq<(TokenV, CompileErrorKind)> {
    errors.map_values(|e: CompileError| (token_view(e.token), e.kind))
}

/// The model of the compiler's state: where the scanner is and on which
/// line, the current and previous tokens, the error flags, the chunk
/// written so far and the errors reported so far.
pub struct CompilerV {
    pub pos: int,
    pub line: int,
    pub current: TokenV,
    pub previous: TokenV,
    pub had_error: bool,
    pub panic_mode: bool,
    pub codes: Seq<Byte>,
    pub constants: Seq<Seq<u8>>,
    pub lines: Seq<int>,
    pub errors: Seq<(TokenV, CompileErrorKind)>,
}

/// Whether the scanner can go on from `pos` on line `line` to the end of
/// the program: every token scans, and no line number passes `i32::MAX`.
pub open spec fn scannable(src: Seq<u8>, pos: int, line: int) -> bool
    decreases src.len() - pos,
{
    if 0 <= pos <= src.len() {
        match scan_from(src, pos) {
            Some((t, b, e, c, n)) => line + n <= i32::MAX && (pos < c <= src.len() ==> scannable(
                src,
                c,
                line + n,
            )),
            None => false,
        }
    } else {
        false
    }
}

/// The state once the next token is scanned into `current`.
pub open spec fn scanned(src: Seq<u8>, s: CompilerV) -> CompilerV {
    match scan_from(src, s.pos) {
        Some((t, b, e, c, n)) => CompilerV {
            pos: c,
            line: s.line + n,
            current: TokenV { kind: t, text: src.subrange(b, e), line: s.line + n },
            ..s
        },
        None => s,
    }
}

/// The state once an error at `token` is reported; while the compiler is
/// recovering from an earlier error, nothing is reported.
pub open spec fn reported(s: CompilerV, token: TokenV, kind: CompileErrorKind) -> CompilerV {
    if s.panic_mode {
        s
    } else {
        CompilerV { panic_mode: true, had_error: true, errors: s.errors.push((token, kind)), ..s }
    }
}

/// Scanning until a token is not an error, reporting each error token.
pub open spec fn scanned_past_errors(src: Seq<u8>, s: CompilerV) -> CompilerV
    decreases src.len() - s.pos,
{
    let t = scanned(src, s);
    if t.current.kind == TokenType::TokenError && s.pos < t.pos <= src.len() {
        scanned_past_errors(src, reported(t, t.current, CompileErrorKind::UnexpectedCharacter))
    } else {
        t
    }
}

/// The state once the compiler moves on: the current token becomes the
/// previous one, and the next token that is not an error becomes current.
pub open spec fn advanced(src: Seq<u8>, s: CompilerV) -> CompilerV {
    scanned_past_errors(src, CompilerV { previous: s.current, ..s })
}

/// The state once `byte` is added to the code, on the previous token's
/// line.
pub open spec fn emitted(s: CompilerV, byte: Byte) -> CompilerV {
    CompilerV { codes: s.codes.push(byte), lines: s.lines.push(s.previous.line), ..s }
}

/// Adding the previous token's text as a constant, on the scanner's
/// line: the new state and the index that loads it.  Past 255 constants
/// an error is reported at the previous token and the index is 0.
pub open spec fn with_constant(s: CompilerV) -> (CompilerV, u8) {
    let index = s.constants.len();
    let t = CompilerV {
        constants: s.constants.push(s.previous.text),
        lines: s.lines.push(s.line),
        ..s
    };
    if index > 255 {
        (reported(t, t.previous, CompileErrorKind::TooManyConstants), 0u8)
    } else {
        (t, index as u8)
    }
}

/// A number: its text becomes a constant, which the code then loads.
pub open spec fn numbered(s: CompilerV) -> CompilerV {
    let (t, i) = with_constant(s);
    emitted(emitted(t, Byte::Op(OpCode::OpConstant)), Byte::Constant(i))
}

/// The rule of each kind of token.
pub open spec fn rule_of(kind: TokenType) -> ParseRule {
    match kind {
        TokenType::TokenLeftParen => ParseRule {
            prefix: ParseOp::Grouping,
            infix: ParseOp::Noop,
            precedence: Precedence::PrecedenceNone,
        },
        TokenType::TokenMinus => ParseRule {
            prefix: ParseOp::Unary,
            infix: ParseOp::Binary,
            precedence: Precedence::PrecedenceTerm,
        },
        TokenType::TokenPlus => ParseRule {
            prefix: ParseOp::Noop,
            infix: ParseOp::Binary,
            precedence: Precedence::PrecedenceTerm,
        },
        TokenType::TokenSlash => ParseRule {
            prefix: ParseOp::Noop,
            infix: ParseOp::Binary,
            precedence: Precedence::PrecedenceFactor,
        },
        TokenType::TokenStar => ParseRule {
            prefix: ParseOp::Noop,
            infix: ParseOp::Binary,
            precedence: Precedence::PrecedenceFactor,
        },
        TokenType::TokenNumber => ParseRule {
            prefix: ParseOp::Number,
            infix: ParseOp::Noop,
            precedence: Precedence::PrecedenceNone,
        },
        _ => ParseRule {
            prefix: ParseOp::Noop,
            infix: ParseOp::Noop,
            precedence: Precedence::PrecedenceNone,
        },
    }
}

/// The level one tighter than `p`; the tightest stays as it is.
pub open spec fn next_level(p: Precedence) -> Precedence {
    match p {
        Precedence::PrecedenceNone => Precedence::PrecedenceAssignment,
        Precedence::PrecedenceAssignment => Precedence::PrecedenceOr,
        Precedence::PrecedenceOr => Precedence::PrecedenceAnd,
        Precedence::PrecedenceAnd => Precedence::PrecedenceEquality,
        Precedence::PrecedenceEquality => Precedence::PrecedenceComparison,
        Precedence::PrecedenceComparison => Precedence::PrecedenceTerm,
        Precedence::PrecedenceTerm => Precedence::PrecedenceFactor,
        Precedence::PrecedenceFactor => Precedence::PrecedenceUnary,
        Precedence::PrecedenceUnary => Precedence::PrecedenceCall,
        Precedence::PrecedenceCall => Precedence::PrecedencePrimary,
        Precedence::PrecedencePrimary => Precedence::PrecedencePrimary,
    }
}

/// The instruction of a binary operator.
pub open spec fn binary_opcode(kind: TokenType) -> OpCode {
    match kind {
        TokenType::TokenPlus => OpCode::OpAdd,
        TokenType::TokenMinus => OpCode::OpSubtract,
        TokenType::TokenStar => OpCode::OpMultiply,
        _ => OpCode::OpDivide,
    }
}

/// The kinds of tokens whose rule lets the parser go deeper: each takes
/// up at least one byte of the program.
pub open spec fn mover(kind: TokenType) -> bool {
    ||| kind == TokenType::TokenLeftParen
    ||| kind == TokenType::TokenMinus
    ||| kind == TokenType::TokenPlus
    ||| kind == TokenType::TokenStar
    ||| kind == TokenType::TokenSlash
}

/// A bound on the work left: the bytes not yet scanned, and whether the
/// current token is one that lets the parser go deeper.
pub open spec fn measure(src: Seq<u8>, s: CompilerV) -> int {
    4 * (src.len() - s.pos) + if mover(s.current.kind) {
        2int
    } else {
        0int
    }
}

/// The bound of a state in which the previous token's rule is being
/// applied.
pub open spec fn measure_after(src: Seq<u8>, s: CompilerV) -> int {
    measure(src, s) + if mover(s.previous.kind) {
        2int
    } else {
        0int
    }
}

/// Applying the rule `op` of the previous token, with `fuel` for the
/// parsing it starts; `None` where the fuel runs out.
pub open spec fn dispatched(src: Seq<u8>, s: CompilerV, op: ParseOp, fuel: nat) -> Option<
    CompilerV,
>
    decreases fuel, 2nat,
{
    match op {
        ParseOp::Grouping => match parsed(src, s, Precedence::PrecedenceAssignment, fuel) {
            Some(r) => Some(advanced(src, r)),
            None => None,
        },
        ParseOp::Unary => match parsed(src, s, Precedence::PrecedenceUnary, fuel) {
            Some(r) => Some(emitted(r, Byte::Op(OpCode::OpNegate))),
            None => None,
        },
        ParseOp::Binary => match parsed(
            src,
            s,
            next_level(rule_of(s.previous.kind).precedence),
            fuel,
        ) {
            Some(r) => Some(emitted(r, Byte::Op(binary_opcode(s.previous.kind)))),
            None => None,
        },
        ParseOp::Number => Some(numbered(s)),
        ParseOp::Noop => Some(reported(s, s.previous, CompileErrorKind::ExpectedExpression)),
    }
}

/// Parsing an expression whose operators bind at least as tightly as
/// `p`: the next token is read and its prefix rule applied, then infix
/// operators are read while they bind tightly enough.
pub open spec fn parsed(src: Seq<u8>, s: CompilerV, p: Precedence, fuel: nat) -> Option<CompilerV>
    decreases fuel, 1nat,
{
    if fuel == 0 {
        None
    } else {
        let s1 = advanced(src, s);
        match dispatched(src, s1, rule_of(s1.previous.kind).prefix, (fuel - 1) as nat) {
            Some(r) => infix_parsed(src, r, p, (fuel - 1) as nat),
            None => None,
        }
    }
}

/// Reading infix operators that bind at least as tightly as `p`.
pub open spec fn infix_parsed(src: Seq<u8>, s: CompilerV, p: Precedence, fuel: nat) -> Option<
    CompilerV,
>
    decreases fuel, 0nat,
{
    if precedence_rank(p) <= precedence_rank(rule_of(s.current.kind).precedence) {
        if fuel == 0 {
            None
        } else {
            let s1 = advanced(src, s);
            match dispatched(src, s1, rule_of(s1.previous.kind).infix, (fuel - 1) as nat) {
                Some(r) => infix_parsed(src, r, p, (fuel - 1) as nat),
                None => None,
            }
        }
    } else {
        Some(s)
    }
}

/// Compiling the program from state `s`: the first token is read, an
/// expression is parsed, the token after it is passed over, and a return
/// ends the code.
pub open spec fn compiled_from(src: Seq<u8>, s: CompilerV) -> CompilerV {
    let s1 = advanced(src, s);
    let s2 = match parsed(src, s1, Precedence::PrecedenceAssignment, (4 * src.len() + 5) as nat) {
        Some(r) => r,
        None => s1,
    };
    emitted(advanced(src, s2), Byte::Op(OpCode::OpReturn))
}

/// The model of a compiler that has read nothing yet.
pub open spec fn start_state() -> CompilerV {
    let nothing = TokenV { kind: TokenType::TokenDefault, text: Seq::empty(), line: 0 };
    CompilerV {
        pos: 0,
        line: 1,
        current: nothing,
        previous: nothing,
        had_error: false,
        panic_mode: false,
        codes: Seq::empty(),
        constants: Seq::empty(),
        lines: Seq::empty(),
        errors: Seq::empty(),
    }
}

/// Whether the whole of `source` scans, which compiling it needs: the
/// test to make before `Compiler::compile`.
pub fn scans_through(source: &Vec<u8>) -> (r: bool)
    ensures
        r == scannable(source@, 0, 1),
{
    let ghost src = source@;
    let mut pos: usize = 0;
    let mut line: usize = 1;
    loop
        invariant
            pos <= source.len(),
            1 <= line <= i32::MAX,
            src == source@,
            scannable(src, 0, 1) == scannable(src, pos as int, line as int),
        decreases source.len() - pos,
    {
        proof {
            lemma_scan_moves_forward(src, pos as int);
        }
        match scan_outcome(source, pos) {
            None => {
                return false;
            },
            Some((c, n)) => {
                if n > 2147483647 - line {
                    return false;
                }
                if c <= pos {
                    return true;
                }
                pos = c;
                line = line + n;
            },
        }
    }
}

/// Whether an entry of the code loads a constant among the first `n`, or
/// is an instruction.
pub open spec fn loads_existing(b: Byte, n: nat) -> bool {
    match b {
        Byte::Constant(k) => k < n,
        Byte::Op(_) => true,
    }
}

/// What every state the compiler reaches keeps: the error flag is set
/// exactly when an error was reported, and the code loads only constants
/// that the chunk holds.
pub open spec fn consistent(s: CompilerV) -> bool {
    &&& s.had_error <==> s.errors.len() > 0
    &&& forall|i: int|
        0 <= i < s.codes.len() ==> loads_existing(#[trigger] s.codes[i], s.constants.len())
}

/// Reporting an error, adding an instruction and adding a number keep a
/// state consistent.
proof fn lemma_steps_consistent(s: CompilerV, token: TokenV, kind: CompileErrorKind, op: OpCode)
    requires
        consistent(s),
    ensures
        consistent(reported(s, token, kind)),
        consistent(emitted(s, Byte::Op(op))),
        consistent(numbered(s)),
{
    let e = emitted(s, Byte::Op(op));
    assert forall|i: int| 0 <= i < e.codes.len() implies loads_existing(
        #[trigger] e.codes[i],
        e.constants.len(),
    ) by {
        if i < s.codes.len() {
            assert(e.codes[i] == s.codes[i]);
        }
    }
    let (t, k) = with_constant(s);
    assert forall|i: int| 0 <= i < t.codes.len() implies loads_existing(
        #[trigger] t.codes[i],
        t.constants.len(),
    ) by {
        assert(t.codes[i] == s.codes[i]);
        assert(loads_existing(s.codes[i], s.constants.len()));
    }
    let t1 = emitted(t, Byte::Op(OpCode::OpConstant));
    let t2 = emitted(t1, Byte::Constant(k));
    assert forall|i: int| 0 <= i < t2.codes.len() implies loads_existing(
        #[trigger] t2.codes[i],
        t2.constants.len(),
    ) by {
        if i < t.codes.len() {
            assert(t2.codes[i] == t.codes[i]);
        } else if i == t.codes.len() {
            assert(t2.codes[i] == Byte::Op(OpCode::OpConstant));
        } else {
            assert(t2.codes[i] == Byte::Constant(k));
        }
    }
}

/// Scanning keeps a state consistent.
proof fn lemma_scanning_consistent(src: Seq<u8>, s: CompilerV)
    requires
        consistent(s),
    ensures
        consistent(scanned_past_errors(src, s)),
    decreases src.len() - s.pos,
{
    let t = scanned(src, s);
    if t.current.kind == TokenType::TokenError && s.pos < t.pos <= src.len() {
        lemma_steps_consistent(t, t.current, CompileErrorKind::UnexpectedCharacter, OpCode::OpReturn);
        lemma_scanning_consistent(src, reported(t, t.current, CompileErrorKind::UnexpectedCharacter));
    }
}

/// Applying a rule keeps a state consistent.
proof fn lemma_dispatched_consistent(src: Seq<u8>, s: CompilerV, op: ParseOp, fuel: nat)
    requires
        consistent(s),
    ensures
        dispatched(src, s, op, fuel) matches Some(r) ==> consistent(r),
    decreases fuel, 2nat,
{
    lemma_steps_consistent(s, s.previous, CompileErrorKind::ExpectedExpression, OpCode::OpReturn);
    match op {
        ParseOp::Grouping => {
            lemma_parsed_consistent(src, s, Precedence::PrecedenceAssignment, fuel);
            match parsed(src, s, Precedence::PrecedenceAssignment, fuel) {
                Some(r) => lemma_scanning_consistent(src, CompilerV { previous: r.current, ..r }),
                None => {},
            }
        },
        ParseOp::Unary => {
            lemma_parsed_consistent(src, s, Precedence::PrecedenceUnary, fuel);
            match parsed(src, s, Precedence::PrecedenceUnary, fuel) {
                Some(r) => lemma_steps_consistent(r, r.previous, CompileErrorKind::ExpectedExpression, OpCode::OpNegate),
                None => {},
            }
        },
        ParseOp::Binary => {
            let p = next_level(rule_of(s.previous.kind).precedence);
            lemma_parsed_consistent(src, s, p, fuel);
            match parsed(src, s, p, fuel) {
                Some(r) => lemma_steps_consistent(
                    r,
                    r.previous,
                    CompileErrorKind::ExpectedExpression,
                    binary_opcode(s.previous.kind),
                ),
                None => {},
            }
        },
        _ => {},
    }
}

/// Parsing keeps a state consistent.
proof fn lemma_parsed_consistent(src: Seq<u8>, s: CompilerV, p: Precedence, fuel: nat)
    requires
        consistent(s),
    ensures
        parsed(src, s, p, fuel) matches Some(r) ==> consistent(r),
    decreases fuel, 1nat,
{
    if fuel > 0 {
        lemma_scanning_consistent(src, CompilerV { previous: s.current, ..s });
        let s1 = advanced(src, s);
        let f = (fuel - 1) as nat;
        lemma_dispatched_consistent(src, s1, rule_of(s1.previous.kind).prefix, f);
        match dispatched(src, s1, rule_of(s1.previous.kind).prefix, f) {
            Some(r) => lemma_infix_consistent(src, r, p, f),
            None => {},
        }
    }
}

/// Reading infix operators keeps a state consistent.
proof fn lemma_infix_consistent(src: Seq<u8>, s: CompilerV, p: Precedence, fuel: nat)
    requires
        consistent(s),
    ensures
        infix_parsed(src, s, p, fuel) matches Some(r) ==> consistent(r),
    decreases fuel, 0nat,
{
    if fuel > 0 {
        lemma_scanning_consistent(src, CompilerV { previous: s.current, ..s });
        let s1 = advanced(src, s);
        let f = (fuel - 1) as nat;
        lemma_dispatched_consistent(src, s1, rule_of(s1.previous.kind).infix, f);
        match dispatched(src, s1, rule_of(s1.previous.kind).infix, f) {
            Some(r) => lemma_infix_consistent(src, r, p, f),
            None => {},
        }
    }
}

/// A compiled chunk ends with a return and loads only constants it
/// holds, and compiling reports failure exactly when an error was
/// reported.
pub proof fn lemma_compiled_consistent(src: Seq<u8>)
    ensures
        consistent(compiled_from(src, start_state())),
        compiled_from(src, start_state()).codes.last() == Byte::Op(OpCode::OpReturn),
{
    let s = start_state();
    lemma_scanning_consistent(src, CompilerV { previous: s.current, ..s });
    let s1 = advanced(src, s);
    let f = (4 * src.len() + 5) as nat;
    lemma_parsed_consistent(src, s1, Precedence::PrecedenceAssignment, f);
    let s2 = match parsed(src, s1, Precedence::PrecedenceAssignment, f) {
        Some(r) => r,
        None => s1,
    };
    lemma_scanning_consistent(src, CompilerV { previous: s2.current, ..s2 });
    lemma_steps_consistent(advanced(src, s2), s2.previous, CompileErrorKind::ExpectedExpression, OpCode::OpReturn);
}

/// One token can be scanned from a scannable position, and the scanner
/// can go on from where it stops.  It stays in place only on a token
/// that takes up no byte, which lets the parser go no deeper.
pub proof fn lemma_scannable_step(src: Seq<u8>, pos: int, line: int)
    requires
        scannable(src, pos, line),
    ensures
        scan_from(src, pos) matches Some((t, b, e, c, n)) && pos <= b <= e <= src.len() && pos <= c
            <= src.len() && n >= 0 && line + n <= i32::MAX && scannable(src, c, line + n) && (c
            == pos ==> !mover(t)) && (t == TokenType::TokenError ==> pos < c),
{
    lemma_scan_moves_forward(src, pos);
    lemma_scan_in_place(src, pos);
}

/// Scanning past error tokens keeps the scanner able to go on, never
/// moves it back, and stays in place only on a token that lets the
/// parser go no deeper.  Only the scanner, the current token and the
/// error reports change.
proof fn lemma_past_errors(src: Seq<u8>, s: CompilerV)
    requires
        scannable(src, s.pos, s.line),
    ensures
        ({
            let r = scanned_past_errors(src, s);
            &&& s.pos <= r.pos <= src.len()
            &&& scannable(src, r.pos, r.line)
            &&& r.pos == s.pos ==> !mover(r.current.kind)
            &&& r.previous == s.previous
        }),
    decreases src.len() - s.pos,
{
    lemma_scannable_step(src, s.pos, s.line);
    let t = scanned(src, s);
    if t.current.kind == TokenType::TokenError && s.pos < t.pos <= src.len() {
        lemma_past_errors(src, reported(t, t.current, CompileErrorKind::UnexpectedCharacter));
    }
}

/// The compiler: it scans the program, parses it, and writes the chunk.
/// Errors are collected, not printed.
pub struct Compiler<'a> {
    scanner: Scanner<'a>,
    parser: Parser<'a>,
    compiling_chunk: Chunk,
    errors: Vec<CompileError<'a>>,
}

impl<'a> View for Compiler<'a> {
    type V = CompilerV;

    closed spec fn view(&self) -> CompilerV {
        CompilerV {
            pos: self.scanner.position() as int,
            line: self.scanner.line_number() as int,
            current: token_view(self.parser.current),
            previous: token_view(self.parser.previous),
            had_error: self.parser.had_error,
            panic_mode: self.parser.panic_mode,
            codes: self.compiling_chunk.codes@,
            constants: constants_view(self.compiling_chunk.constants@),
            lines: lines_view(self.compiling_chunk.lines@),
            errors: errors_view(self.errors@),
        }
    }
}

impl<'a> Compiler<'a> {
    /// The program being compiled.
    pub closed spec fn source(&self) -> Seq<u8> {
        self.scanner.bytes()
    }

    /// The compiler can go on: the scanner can scan to the end of the
    /// program.
    pub closed spec fn wf(&self) -> bool {
        &&& self.scanner.position() <= self.scanner.bytes().len()
        &&& scannable(
            self.scanner.bytes(),
            self.scanner.position() as int,
            self.scanner.line_number() as int,
        )
    }

    /// A compiler at the start of `source`, with an empty chunk and no
    /// errors; it can go on where the whole program scans.
    pub fn new(source: &'a Vec<u8>) -> (r: Compiler<'a>)
        ensures
            r.source() == source@,
            r@ == start_state(),
            r.wf() <==> scannable(source@, 0, 1),
    {
        let nothing = Token {
            token_type: TokenType::TokenDefault,
            text: slice_subrange(source.as_slice(), 0, 0),
            line: 0,
        };
        let compiler = Compiler {
            scanner: Scanner::new(source),
            parser: Parser { current: nothing, previous: nothing, had_error: false, panic_mode: false },
            compiling_chunk: Chunk::new(),
            errors: Vec::new(),
        };
        proof {
            assert(compiler@.codes =~= Seq::<Byte>::empty());
            assert(compiler@.constants =~= Seq::<Seq<u8>>::empty());
            assert(compiler@.lines =~= Seq::<int>::empty());
            assert(compiler@.errors =~= Seq::<(TokenV, CompileErrorKind)>::empty());
            assert(nothing.text@ =~= Seq::<u8>::empty());
        }
        compiler
    }

    /// The chunk written so far.
    pub fn chunk(&self) -> (r: &Chunk)
        ensures
            r.codes@ == self@.codes,
            constants_view(r.constants@) == self@.constants,
            lines_view(r.lines@) == self@.lines,
    {
        &self.compiling_chunk
    }

    /// The errors reported so far.
    pub fn errors(&self) -> (r: &Vec<CompileError<'a>>)
        ensures
            errors_view(r@) == self@.errors,
    {
        &self.errors
    }

    /// Compiles the program: reads its first token, parses an expression,
    /// passes over the token after it and ends the code with a return.
    /// Gives whether no error was reported.
    pub fn compile(&mut self) -> (r: bool)
        requires
            old(self).wf(),
        ensures
            final(self).wf(),
            final(self).source() == old(self).source(),
            final(self)@ == compiled_from(old(self).source(), old(self)@),
            r == !final(self)@.had_error,
    {
        let ghost src = self.source();
        self.advance();
        let ghost s1 = self@;
        self.expression();
        let ghost s2 = self@;
        proof {
            let f = (4 * src.len() + 5) as nat;
            assert(f > measure(src, s1) + 2);
            assert(parsed(src, s1, Precedence::PrecedenceAssignment, f) == Some(s2));
        }
        self.consume(TokenType::TokenEof, "Expected end of expression");
        self.end_compile();
        !self.parser.had_error
    }

    /// Moves on: the current token becomes the previous one, and tokens
    /// are scanned until one is not an error, reporting each error token.
    pub fn advance(&mut self)
        requires
            old(self).wf(),
        ensures
            final(self).wf(),
            final(self).source() == old(self).source(),
            final(self)@ == advanced(old(self).source(), old(self)@),
            final(self)@.previous == old(self)@.current,
            measure(old(self).source(), final(self)@) + (if mover(old(self)@.current.kind) {
                2int
            } else {
                0int
            }) <= measure(old(self).source(), old(self)@),
    {
        let ghost src = self.source();
        self.parser.previous = self.parser.current;
        let ghost entry = self@;
        proof {
            lemma_past_errors(src, entry);
        }
        loop
            invariant_except_break
                scanned_past_errors(src, self@) == scanned_past_errors(src, entry),
            invariant
                self.wf(),
                self.source() == src,
            ensures
                self.wf(),
                self.source() == src,
                self@ == scanned_past_errors(src, entry),
            decreases src.len() - self@.pos,
        {
            let ghost before = self@;
            proof {
                lemma_scannable_step(src, before.pos, before.line);
            }
            self.parser.current = self.scanner.scan_token();
            assert(self@ == scanned(src, before));
            if self.parser.current.token_type != TokenType::TokenError {
                break ;
            }
            self.error_at_current(CompileErrorKind::UnexpectedCharacter);
        }
    }

    /// Moves past the current token.  The expected kind and the message
    /// are not checked against it: any token is passed over.
    pub fn consume(&mut self, _token_type: TokenType, _message: &str)
        requires
            old(self).wf(),
        ensures
            final(self).wf(),
            final(self).source() == old(self).source(),
            final(self)@ == advanced(old(self).source(), old(self)@),
            final(self)@.previous == old(self)@.current,
            measure(old(self).source(), final(self)@) + (if mover(old(self)@.current.kind) {
                2int
            } else {
                0int
            }) <= measure(old(self).source(), old(self)@),
    {
        self.advance();
    }

    /// A binary operator: parses its right operand one level tighter, then
    /// adds the operator's instruction.
    fn binary(&mut self)
        requires
            old(self).wf(),
            old(self)@.previous.kind == TokenType::TokenPlus || old(self)@.previous.kind
                == TokenType::TokenMinus || old(self)@.previous.kind == TokenType::TokenStar
                || old(self)@.previous.kind == TokenType::TokenSlash,
        ensures
            final(self).wf(),
            final(self).source() == old(self).source(),
            measure(old(self).source(), final(self)@) <= measure(old(self).source(), old(self)@),
            forall|f: nat|
                f > measure_after(old(self).source(), old(self)@) ==> dispatched(
                    old(self).source(),
                    old(self)@,
                    ParseOp::Binary,
                    f,
                ) == Some(final(self)@),
        decreases measure_after(old(self).source(), old(self)@), 0int,
    {
        let ghost src = self.source();
        let ghost s0 = self@;
        let operator_type = self.parser.previous.token_type;
        let rule = self.get_rule(operator_type);
        let level = Precedence::from_u8(rule.precedence.rank() + 1);
        proof {
            lemma_rank_round_trip(level.unwrap());
        }
        let precedence = level.unwrap();
        assert(precedence == next_level(rule.precedence));
        self.parse_precedence(precedence);
        let ghost mid = self@;
        proof {
            assert forall|f: nat| f > measure_after(src, s0) implies parsed(src, s0, precedence, f)
                == Some(mid) by {}
        }
        match operator_type {
            TokenType::TokenPlus => self.emit_byte(Byte::Op(OpCode::OpAdd)),
            TokenType::TokenMinus => self.emit_byte(Byte::Op(OpCode::OpSubtract)),
            TokenType::TokenStar => self.emit_byte(Byte::Op(OpCode::OpMultiply)),
            TokenType::TokenSlash => self.emit_byte(Byte::Op(OpCode::OpDivide)),
            _ => {
                proof {
                    assert(false);
                }
            },
        }
        proof {
            assert forall|f: nat| f > measure_after(src, s0) implies dispatched(
                src,
                s0,
                ParseOp::Binary,
                f,
            ) == Some(self@) by {
                assert(parsed(src, s0, precedence, f) == Some(mid));
                assert(self@ == emitted(mid, Byte::Op(binary_opcode(s0.previous.kind))));
                assert(next_level(rule_of(s0.previous.kind).precedence) == precedence);
            }
        }
    }

    /// Adds an entry to the code, on the previous token's line.
    fn emit_byte(&mut self, byte: Byte)
        ensures
            final(self)@ == emitted(old(self)@, byte),
            final(self).scanner == old(self).scanner,
    {
        let line = self.parser.previous.line;
        let _ = self.compiling_chunk.push_line(byte, line);
        proof {
            assert(self@.lines =~= old(self)@.lines.push(old(self)@.previous.line));
        }
    }

    /// Adds two entries to the code.
    fn emit_bytes(&mut self, byte_one: Byte, byte_two: Byte)
        ensures
            final(self)@ == emitted(emitted(old(self)@, byte_one), byte_two),
            final(self).scanner == old(self).scanner,
    {
        self.emit_byte(byte_one);
        self.emit_byte(byte_two);
    }

    /// Adds `text` as a constant and the code that loads it.
    fn emit_constant(&mut self, text: Vec<u8>)
        requires
            text@ == old(self)@.previous.text,
        ensures
            final(self)@ == numbered(old(self)@),
            final(self).scanner == old(self).scanner,
    {
        let constant_index = self.make_constant(text);
        self.emit_bytes(Byte::Op(OpCode::OpConstant), Byte::Constant(constant_index));
    }

    /// Ends the code with a return.
    fn emit_return(&mut self)
        ensures
            final(self)@ == emitted(old(self)@, Byte::Op(OpCode::OpReturn)),
            final(self).scanner == old(self).scanner,
    {
        self.emit_byte(Byte::Op(OpCode::OpReturn))
    }

    /// Finishes the code.
    fn end_compile(&mut self)
        ensures
            final(self)@ == emitted(old(self)@, Byte::Op(OpCode::OpReturn)),
            final(self).scanner == old(self).scanner,
    {
        self.emit_return();
    }

    /// Reports an error at the current token.
    fn error_at_current(&mut self, kind: CompileErrorKind)
        ensures
            final(self)@ == reported(old(self)@, old(self)@.current, kind),
            final(self).scanner == old(self).scanner,
    {
        let token = self.parser.current;
        self.error_at(token, kind);
    }

    /// Reports an error at the previous token.
    fn error(&mut self, kind: CompileErrorKind)
        ensures
            final(self)@ == reported(old(self)@, old(self)@.previous, kind),
            final(self).scanner == old(self).scanner,
    {
        let token = self.parser.previous;
        self.error_at(token, kind);
    }

    /// Reports an error at `token`, unless the compiler is recovering from
    /// an earlier one; from then on it is.
    fn error_at(&mut self, token: Token<'a>, kind: CompileErrorKind)
        ensures
            final(self)@ == reported(old(self)@, token_view(token), kind),
            final(self).scanner == old(self).scanner,
    {
        if self.parser.panic_mode {
            return ;
        }
        self.parser.panic_mode = true;
        self.errors.push(CompileError { token, kind });
        self.parser.had_error = true;
        proof {
            assert(self@.errors =~= old(self)@.errors.push((token_view(token), kind)));
        }
    }

    /// Parses an expression.
    fn expression(&mut self)
        requires
            old(self).wf(),
        ensures
            final(self).wf(),
            final(self).source() == old(self).source(),
            measure(old(self).source(), final(self)@) <= measure(old(self).source(), old(self)@),
            forall|f: nat|
                f > measure(old(self).source(), old(self)@) + 2 ==> parsed(
                    old(self).source(),
                    old(self)@,
                    Precedence::PrecedenceAssignment,
                    f,
                ) == Some(final(self)@),
        decreases measure(old(self).source(), old(self)@), 4int,
    {
        self.parse_precedence(Precedence::PrecedenceAssignment);
    }

    /// The rule of a kind of token.
    fn get_rule(&self, token_type: TokenType) -> (r: ParseRule)
        ensures
            r == rule_of(token_type),
    {
        match token_type {
            TokenType::TokenLeftParen => ParseRule {
                prefix: ParseOp::Grouping,
                infix: ParseOp::Noop,
                precedence: Precedence::PrecedenceNone,
            },
            TokenType::TokenMinus => ParseRule {
                prefix: ParseOp::Unary,
                infix: ParseOp::Binary,
                precedence: Precedence::PrecedenceTerm,
            },
            TokenType::TokenPlus => ParseRule {
                prefix: ParseOp::Noop,
                infix: ParseOp::Binary,
                precedence: Precedence::PrecedenceTerm,
            },
            TokenType::TokenSlash => ParseRule {
                prefix: ParseOp::Noop,
                infix: ParseOp::Binary,
                precedence: Precedence::PrecedenceFactor,
            },
            TokenType::TokenStar => ParseRule {
                prefix: ParseOp::Noop,
                infix: ParseOp::Binary,
                precedence: Precedence::PrecedenceFactor,
            },
            TokenType::TokenNumber => ParseRule {
                prefix: ParseOp::Number,
                infix: ParseOp::Noop,
                precedence: Precedence::PrecedenceNone,
            },
            _ => ParseRule {
                prefix: ParseOp::Noop,
                infix: ParseOp::Noop,
                precedence: Precedence::PrecedenceNone,
            },
        }
    }

    /// A parenthesized expression: parses the expression, then passes
    /// over the token after it.
    fn grouping(&mut self)
        requires
            old(self).wf(),
            old(self)@.previous.kind == TokenType::TokenLeftParen,
        ensures
            final(self).wf(),
            final(self).source() == old(self).source(),
            measure(old(self).source(), final(self)@) <= measure(old(self).source(), old(self)@),
            forall|f: nat|
                f > measure_after(old(self).source(), old(self)@) ==> dispatched(
                    old(self).source(),
                    old(self)@,
                    ParseOp::Grouping,
                    f,
                ) == Some(final(self)@),
        decreases measure_after(old(self).source(), old(self)@), 0int,
    {
        let ghost src = self.source();
        let ghost s0 = self@;
        self.expression();
        let ghost mid = self@;
        proof {
            assert forall|f: nat| f > measure_after(src, s0) implies parsed(
                src,
                s0,
                Precedence::PrecedenceAssignment,
                f,
            ) == Some(mid) by {}
        }
        self.consume(TokenType::TokenRightParen, "Expected ')' after expression.");
        proof {
            assert forall|f: nat| f > measure_after(src, s0) implies dispatched(
                src,
                s0,
                ParseOp::Grouping,
                f,
            ) == Some(self@) by {
                assert(parsed(src, s0, Precedence::PrecedenceAssignment, f) == Some(mid));
                assert(self@ == advanced(src, mid));
            }
        }
    }

    /// Adds the constant of a number literal: its text, on the scanner's
    /// line.  Past 255 constants it reports an error and gives index 0.
    fn make_constant(&mut self, text: Vec<u8>) -> (r: u8)
        requires
            text@ == old(self)@.previous.text,
        ensures
            (final(self)@, r) == with_constant(old(self)@),
            final(self).scanner == old(self).scanner,
    {
        let line = self.scanner.current_line();
        let constant = self.compiling_chunk.push_line(text, line);
        proof {
            assert(self@.constants =~= old(self)@.constants.push(old(self)@.previous.text));
            assert(self@.lines =~= old(self)@.lines.push(old(self)@.line));
        }
        if constant > 255 {
            self.error(CompileErrorKind::TooManyConstants);
            return 0;
        }
        constant as u8
    }

    /// A number literal: its text becomes a constant that the code loads.
    fn number(&mut self)
        ensures
            final(self)@ == numbered(old(self)@),
            final(self).scanner == old(self).scanner,
    {
        let text = slice_to_vec(self.parser.previous.text);
        self.emit_constant(text);
    }

    /// Applies a rule to the previous token.
    fn apply_rule(&mut self, op: ParseOp)
        requires
            old(self).wf(),
            op == ParseOp::Grouping ==> old(self)@.previous.kind == TokenType::TokenLeftParen,
            op == ParseOp::Unary ==> old(self)@.previous.kind == TokenType::TokenMinus,
            op == ParseOp::Binary ==> (old(self)@.previous.kind == TokenType::TokenPlus || old(
                self,
            )@.previous.kind == TokenType::TokenMinus || old(self)@.previous.kind
                == TokenType::TokenStar || old(self)@.previous.kind == TokenType::TokenSlash),
        ensures
            final(self).wf(),
            final(self).source() == old(self).source(),
            measure(old(self).source(), final(self)@) <= measure(old(self).source(), old(self)@),
            forall|f: nat|
                f > measure_after(old(self).source(), old(self)@) ==> dispatched(
                    old(self).source(),
                    old(self)@,
                    op,
                    f,
                ) == Some(final(self)@),
        decreases measure_after(old(self).source(), old(self)@), 1int,
    {
        match op {
            ParseOp::Grouping => self.grouping(),
            ParseOp::Binary => self.binary(),
            ParseOp::Unary => self.unary(),
            ParseOp::Number => self.number(),
            ParseOp::Noop => self.error(CompileErrorKind::ExpectedExpression),
        }
    }

    /// Parses an expression whose operators bind at least as tightly as
    /// `precedence`: reads a token and applies its prefix rule, then reads
    /// infix operators while they bind tightly enough.
    fn parse_precedence(&mut self, precedence: Precedence)
        requires
            old(self).wf(),
            precedence_rank(precedence) >= 1,
        ensures
            final(self).wf(),
            final(self).source() == old(self).source(),
            measure(old(self).source(), final(self)@) <= measure(old(self).source(), old(self)@),
            forall|f: nat|
                f > measure(old(self).source(), old(self)@) + 2 ==> parsed(
                    old(self).source(),
                    old(self)@,
                    precedence,
                    f,
                ) == Some(final(self)@),
        decreases measure(old(self).source(), old(self)@), 3int,
    {
        let ghost src = self.source();
        let ghost s0 = self@;
        self.advance();
        let ghost s1 = self@;
        let token_type = self.parser.previous.token_type;
        let prefix_rule = self.get_rule(token_type).prefix;
        self.apply_rule(prefix_rule);
        let ghost s2 = self@;
        self.infix_operators(precedence);
        proof {
            assert forall|f: nat| f > measure(src, s0) + 2 implies parsed(src, s0, precedence, f)
                == Some(self@) by {
                assert(s1 == advanced(src, s0));
                assert(dispatched(src, s1, rule_of(s1.previous.kind).prefix, (f - 1) as nat) == Some(
                    s2,
                ));
                assert(infix_parsed(src, s2, precedence, (f - 1) as nat) == Some(self@));
            }
        }
    }

    /// Reads infix operators while they bind at least as tightly as
    /// `precedence`, applying each one's infix rule.
    fn infix_operators(&mut self, precedence: Precedence)
        requires
            old(self).wf(),
            precedence_rank(precedence) >= 1,
        ensures
            final(self).wf(),
            final(self).source() == old(self).source(),
            measure(old(self).source(), final(self)@) <= measure(old(self).source(), old(self)@),
            forall|f: nat|
                f > measure(old(self).source(), old(self)@) + 1 ==> infix_parsed(
                    old(self).source(),
                    old(self)@,
                    precedence,
                    f,
                ) == Some(final(self)@),
        decreases measure(old(self).source(), old(self)@), 2int,
    {
        let ghost src = self.source();
        let ghost s0 = self@;
        let current_rule = self.get_rule(self.parser.current.token_type);
        if precedence.at_most(&current_rule.precedence) {
            self.advance();
            let ghost s1 = self@;
            let infix_rule = self.get_rule(self.parser.previous.token_type).infix;
            self.apply_rule(infix_rule);
            let ghost s2 = self@;
            self.infix_operators(precedence);
            proof {
                assert forall|f: nat| f > measure(src, s0) + 1 implies infix_parsed(
                    src,
                    s0,
                    precedence,
                    f,
                ) == Some(self@) by {
                    assert(s1 == advanced(src, s0));
                    assert(dispatched(src, s1, rule_of(s1.previous.kind).infix, (f - 1) as nat)
                        == Some(s2));
                    assert(infix_parsed(src, s2, precedence, (f - 1) as nat) == Some(self@));
                }
            }
        }
    }

    /// A unary minus: parses its operand at the unary level, then adds a
    /// negation.
    fn unary(&mut self)
        requires
            old(self).wf(),
            old(self)@.previous.kind == TokenType::TokenMinus,
        ensures
            final(self).wf(),
            final(self).source() == old(self).source(),
            measure(old(self).source(), final(self)@) <= measure(old(self).source(), old(self)@),
            forall|f: nat|
                f > measure_after(old(self).source(), old(self)@) ==> dispatched(
                    old(self).source(),
                    old(self)@,
                    ParseOp::Unary,
                    f,
                ) == Some(final(self)@),
        decreases measure_after(old(self).source(), old(self)@), 0int,
    {
        let ghost src = self.source();
        let ghost s0 = self@;
        let operator_type = self.parser.previous.token_type;
        self.parse_precedence(Precedence::PrecedenceUnary);
        let ghost mid = self@;
        proof {
            assert forall|f: nat| f > measure_after(src, s0) implies parsed(
                src,
                s0,
                Precedence::PrecedenceUnary,
                f,
            ) == Some(mid) by {}
        }
        match operator_type {
            TokenType::TokenMinus => self.emit_byte(Byte::Op(OpCode::OpNegate)),
            _ => {
                proof {
                    assert(false);
                }
            },
        }
        proof {
            assert forall|f: nat| f > measure_after(src, s0) implies dispatched(
                src,
                s0,
                ParseOp::Unary,
                f,
            ) == Some(self@) by {
                assert(parsed(src, s0, Precedence::PrecedenceUnary, f) == Some(mid));
                assert(self@ == emitted(mid, Byte::Op(OpCode::OpNegate)));
            }
        }
    }
}

/// The instruction that an arithmetic operator's byte stands for: `+`,
/// `-`, `*` and `/`.
pub open spec fn arithmetic_opcode(c: u8) -> Option<OpCode> {
    if c == 43 {
        Some(OpCode::OpAdd)
    } else if c == 45 {
        Some(OpCode::OpSubtract)
    } else if c == 42 {
        Some(OpCode::OpMultiply)
    } else if c == 47 {
        Some(OpCode::OpDivide)
    } else {
        None
    }
}

/// Multiplication and division.
pub open spec fn multiplicative_opcode(op: OpCode) -> bool {
    op == OpCode::OpMultiply || op == OpCode::OpDivide
}

/// Addition and subtraction.
pub open spec fn additive_opcode(op: OpCode) -> bool {
    op == OpCode::OpAdd || op == OpCode::OpSubtract
}

/// How the compiler treats the arithmetic operators: the token scanned
/// from each operator's byte is an infix binary operator that writes that
/// operator's instruction; multiplication and division share one
/// precedence, addition and subtraction share another, both above none,
/// and the first binds strictly more tightly, so that `a + b / c` divides
/// first.
pub proof fn lemma_arithmetic_operators(c1: u8, c2: u8)
    ensures
        match arithmetic_opcode(c1) {
            Some(op) => rule_of(single_byte_type(c1)).infix == ParseOp::Binary && binary_opcode(
                single_byte_type(c1),
            ) == op,
            None => true,
        },
        match (arithmetic_opcode(c1), arithmetic_opcode(c2)) {
            (Some(o1), Some(o2)) => {
                let p1 = precedence_rank(rule_of(single_byte_type(c1)).precedence);
                let p2 = precedence_rank(rule_of(single_byte_type(c2)).precedence);
                &&& p1 >= 1
                &&& multiplicative_opcode(o1) && multiplicative_opcode(o2) ==> p1 == p2
                &&& additive_opcode(o1) && additive_opcode(o2) ==> p1 == p2
                &&& multiplicative_opcode(o1) && additive_opcode(o2) ==> p1 > p2
            },
            _ => true,
        },
{
}

} // verus!
