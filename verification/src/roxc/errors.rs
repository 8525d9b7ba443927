//! Rox's diagnostics: the error type that every stage of the compiler
//! reports, with the source file, labelled spans and notes that are shown
//! to the user.
use vstd::prelude::*;
use vstd::string::StrSliceExecFns;
use vstd::utf8::encode_utf8;
use crate::roxc::text::{debug_list, debug_list_text, push_str};

verus! {

broadcast use vstd::seq::group_seq_axioms, vstd::std_specs::vec::group_vec_axioms;

/// A source file: its name and its contents.
#[derive(Clone, Debug)]
pub struct SimpleFile {
    pub name: String,
    pub source: String,
}

/// A labelled range of bytes of the source file.
#[derive(Clone, Debug)]
pub struct Label {
    pub start: usize,
    pub end: usize,
    pub message: Option<String>,
}

/// An error found while compiling a Rox program.
#[derive(Clone, Debug)]
pub struct RoxError {
    pub file: SimpleFile,
    pub message: Option<String>,
    pub labels: Vec<Label>,
    pub notes: Vec<String>,
}

/// An error not yet tied to a source file, with the given message and no
/// labels and notes.
pub open spec fn placeholder_error(e: RoxError, m: Seq<char>) -> bool {
    &&& e.file.name@ == Seq::<char>::empty()
    &&& e.file.source@ == Seq::<char>::empty()
    &&& e.message matches Some(s) && s@ == m
    &&& e.labels@.len() == 0
    &&& e.notes@.len() == 0
}

/// Rox's custom `Result` type
pub type Result<T> = core::result::Result<T, RoxError>;

impl RoxError {
    /// An error with the given message that is not yet tied to a source
    /// file: the file's name and contents are empty, and it has no labels
    /// and no notes.
    pub fn with_file_placeholder(message: &str) -> (r: RoxError)
        ensures
            r.file.name@ == Seq::<char>::empty(),
            r.file.source@ == Seq::<char>::empty(),
            r.message matches Some(m) && m@ == message@,
            r.labels@.len() == 0,
            r.notes@.len() == 0,
    {
        RoxError {
            file: SimpleFile { name: String::new(), source: String::new() },
            message: Some(message.to_owned()),
            labels: Vec::new(),
            notes: Vec::new(),
        }
    }

    /// An error with the given message about the given file.  The file's
    /// contents are handed over by the caller, which reads them.
    pub fn new(file_name: String, contents: String, message: &str) -> (r: RoxError)
        ensures
            r.file.name@ == file_name@,
            r.file.source@ == contents@,
            r.message matches Some(m) && m@ == message@,
            r.labels@.len() == 0,
            r.notes@.len() == 0,
    {
        RoxError {
            file: SimpleFile { name: file_name, source: contents },
            message: Some(message.to_owned()),
            labels: Vec::new(),
            notes: Vec::new(),
        }
    }
}

/// Why a program could not be read: a character where no token starts, the
/// end of the file where more was expected, or a token where another was
/// expected.  The expected tokens are written between double quotes.
#[derive(Debug)]
pub enum ParseError {
    InvalidToken { location: usize },
    UnrecognizedEof { location: usize, expected: Vec<String> },
    UnrecognizedToken { token: (usize, String, usize), expected: Vec<String> },
}

/// The characters of each string.
pub open spec fn strings_view(v: Seq<String>) -> Seq<Seq<char>> {
    Seq::new(v.len(), |i: int| v[i]@)
}

/// The number of bytes of the UTF-8 encoding of the characters.
pub open spec fn byte_len(s: Seq<char>) -> int {
    encode_utf8(s).len() as int
}

/// An expected token's name without its first character, keeping as many
/// characters as its encoding has bytes, less two: for a name written
/// between quotes in ASCII, the name itself.
pub open spec fn cleaned(s: Seq<char>) -> Seq<char> {
    if s.len() <= 1 {
        Seq::empty()
    } else {
        let end = if s.len() < 1 + (byte_len(s) - 2) {
            s.len() as int
        } else {
            1 + (byte_len(s) - 2)
        };
        s.subrange(1, end)
    }
}

/// Every string has at least two bytes.
pub open spec fn all_quotable(s: Seq<Seq<char>>) -> bool {
    forall|i: int| 0 <= i < s.len() ==> byte_len(#[trigger] s[i]) >= 2
}

/// Each expected token's name, cleaned.
pub fn clean_expected(expected: &Vec<String>) -> (r: Vec<String>)
    requires
        all_quotable(strings_view(expected@)),
    ensures
        strings_view(r@) == Seq::new(expected@.len(), |i: int| cleaned(expected@[i]@)),
{
    let mut r: Vec<String> = Vec::new();
    let mut i: usize = 0;
    while i < expected.len()
        invariant
            i <= expected@.len(),
            all_quotable(strings_view(expected@)),
            r@.len() == i,
            forall|j: int| 0 <= j < i ==> #[trigger] r@[j]@ == cleaned(expected@[j]@),
        decreases expected.len() - i,
    {
        let s = expected[i].as_str();
        assert(strings_view(expected@)[i as int] == expected@[i as int]@);
        assert(byte_len(strings_view(expected@)[i as int]) >= 2);
        let n = s.as_bytes().len();
        let count = s.unicode_len();
        assert(n as int == byte_len(s@));
        assert(s@ == expected@[i as int]@);
        let cleaned_text = if count <= 1 {
            String::new()
        } else {
            let end = if count < 1 + (n - 2) {
                count
            } else {
                1 + (n - 2)
            };
            s.substring_char(1, end).to_owned()
        };
        r.push(cleaned_text);
        i += 1;
    }
    assert(strings_view(r@) =~= Seq::new(expected@.len(), |i: int| cleaned(expected@[i]@)));
    r
}

/// The note listing the expected tokens.
pub open spec fn expected_note(expected: Seq<Seq<char>>) -> Seq<char> {
    "Expected one of "@ + debug_list(Seq::new(expected.len(), |i: int| cleaned(expected[i])))
}

/// Writes the note listing the expected tokens.
fn expected_note_text(expected: &Vec<String>) -> (r: String)
    requires
        all_quotable(strings_view(expected@)),
    ensures
        r@ == expected_note(strings_view(expected@)),
{
    let cleaned_names = clean_expected(expected);
    let list = debug_list_text(&cleaned_names);
    let mut note = String::new();
    push_str(&mut note, "Expected one of ");
    push_str(&mut note, list.as_str());
    proof {
        assert(Seq::new(cleaned_names@.len(), |i: int| cleaned_names@[i]@) =~= Seq::new(
            strings_view(expected@).len(),
            |i: int| cleaned(strings_view(expected@)[i]),
        ));
    }
    note
}

/// A label of the given range with a message.
fn label(start: usize, end: usize, message: &str) -> (r: Label)
    ensures
        r.start == start,
        r.end == end,
        r.message matches Some(m) && m@ == message@,
{
    Label { start, end, message: Some(message.to_owned()) }
}

/// Whether `l` labels the given range with the given message.
pub open spec fn labels_range(l: Label, start: int, end: int, message: Seq<char>) -> bool {
    &&& l.start == start
    &&& l.end == end
    &&& l.message matches Some(m) && m@ == message
}

impl RoxError {
    /// The diagnostic for an error found while reading the file of the
    /// given name and contents.
    pub fn from_parse_error(error: &ParseError, file_name: String, source: String) -> (r: RoxError)
        requires
            match error {
                ParseError::InvalidToken { location } => location < usize::MAX,
                ParseError::UnrecognizedEof { location, expected } => location < usize::MAX
                    && all_quotable(strings_view(expected@)),
                ParseError::UnrecognizedToken { expected, .. } => all_quotable(strings_view(expected@)),
            },
        ensures
            r.file.name@ == file_name@,
            r.file.source@ == source@,
            r.message is None,
            r.labels@.len() == 1,
            match error {
                ParseError::InvalidToken { location } => labels_range(
                    r.labels@[0],
                    location as int,
                    location + 1,
                    "Invalid token."@,
                ) && r.notes@.len() == 0,
                ParseError::UnrecognizedEof { location, expected } => labels_range(
                    r.labels@[0],
                    location as int,
                    location + 1,
                    "Unrecognized EOF"@,
                ) && r.notes@.len() == 1 && r.notes@[0]@ == expected_note(strings_view(expected@)),
                ParseError::UnrecognizedToken { token, expected } => labels_range(
                    r.labels@[0],
                    token.0 as int,
                    token.2 as int,
                    "Unrecognized token "@,
                ) && r.notes@.len() == 1 && r.notes@[0]@ == expected_note(strings_view(expected@)),
            },
    {
        let file = SimpleFile { name: file_name, source };
        match error {
            ParseError::InvalidToken { location } => {
                let mut labels: Vec<Label> = Vec::new();
                labels.push(label(*location, *location + 1, "Invalid token."));
                RoxError { file, message: None, labels, notes: Vec::new() }
            },
            ParseError::UnrecognizedEof { location, expected } => {
                let mut labels: Vec<Label> = Vec::new();
                labels.push(label(*location, *location + 1, "Unrecognized EOF"));
                let mut notes: Vec<String> = Vec::new();
                notes.push(expected_note_text(expected));
                RoxError { file, message: None, labels, notes }
            },
            ParseError::UnrecognizedToken { token, expected } => {
                let mut labels: Vec<Label> = Vec::new();
                labels.push(label(token.0, token.2, "Unrecognized token "));
                let mut notes: Vec<String> = Vec::new();
                notes.push(expected_note_text(expected));
                RoxError { file, message: None, labels, notes }
            },
        }
    }
}

/// Cleaning an ASCII name written between double quotes gives the name
/// back.
pub proof fn lemma_cleaned_quoted(name: Seq<char>)
    requires
        vstd::utf8::is_ascii_chars(name),
    ensures
        cleaned(crate::roxc::text::quoted(name)) == name,
{
    let q = crate::roxc::text::quoted(name);
    assert(vstd::utf8::is_ascii_chars(q)) by {
        assert forall|i: int| 0 <= i < q.len() implies '\0' <= #[trigger] q[i] <= '\u{7f}' by {
            if 1 <= i < q.len() - 1 {
                assert(q[i] == name[i - 1]);
            }
        }
    }
    vstd::utf8::is_ascii_chars_encode_utf8(q);
    assert(q.subrange(1, q.len() - 1) =~= name);
}

} // verus!
