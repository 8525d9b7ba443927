//! Building the text of diagnostics.
use vstd::prelude::*;
use vstd::string::StringExecFns;

verus! {

broadcast use vstd::seq::group_seq_axioms;

/// A name written between double quotes.
pub open spec fn quoted(s: Seq<char>) -> Seq<char> {
    seq!['"'] + s + seq!['"']
}

/// The text that `Debug` formatting gives of a string: the string between
/// double quotes, with the characters it escapes escaped.
pub uninterp spec fn debug_text(s: Seq<char>) -> Seq<char>;

/// The `Debug` texts of the names, separated by a comma and a space.
pub open spec fn joined_debug(s: Seq<Seq<char>>) -> Seq<char>
    decreases s.len(),
{
    if s.len() == 0 {
        Seq::empty()
    } else if s.len() == 1 {
        debug_text(s[0])
    } else {
        joined_debug(s.drop_last()) + seq![',', ' '] + debug_text(s.last())
    }
}

/// A list of names as `Debug` formatting writes a list of strings: their
/// `Debug` texts, separated by a comma and a space, between brackets.
pub open spec fn debug_list(s: Seq<Seq<char>>) -> Seq<char> {
    seq!['['] + joined_debug(s) + seq![']']
}

/// The `Debug` text of a string: `format!("{:?}", t)`, which calls the
/// standard library's `Debug` implementation for `str`.  The contract
/// names its result and claims nothing else of it: which characters are
/// escaped, and how, is left to that implementation.
#[verifier::external_body]
fn debug_string(t: &str) -> (r: String)
    ensures
        r@ == debug_text(t@),
{
    format!("{:?}", t)
}

/// Appends the `Debug` text of `t`.
pub fn push_debug(s: &mut String, t: &str)
    ensures
        final(s)@ == old(s)@ + debug_text(t@),
{
    let text = debug_string(t);
    s.append(text.as_str());
}

/// Appends one character: `String::push`, which the standard library
/// documents as appending the character to the end of the string.
#[verifier::external_body]
pub fn push_char(s: &mut String, c: char)
    ensures
        final(s)@ == old(s)@.push(c),
{
    s.push(c);
}

/// Appends the characters of `t`.
pub fn push_str(s: &mut String, t: &str)
    ensures
        final(s)@ == old(s)@ + t@,
{
    s.append(t);
}

/// Appends `t` between double quotes.
pub fn push_quoted(s: &mut String, t: &str)
    ensures
        final(s)@ == old(s)@ + quoted(t@),
{
    let ghost s0 = s@;
    push_char(s, '"');
    s.append(t);
    push_char(s, '"');
    assert(s@ =~= s0 + quoted(t@));
}

/// Writes the list as `Debug` formatting writes a list of strings.
pub fn debug_list_text(v: &Vec<String>) -> (r: String)
    ensures
        r@ == debug_list(Seq::new(v@.len(), |i: int| v@[i]@)),
{
    let ghost names = Seq::new(v@.len(), |i: int| v@[i]@);
    let mut r = String::new();
    push_char(&mut r, '[');
    let mut i: usize = 0;
    while i < v.len()
        invariant
            i <= v.len(),
            names == Seq::new(v@.len(), |i: int| v@[i]@),
            r@ == seq!['['] + joined_debug(names.take(i as int)),
        decreases v.len() - i,
    {
        let ghost r0 = r@;
        if i > 0 {
            push_char(&mut r, ',');
            push_char(&mut r, ' ');
        }
        push_debug(&mut r, v[i].as_str());
        proof {
            let t = names.take(i + 1);
            assert(t.drop_last() =~= names.take(i as int));
            assert(t.last() == v@[i as int]@);
            assert(r@ =~= seq!['['] + joined_debug(t));
        }
        i += 1;
    }
    push_char(&mut r, ']');
    assert(names.take(v.len() as int) =~= names);
    r
}

} // verus!
