//! Regular expressions (the `regex` crate) and byte-level text conversions
//! used on log content.

use vstd::prelude::*;
use crate::text::owned;

verus! {

broadcast use vstd::string::group_string_axioms;

#[verifier::external_type_specification]
#[verifier::external_body]
pub struct ExRegex(regex::Regex);

/// A compiled regular expression together with the pattern it came from.
#[derive(Debug)]
pub struct CompiledRegex {
    source: String,
    re: regex::Regex,
}

/// Whether `regex::Regex::new` accepts the pattern.
pub uninterp spec fn regex_valid(p: Seq<char>) -> bool;

/// Whether a regex compiled from `p` matches somewhere in `text`
/// (`regex::Regex::is_match`).
pub uninterp spec fn regex_matches(p: Seq<char>, text: Seq<char>) -> bool;

/// Compiles a pattern with `regex::Regex::new`: `Some` exactly when the crate
/// accepts it, holding that pattern.
#[verifier::external_body]
fn compile_regex(p: &str) -> (r: Option<CompiledRegex>)
    ensures
        r is Some <==> regex_valid(p@),
        r matches Some(c) ==> c.source@ == p@,
{
    match regex::Regex::new(p) {
        Ok(re) => Some(CompiledRegex { source: p.to_string(), re }),
        Err(_) => None,
    }
}

/// `regex::Regex::is_match` of the compiled pattern on `text`.
#[verifier::external_body]
fn compiled_is_match(c: &CompiledRegex, text: &str) -> (r: bool)
    ensures
        r == regex_matches(c.source@, text@),
{
    c.re.is_match(text)
}

impl CompiledRegex {
    /// The pattern this regex was compiled from.
    pub closed spec fn pattern(&self) -> Seq<char> {
        self.source@
    }

    /// Compiles `p`; `None` when it is not a valid regular expression.
    pub fn new(p: &str) -> (r: Option<CompiledRegex>)
        ensures
            r is Some <==> regex_valid(p@),
            r matches Some(c) ==> c.pattern() == p@,
    {
        compile_regex(p)
    }

    /// Whether the regex matches somewhere in `text`.
    pub fn is_match(&self, text: &str) -> (r: bool)
        ensures
            r == regex_matches(self.pattern(), text@),
    {
        compiled_is_match(self, text)
    }

    /// The pattern text.
    pub fn as_str(&self) -> (r: String)
        ensures
            r@ == self.pattern(),
    {
        owned(self.source.as_str())
    }
}

/// The bytes left when ANSI escape sequences are removed
/// (`strip_ansi_escapes::strip`).
pub uninterp spec fn ansi_stripped(b: Seq<u8>) -> Seq<u8>;

/// Removes ANSI escape sequences from bytes with `strip_ansi_escapes::strip`.
#[verifier::external_body]
pub(crate) fn strip_ansi_bytes(b: &[u8]) -> (r: Vec<u8>)
    ensures
        r@ == ansi_stripped(b@),
{
    strip_ansi_escapes::strip(b)
}

/// The text `String::from_utf8_lossy` gives bytes: invalid sequences become
/// U+FFFD.
pub uninterp spec fn lossy_text(b: Seq<u8>) -> Seq<char>;

/// Decodes bytes as UTF-8 with std `String::from_utf8_lossy`; valid UTF-8
/// decodes exactly, as its documentation states.
#[verifier::external_body]
pub(crate) fn utf8_lossy(b: &[u8]) -> (r: String)
    ensures
        r@ == lossy_text(b@),
        vstd::utf8::valid_utf8(b@) ==> r@ == vstd::utf8::decode_utf8(b@),
{
    String::from_utf8_lossy(b).into_owned()
}

/// `content` with ANSI escapes stripped, decoded leniently (as `tail` and
/// `diff` clean lines).
pub open spec fn cleaned(content: Seq<char>) -> Seq<char> {
    lossy_text(ansi_stripped(vstd::utf8::encode_utf8(content)))
}

/// Strips ANSI escapes from a text and decodes the rest leniently.
pub fn strip_ansi_text(s: &str) -> (r: String)
    ensures
        r@ == cleaned(s@),
{
    let b = strip_ansi_bytes(s.as_bytes());
    utf8_lossy(b.as_slice())
}

/// Each byte taken as the character with that code (Latin-1).
pub open spec fn latin1(b: Seq<u8>) -> Seq<char> {
    b.map_values(|x: u8| x as char)
}

/// `content` with ANSI escapes stripped, each remaining byte read as a
/// character (as `export` cleans lines).
pub open spec fn cleaned_bytewise(content: Seq<char>) -> Seq<char> {
    latin1(ansi_stripped(vstd::utf8::encode_utf8(content)))
}

/// Strips ANSI escapes and maps each remaining byte to one character.
pub fn strip_ansi_bytewise(s: &str) -> (r: String)
    ensures
        r@ == cleaned_bytewise(s@),
{
    let b = strip_ansi_bytes(s.as_bytes());
    let mut r = String::new();
    let mut i: usize = 0;
    while i < b.len()
        invariant
            i <= b.len(),
            r@ == latin1(b@.take(i as int)),
        decreases b.len() - i,
    {
        crate::text::push_char(&mut r, b[i] as char);
        assert(latin1(b@.take(i + 1)) =~= latin1(b@.take(i as int)).push(b@[i as int] as char));
        i = i + 1;
    }
    assert(b@.take(b@.len() as int) =~= b@);
    r
}

} // verus!
