//! What the crate takes on trust: the regular-expression engine, the digest,
//! and the parts of the standard library that follow the Unicode tables.

use regex::Regex;
use sha2::Digest;
use sha2::Sha256;
use vstd::prelude::*;
use vstd::utf8::decode_utf8;
use vstd::utf8::encode_utf8;
use vstd::utf8::is_ascii_chars;
use vstd::utf8::valid_utf8;

use crate::patterns::is_field_pattern;
use crate::patterns::is_known_pattern;
use crate::patterns::is_name;
use crate::patterns::is_name_pattern;
use crate::report::opt_text;
use crate::text::ascii_lowered;
use crate::text::is_one_line;
use crate::text::is_piece;

verus! {

/// `String::push` appends one character.
pub assume_specification[ String::push ](s: &mut String, c: char)
    ensures
        final(s)@ == old(s)@.push(c),
;

/// What `str::to_lowercase` makes of a text with characters outside ASCII.
pub uninterp spec fn unicode_lowercase(s: Seq<char>) -> Seq<char>;

/// The text in lower case.
pub open spec fn lowered(s: Seq<char>) -> Seq<char> {
    if is_ascii_chars(s) {
        ascii_lowered(s)
    } else {
        unicode_lowercase(s)
    }
}

/// `str::to_lowercase`: the text in lower case by the Unicode tables. On a
/// text of ASCII characters alone it turns `A` to `Z` into `a` to `z` and
/// keeps the rest.
#[verifier::external_body]
pub(crate) fn lowercase(s: &str) -> (r: String)
    ensures
        is_ascii_chars(s@) ==> r@ == ascii_lowered(s@),
        !is_ascii_chars(s@) ==> r@ == unicode_lowercase(s@),
{
    s.to_lowercase()
}

/// The text as `Debug` writes a `str`: between double quotes, with what
/// cannot be shown escaped.
pub uninterp spec fn debug_quoted(s: Seq<char>) -> Seq<char>;

/// `format!("{:?}", ..)` of a `str`, which depends on the text alone. A line
/// feed is escaped, so that none is left.
#[verifier::external_body]
pub(crate) fn quote(s: &str) -> (r: String)
    ensures
        r@ == debug_quoted(s@),
        is_one_line(r@),
{
    format!("{:?}", s)
}

/// The text that `String::from_utf8_lossy` reads from bytes.
pub uninterp spec fn lossy_text(b: Seq<u8>) -> Seq<char>;

/// `String::from_utf8_lossy`: the text that the bytes encode in UTF-8, with a
/// replacement character for what is not valid.
#[verifier::external_body]
pub(crate) fn decode_lossy(b: &[u8]) -> (r: String)
    ensures
        r@ == lossy_text(b@),
        valid_utf8(b@) ==> r@ == decode_utf8(b@),
{
    String::from_utf8_lossy(b).to_string()
}

// ---------------------------------------------------------------------------
// Regular expressions
// ---------------------------------------------------------------------------

/// `regex::Regex`, a compiled regular expression.
#[verifier::external_type_specification]
#[verifier::external_body]
pub struct ExRegex(regex::Regex);

/// The pattern that a compiled expression stands for, with whatever options it
/// was built under written into it. One that [`compile`] built stands for the
/// pattern that it was given.
pub uninterp spec fn regex_source(re: Regex) -> Seq<char>;

/// Whether `Regex::is_match` finds the pattern somewhere in the text.
pub uninterp spec fn regex_finds(pattern: Seq<char>, text: Seq<char>) -> bool;

/// The matches that `Regex::captures_iter` yields for the pattern in the
/// text, one after the other: where each starts, counted in bytes, what it
/// is, and what its first group is.
pub uninterp spec fn regex_matches(pattern: Seq<char>, text: Seq<char>) -> Seq<
    (int, Seq<char>, Seq<char>),
>;

/// What the first group is in the match that `Regex::captures` finds for the
/// pattern in the text, if it finds one.
pub uninterp spec fn regex_first_group(pattern: Seq<char>, text: Seq<char>) -> Option<Seq<char>>;

/// One match of a pattern that captures a field.
pub struct FieldMatch {
    /// Where the match starts in the text, counted in bytes.
    pub start: usize,
    /// The text that was matched.
    pub whole: String,
    /// The text of the first group.
    pub inside: String,
}

impl View for FieldMatch {
    type V = (int, Seq<char>, Seq<char>);

    open spec fn view(&self) -> (int, Seq<char>, Seq<char>) {
        (self.start as int, self.whole@, self.inside@)
    }
}

/// What a list of matches says.
pub open spec fn matches_view(v: Seq<FieldMatch>) -> Seq<(int, Seq<char>, Seq<char>)> {
    v.map_values(|m: FieldMatch| m@)
}

/// Whether the match starts inside the text.
pub open spec fn within(m: (int, Seq<char>, Seq<char>), text: Seq<char>) -> bool {
    0 <= m.0 < encode_utf8(text).len()
}

/// `Regex::new`: compiles a pattern of the crate, each of which is valid and
/// far below the size limit. The expression stands for that pattern, since no
/// option is set beside it.
#[verifier::external_body]
pub(crate) fn compile(pattern: &str) -> (re: Regex)
    requires
        is_known_pattern(pattern@),
    ensures
        regex_source(re) == pattern@,
{
    Regex::new(pattern).unwrap()
}

/// `Regex::is_match`: whether the expression matches somewhere in the text,
/// which depends on its pattern and the text alone.
#[verifier::external_body]
pub(crate) fn is_match(re: &Regex, text: &str) -> (found: bool)
    ensures
        found == regex_finds(regex_source(*re), text@),
{
    re.is_match(text)
}

/// `Regex::captures_iter`: the successive matches of a field pattern, which
/// depend on the pattern and the text alone. A match starts inside the text,
/// since a field pattern matches no empty text, and its first group takes
/// part in it.
#[verifier::external_body]
pub(crate) fn all_matches(re: &Regex, text: &str) -> (v: Vec<FieldMatch>)
    requires
        is_field_pattern(regex_source(*re)),
    ensures
        matches_view(v@) == regex_matches(regex_source(*re), text@),
        forall|i: int| 0 <= i < v@.len() ==> within(#[trigger] v@[i]@, text@),
{
    re.captures_iter(text).map(
        |c| FieldMatch {
            start: c.get(0).unwrap().start(),
            whole: c[0].to_string(),
            inside: c[1].to_string(),
        },
    ).collect()
}

/// `Regex::captures`: what the first group is in the leftmost match of a
/// field pattern, which depends on the pattern and the text alone. It is a
/// piece of the text. The group of a name pattern is one or more characters of
/// the class that it lists.
#[verifier::external_body]
pub(crate) fn first_group(re: &Regex, text: &str) -> (g: Option<String>)
    requires
        is_field_pattern(regex_source(*re)),
    ensures
        opt_text(g) == regex_first_group(regex_source(*re), text@),
        g matches Some(piece) ==> is_piece(piece@, text@),
        is_name_pattern(regex_source(*re)) ==> (g matches Some(name) ==> is_name(name@)),
{
    re.captures(text).map(|c| c[1].to_string())
}

// ---------------------------------------------------------------------------
// Digests
// ---------------------------------------------------------------------------

/// The SHA-256 digest of the bytes.
pub uninterp spec fn sha256_of(data: Seq<u8>) -> Seq<u8>;

/// `Sha256::digest`: the SHA-256 digest of the bytes, which is 32 bytes long.
#[verifier::external_body]
pub(crate) fn sha256(data: &[u8]) -> (d: Vec<u8>)
    ensures
        d@ == sha256_of(data@),
        d@.len() == 32,
{
    Sha256::digest(data).to_vec()
}

}
