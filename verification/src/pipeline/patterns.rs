//! Regular-expression evaluation through the `regex` crate.
//!
//! Patterns are held as their source text; a well-formed stage holds only
//! patterns that compile (`regex_compiles`, checked by `regex_valid`). Each
//! evaluation compiles the pattern with `regex::Regex::new` and runs it; on a
//! pattern that does not compile the calls match nothing and substitute
//! nothing.

use vstd::prelude::*;

verus! {

/// Whether `regex::Regex::new(pattern)` succeeds.
pub uninterp spec fn regex_compiles(pattern: Seq<char>) -> bool;

/// What `regex::Regex::is_match(text)` returns for the compiled `pattern`.
pub uninterp spec fn regex_finds(pattern: Seq<char>, text: Seq<char>) -> bool;

/// What `regex::Regex::replace_all(text, replacement)` returns for the compiled `pattern`.
pub uninterp spec fn regex_substituted(
    pattern: Seq<char>,
    text: Seq<char>,
    replacement: Seq<char>,
) -> Seq<char>;

/// A line matches a pattern when the pattern compiles and finds a match in it.
pub open spec fn line_matches(pattern: Seq<char>, line: Seq<char>) -> bool {
    regex_compiles(pattern) && regex_finds(pattern, line)
}

/// Compiles `pattern` (`regex::Regex::new`) and reports whether it finds a
/// match anywhere in `text` (`regex::Regex::is_match`); false when the pattern
/// does not compile.
#[verifier::external_body]
pub(crate) fn regex_is_match(pattern: &str, text: &str) -> (r: bool)
    ensures
        r == (regex_compiles(pattern@) && regex_finds(pattern@, text@)),
{
    match regex::Regex::new(pattern) {
        Ok(re) => re.is_match(text),
        Err(_) => false,
    }
}

/// Compiles `pattern` (`regex::Regex::new`) and replaces every match in `text`
/// with `replacement` (`regex::Regex::replace_all`, with `$name` expansion);
/// `text` unchanged when the pattern does not compile.
#[verifier::external_body]
pub(crate) fn regex_replace_all(pattern: &str, text: &str, replacement: &str) -> (r: String)
    ensures
        r@ == (if regex_compiles(pattern@) {
            regex_substituted(pattern@, text@, replacement@)
        } else {
            text@
        }),
{
    match regex::Regex::new(pattern) {
        Ok(re) => re.replace_all(text, replacement).into_owned(),
        Err(_) => text.to_string(),
    }
}

/// Whether `pattern` compiles (`regex::Regex::new(pattern).is_ok()`).
#[verifier::external_body]
pub(crate) fn regex_valid(pattern: &str) -> (b: bool)
    ensures
        b == regex_compiles(pattern@),
{
    regex::Regex::new(pattern).is_ok()
}

/// Byte length of `s` (`str::len`); a `str` never exceeds `isize::MAX` bytes.
#[verifier::external_body]
pub(crate) fn byte_len(s: &str) -> (n: usize)
    ensures
        n == crate::text::utf8_len(s@),
        n <= isize::MAX,
{
    s.len()
}

} // verus!
