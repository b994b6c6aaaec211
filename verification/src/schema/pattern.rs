//! Regular expressions that string schemas match text against, compiled by the `regex` crate.

use vstd::prelude::*;

verus! {

/// `regex::Regex`, a compiled regular expression; opaque here.
#[verifier::external_type_specification]
#[verifier::external_body]
pub struct ExRegex(regex::Regex);

/// What `regex::Regex::new` gives for the pattern: success, or the text of its error.
pub uninterp spec fn regex_new(pattern: Seq<char>) -> Result<(), Seq<char>>;

/// Whether `regex::Regex::is_match` finds a match of the pattern anywhere in the text.
pub uninterp spec fn regex_matches(pattern: Seq<char>, text: Seq<char>) -> bool;

/// A compiled pattern together with its source text.
pub struct Pattern {
    source: String,
    re: regex::Regex,
}

impl View for Pattern {
    type V = Seq<char>;

    closed spec fn view(&self) -> Seq<char> {
        self.source@
    }
}

/// Compiles `source` with `regex::Regex::new`. The contract claims that the call succeeds
/// exactly where `regex_new` names success for `source`, that the compiled pattern keeps
/// `source` as its text, and that a failure carries the text of the error as
/// `regex_new` names it.
#[verifier::external_body]
pub(crate) fn compile(source: &str) -> (r: Result<Pattern, String>)
    ensures
        match regex_new(source@) {
            Ok(_) => r matches Ok(p) && p@ == source@,
            Err(m) => r matches Err(e) && e@ == m,
        },
{
    match regex::Regex::new(source) {
        Ok(re) => Ok(Pattern { source: source.to_owned(), re }),
        Err(e) => Err(format!("{}", e)),
    }
}

/// Calls `regex::Regex::is_match` on the compiled pattern. The contract claims that the
/// answer is what `regex_matches` names for the pattern's text and `text`.
#[verifier::external_body]
pub(crate) fn is_match(p: &Pattern, text: &str) -> (r: bool)
    ensures
        r == regex_matches(p@, text@),
{
    p.re.is_match(text)
}

impl Pattern {
    /// The text the pattern was compiled from.
    pub fn as_str(&self) -> (r: &str)
        ensures
            r@ == self@,
    {
        self.source.as_str()
    }
}

} // verus!
