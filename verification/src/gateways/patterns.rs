//! Regular expressions, as the `regex` crate compiles and matches them.
use regex::Regex;
use vstd::prelude::*;
use vstd::string::*;

verus! {

/// `regex::Regex`, a compiled regular expression.
#[verifier::external_type_specification]
#[verifier::external_body]
pub struct ExRegex(Regex);

/// `regex::Error`, why a pattern was not compiled.
#[verifier::external_type_specification]
#[verifier::external_body]
pub struct ExRegexError(regex::Error);

/// Whether `Regex::new` accepts the pattern.
pub uninterp spec fn pattern_is_valid(pattern: Seq<char>) -> bool;

/// Whether the expression that `Regex::new` makes of `pattern` has a match
/// somewhere in `text`.
pub uninterp spec fn pattern_matches(pattern: Seq<char>, text: Seq<char>) -> bool;

/// A pattern together with the expression that `Regex::new` made of it.
/// The two are only ever put together by `compile`, so the expression is
/// always the one that its pattern denotes.
#[derive(Debug)]
pub struct HostPattern {
    source: String,
    engine: Regex,
}

impl View for HostPattern {
    type V = Seq<char>;

    closed spec fn view(&self) -> Seq<char> {
        self.source@
    }
}

/// `Regex::new`: compiles a pattern. It succeeds on the patterns that the
/// engine accepts, and the result is kept together with its pattern.
#[verifier::external_body]
fn compile(pattern: &str) -> (r: Result<HostPattern, regex::Error>)
    ensures
        r is Ok <==> pattern_is_valid(pattern@),
        r is Ok ==> r->Ok_0@ == pattern@,
{
    Regex::new(pattern).map(|engine| HostPattern { source: pattern.to_owned(), engine })
}

/// `Regex::is_match`, on the expression that `Regex::new` made of the
/// pattern: whether it has a match somewhere in `text`.
#[verifier::external_body]
fn is_match(pattern: &HostPattern, text: &str) -> (b: bool)
    ensures
        b == pattern_matches(pattern@, text@),
{
    pattern.engine.is_match(text)
}

impl HostPattern {
    /// Compiles a pattern.
    ///
    /// Gives `None` exactly on a pattern that the engine does not accept.
    pub fn new(pattern: &str) -> (r: Option<HostPattern>)
        ensures
            r is Some <==> pattern_is_valid(pattern@),
            r is Some ==> r->0@ == pattern@,
    {
        match compile(pattern) {
            Ok(p) => Some(p),
            Err(_) => None,
        }
    }

    /// Whether the pattern has a match somewhere in `text`.
    pub fn is_match(&self, text: &str) -> (b: bool)
        ensures
            b == pattern_matches(self@, text@),
    {
        is_match(self, text)
    }
}

} // verus!
