//! Shell-style glob patterns, compiled and matched by the `glob` crate.
//!
//! What a pattern matches takes the `glob` crate pages to say; it is named
//! here (`glob_pattern_valid`, `glob_matches`) and the contracts of the
//! library speak of those names.
use vstd::prelude::*;

verus! {

#[verifier::external_type_specification]
#[verifier::external_body]
pub struct ExPattern(glob::Pattern);

#[verifier::external_type_specification]
#[verifier::external_body]
pub struct ExPatternError(glob::PatternError);

/// Whether `glob::Pattern::new` accepts `pattern`.
pub uninterp spec fn glob_pattern_valid(pattern: Seq<char>) -> bool;

/// Whether the pattern compiled from `pattern` matches `text` under the
/// default match options.
pub uninterp spec fn glob_matches(pattern: Seq<char>, text: Seq<char>) -> bool;

/// A compiled glob pattern together with the text it was compiled from.
/// The only way to build one is `GlobPattern::compile`, so `compiled` is
/// always `glob::Pattern::new(source)`.
pub struct GlobPattern {
    source: String,
    compiled: glob::Pattern,
}

impl View for GlobPattern {
    type V = Seq<char>;

    closed spec fn view(&self) -> Seq<char> {
        self.source@
    }
}

/// Calls `glob::Pattern::new`. Its source returns `Ok` exactly on the
/// patterns it accepts, which `glob_pattern_valid` names; it does not panic.
#[verifier::external_body]
fn pattern_new(source: &str) -> (r: Result<glob::Pattern, glob::PatternError>)
    ensures
        r is Ok <==> glob_pattern_valid(source@),
{
    glob::Pattern::new(source)
}

/// Calls `glob::Pattern::matches` on the pattern compiled from `p@`; the
/// result is what `glob_matches` names. Sound because a `GlobPattern` is
/// only built by `GlobPattern::compile`.
#[verifier::external_body]
fn pattern_matches(p: &GlobPattern, text: &str) -> (r: bool)
    ensures
        r == glob_matches(p@, text@),
{
    p.compiled.matches(text)
}

/// Calls `glob::Pattern::as_str`, which the crate documents as giving back
/// the pattern text it was compiled from.
#[verifier::external_body]
fn pattern_as_str(p: &GlobPattern) -> (r: &str)
    ensures
        r@ == p@,
{
    p.compiled.as_str()
}

impl GlobPattern {
    /// Compiles `source`; `None` when the `glob` crate rejects it.
    pub fn compile(source: &str) -> (r: Option<GlobPattern>)
        ensures
            r is Some <==> glob_pattern_valid(source@),
            r matches Some(p) ==> p@ == source@,
    {
        match pattern_new(source) {
            Ok(compiled) => Some(
                GlobPattern { source: <String as vstd::string::StringExecFns>::from_str(source), compiled },
            ),
            Err(_) => None,
        }
    }

    /// Whether the pattern matches `text`.
    pub fn matches(&self, text: &str) -> (r: bool)
        ensures
            r == glob_matches(self@, text@),
    {
        pattern_matches(self, text)
    }

    /// The text the pattern was compiled from.
    pub fn as_str(&self) -> (r: &str)
        ensures
            r@ == self@,
    {
        pattern_as_str(self)
    }
}

} // verus!
