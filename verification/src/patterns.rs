use vstd::prelude::*;
use crate::errors::Error;

verus! {

/// Whether `glob::Pattern::new` accepts `pattern` as a well-formed glob.
/// Acceptance depends on the pattern text alone.
pub uninterp spec fn glob_compiles(pattern: Seq<char>) -> bool;

/// Whether the glob written as `pattern` matches `path`. `glob::Pattern`
/// matching depends on the pattern text and the path text alone.
pub uninterp spec fn pattern_matches(pattern: Seq<char>, path: Seq<char>) -> bool;

/// Relies on `glob::Pattern::new`: compiles a glob from its text, succeeding
/// or failing on the text alone.
#[verifier::external_body]
fn compile_glob(pattern: &str) -> (r: Option<glob::Pattern>)
    ensures
        r is Some <==> glob_compiles(pattern@),
{
    glob::Pattern::new(pattern).ok()
}

/// A compiled glob exclude pattern, kept together with the text it was
/// compiled from so that contracts can speak about the text.
pub struct ExcludePattern {
    compiled: glob::Pattern,
    source: String,
}

impl ExcludePattern {
    /// The text this pattern was compiled from.
    pub closed spec fn spec_source(&self) -> Seq<char> {
        self.source@
    }

    /// Compiles `pattern` into an exclude pattern.
    pub fn from_str(pattern: &str) -> (r: Result<ExcludePattern, Error>)
        ensures
            r is Ok <==> glob_compiles(pattern@),
            r matches Ok(p) ==> p.spec_source() == pattern@,
            r matches Err(e) ==> e == Error::InvalidPattern,
    {
        match compile_glob(pattern) {
            Some(compiled) => Ok(ExcludePattern { compiled, source: pattern.to_owned() }),
            None => Err(Error::InvalidPattern),
        }
    }

    /// The text this pattern was compiled from.
    pub fn as_str(&self) -> (r: &str)
        ensures
            r@ == self.spec_source(),
    {
        self.source.as_str()
    }

    /// Relies on `glob::Pattern::matches`: whether the glob matches `path`,
    /// a function of the pattern text and the path text alone. The `compiled`
    /// field is always the pattern compiled from `source`, because `from_str`
    /// is the only constructor.
    #[verifier::external_body]
    pub fn matches(&self, path: &str) -> (r: bool)
        ensures
            r == pattern_matches(self.spec_source(), path@),
    {
        self.compiled.matches(path)
    }
}

} // verus!
