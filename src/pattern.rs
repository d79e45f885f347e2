use vstd::prelude::*;

verus! {

/// Whether `glob::Pattern::new` accepts the pattern text.
pub uninterp spec fn glob_compiles(pattern: Seq<char>) -> bool;

/// Whether the pattern, as compiled by `glob::Pattern::new`, matches the text
/// under `glob::Pattern::matches` (default match options).
pub uninterp spec fn glob_matches(pattern: Seq<char>, text: Seq<char>) -> bool;

/// Relies on `glob::Pattern::new`: it succeeds or fails on the text alone.
#[verifier::external_body]
fn glob_check(pattern: &str) -> (r: bool)
    ensures
        r == glob_compiles(pattern@),
{
    glob::Pattern::new(pattern).is_ok()
}

/// Relies on `glob::Pattern::matches`, on the pattern that `glob::Pattern::new`
/// compiles from the text (which cannot fail under the precondition).
#[verifier::external_body]
fn glob_match(pattern: &str, text: &str) -> (r: bool)
    requires
        glob_compiles(pattern@),
    ensures
        r == glob_matches(pattern@, text@),
{
    match glob::Pattern::new(pattern) {
        Ok(compiled) => compiled.matches(text),
        Err(_) => false,
    }
}

/// A Unix shell style glob pattern (`*`, `?`, `[...]`), known to compile.
#[derive(Debug, PartialEq, Eq)]
pub struct Pattern {
    text: String,
}

/// A pattern text that does not compile as a glob.
#[derive(Debug, PartialEq, Eq)]
pub struct PatternError {
    pub pattern: String,
}

impl View for Pattern {
    type V = Seq<char>;

    closed spec fn view(&self) -> Seq<char> {
        self.text@
    }
}

impl Pattern {
    #[verifier::type_invariant]
    spec fn compiles(&self) -> bool {
        glob_compiles(self.text@)
    }

    /// Compiles a glob pattern.
    pub fn new(text: &str) -> (r: Result<Pattern, PatternError>)
        ensures
            r is Ok <==> glob_compiles(text@),
            r matches Ok(p) ==> p@ == text@,
            r matches Err(e) ==> e.pattern@ == text@,
    {
        if glob_check(text) {
            Ok(Pattern { text: text.to_owned() })
        } else {
            Err(PatternError { pattern: text.to_owned() })
        }
    }

    /// Whether `text` matches this pattern.
    pub fn matches(&self, text: &str) -> (r: bool)
        ensures
            r == glob_matches(self@, text@),
    {
        proof {
            use_type_invariant(self);
        }
        glob_match(self.text.as_str(), text)
    }

    /// The pattern's source text.
    pub fn as_str(&self) -> (r: &str)
        ensures
            r@ == self@,
    {
        self.text.as_str()
    }
}

impl Clone for Pattern {
    fn clone(&self) -> (r: Pattern)
        ensures
            r@ == self@,
    {
        proof {
            use_type_invariant(self);
        }
        Pattern { text: self.text.clone() }
    }
}

} // verus!
