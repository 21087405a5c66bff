//! Patterns: the regular expressions a caller waits for a line with.
use vstd::prelude::*;

verus! {

/// What `regex::Regex::new` says is wrong with an expression, where something is.
pub uninterp spec fn expression_fault(expression: Seq<char>) -> Option<Seq<char>>;

/// Whether `regex::Regex::is_match` finds an expression in a text.
pub uninterp spec fn expression_found(expression: Seq<char>, text: Seq<char>) -> bool;

/// `regex::Regex::new`, for whether the expression is one: its error's text where it is not, which
/// is a function of the expression alone.
#[verifier::external_body]
fn fault(expression: &str) -> (r: Option<String>)
    ensures
        match r {
            Some(text) => expression_fault(expression@) == Some(text@),
            None => expression_fault(expression@) is None,
        },
{
    match regex::Regex::new(expression) {
        Ok(_) => None,
        Err(error) => Some(error.to_string()),
    }
}

/// `regex::Regex::is_match` on the expression's `regex::Regex`, a function of the expression and the
/// text alone. An expression that is not one is found nowhere.
#[verifier::external_body]
fn found(expression: &str, text: &str) -> (r: bool)
    ensures
        r == expression_found(expression@, text@),
{
    match regex::Regex::new(expression) {
        Ok(compiled) => compiled.is_match(text),
        Err(_) => false,
    }
}

/// The first group of the first place where `regex::Regex::captures` finds an expression in a text.
pub uninterp spec fn expression_group(expression: Seq<char>, text: Seq<char>) -> Option<Seq<char>>;

/// `regex::Regex::captures` on the expression's `regex::Regex`, a function of the expression and the
/// text alone: what the first group took, where the expression is one, is found, and has a group
/// that took part.
#[verifier::external_body]
pub(crate) fn group(expression: &str, text: &str) -> (r: Option<String>)
    ensures
        match r {
            Some(taken) => expression_group(expression@, text@) == Some(taken@),
            None => expression_group(expression@, text@) is None,
        },
{
    match regex::Regex::new(expression) {
        Ok(compiled) => match compiled.captures(text) {
            Some(found) => found.get(1).map(|taken| taken.as_str().to_owned()),
            None => None,
        },
        Err(_) => None,
    }
}

/// A regular expression that is one.
pub struct Pattern {
    source: String,
}

impl Pattern {
    #[verifier::type_invariant]
    spec fn compiles(&self) -> bool {
        expression_fault(self.source@) is None
    }

    /// The expression.
    pub closed spec fn expression(&self) -> Seq<char> {
        self.source@
    }

    /// The pattern an expression is, or what is wrong with it.
    pub fn new(expression: &str) -> (r: Result<Pattern, String>)
        ensures
            match r {
                Ok(pattern) => expression_fault(expression@) is None && pattern.expression()
                    == expression@,
                Err(reason) => expression_fault(expression@) == Some(reason@),
            },
    {
        match fault(expression) {
            Some(reason) => Err(reason),
            None => Ok(Pattern { source: expression.to_owned() }),
        }
    }

    pub fn is_match(&self, text: &str) -> (r: bool)
        ensures
            r == expression_found(self.expression(), text@),
    {
        found(self.source.as_str(), text)
    }
}

} // verus!
