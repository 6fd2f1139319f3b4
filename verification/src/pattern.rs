//! Target admission patterns.
//!
//! The allowlist of admissible targets is a compiled regular expression.
//! What a pattern matches is named, not restated: `regex_is_match`
//! stands for the matcher's verdict, a function of the pattern and the
//! text alone, and every contract that speaks of admission speaks of
//! that name.

use vstd::prelude::*;

verus! {

#[verifier::external_type_specification]
#[verifier::external_body]
pub struct ExRegex(regex::Regex);

/// Whether the pattern is a syntactically valid regular expression that
/// compiles within the default size limits.
pub uninterp spec fn regex_compiles(pattern: Seq<char>) -> bool;

/// Whether the compiled pattern matches anywhere in the text.
pub uninterp spec fn regex_is_match(pattern: Seq<char>, text: Seq<char>) -> bool;

/// A compiled allowlist pattern, kept beside its source text so that
/// contracts can speak of the pattern that was compiled.
pub struct Allowlist {
    re: regex::Regex,
    pattern: String,
}

impl View for Allowlist {
    type V = Seq<char>;

    closed spec fn view(&self) -> Seq<char> {
        self.pattern@
    }
}

impl Allowlist {
    /// Relies on regex::Regex::new: it compiles exactly the valid
    /// patterns, and the compiled matcher is determined by the pattern
    /// text.
    #[verifier::external_body]
    pub fn new(pattern: &str) -> (r: Option<Allowlist>)
        ensures
            r matches Some(a) ==> a@ == pattern@,
            r is Some <==> regex_compiles(pattern@),
    {
        match regex::Regex::new(pattern) {
            Ok(re) => Some(Allowlist { re, pattern: pattern.to_owned() }),
            Err(_) => None,
        }
    }

    /// Relies on regex::Regex::new: the match-everything pattern `.*`
    /// always compiles.
    #[verifier::external_body]
    pub fn allow_all() -> (r: Allowlist)
        ensures
            r@ == ".*"@,
    {
        let pattern = ".*";
        Allowlist {
            re: regex::Regex::new(pattern).expect("the trivial pattern compiles"),
            pattern: pattern.to_owned(),
        }
    }

    /// Relies on regex::Regex::is_match: whether the pattern matches
    /// anywhere in the text, a function of pattern and text alone.
    #[verifier::external_body]
    pub fn is_match(&self, text: &str) -> (b: bool)
        ensures
            b == regex_is_match(self@, text@),
    {
        self.re.is_match(text)
    }
}

impl Clone for Allowlist {
    /// Relies on regex::Regex::clone: the clone is the same compiled
    /// pattern.
    #[verifier::external_body]
    fn clone(&self) -> (r: Self)
        ensures
            r@ == self@,
    {
        Allowlist { re: self.re.clone(), pattern: self.pattern.clone() }
    }
}

} // verus!
