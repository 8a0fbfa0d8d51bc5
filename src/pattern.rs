use vstd::prelude::*;

verus! {

#[verifier::external_type_specification]
#[verifier::external_body]
pub struct ExRegex(regex::Regex);

#[verifier::external_type_specification]
#[verifier::external_body]
pub struct ExRegexError(regex::Error);

/// Whether `pattern` is a regular expression that the regex crate accepts.
pub uninterp spec fn regex_valid(pattern: Seq<char>) -> bool;

/// Whether `pattern` matches somewhere in `text`.
pub uninterp spec fn regex_matches(pattern: Seq<char>, text: Seq<char>) -> bool;

/// `text` with every non-overlapping match of `pattern` replaced by the
/// literal `with`.
pub uninterp spec fn regex_replaced(pattern: Seq<char>, text: Seq<char>, with: Seq<char>) -> Seq<
    char,
>;

/// Relies on regex::Regex::new: whether a pattern compiles depends on the
/// pattern alone.
#[verifier::external_body]
fn compile_regex(pattern: &str) -> (r: Result<regex::Regex, regex::Error>)
    ensures
        r is Ok <==> regex_valid(pattern@),
{
    regex::Regex::new(pattern)
}

/// A pattern that failed to compile.
#[derive(Debug, Clone, PartialEq)]
pub struct ConfigError {
    pub pattern: String,
}

/// A compiled regular expression together with its source text. The only
/// way to build one is `Pattern::new`, which compiles `regex` from `source`.
pub struct Pattern {
    source: String,
    regex: regex::Regex,
}

impl View for Pattern {
    type V = Seq<char>;

    closed spec fn view(&self) -> Seq<char> {
        self.source@
    }
}

impl Pattern {
    /// Compiles `source`; fails with the source text when it is no valid
    /// regular expression.
    pub fn new(source: String) -> (r: Result<Pattern, ConfigError>)
        ensures
            r is Ok <==> regex_valid(source@),
            r is Ok ==> r->Ok_0@ == source@,
            r is Err ==> r->Err_0.pattern@ == source@,
    {
        match compile_regex(source.as_str()) {
            Ok(regex) => Ok(Pattern { source, regex }),
            Err(_) => Err(ConfigError { pattern: source }),
        }
    }

    /// The source text.
    pub fn as_str(&self) -> (r: &str)
        ensures
            r@ == self@,
    {
        self.source.as_str()
    }

    /// Relies on regex::Regex::is_match: whether there is a match anywhere in
    /// `text`, for the expression compiled from the source text.
    #[verifier::external_body]
    pub(crate) fn is_match(&self, text: &str) -> (r: bool)
        ensures
            r == regex_matches(self@, text@),
    {
        self.regex.is_match(text)
    }

    /// Relies on regex::Regex::replace_all with regex::NoExpand: every
    /// non-overlapping match is replaced by `with` taken literally.
    #[verifier::external_body]
    pub(crate) fn replace_all(&self, text: &str, with: &str) -> (r: String)
        ensures
            r@ == regex_replaced(self@, text@, with@),
    {
        self.regex.replace_all(text, regex::NoExpand(with)).into_owned()
    }
}

} // verus!
