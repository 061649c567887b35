use vstd::prelude::*;

verus! {

/// Whether `regex::Regex::new` accepts `pattern` as a valid regular
/// expression. Compilation succeeds or fails on the pattern text alone.
pub uninterp spec fn regex_compiles(pattern: Seq<char>) -> bool;

/// The result of `regex::Regex::is_match` for a regex compiled from `pattern`
/// run on `text`: whether the pattern matches anywhere in the text. It is a
/// function of the two strings alone.
pub uninterp spec fn regex_match(pattern: Seq<char>, text: Seq<char>) -> bool;

/// `regex::Regex` declared so it can stand in a field; its insides are opaque.
#[verifier::external_type_specification]
#[verifier::external_body]
pub struct ExRegex(regex::Regex);

/// A compiled regular expression kept beside the text it was compiled from,
/// so contracts can speak of the pattern as a plain string.
pub struct Pattern {
    re: regex::Regex,
    text: String,
}

impl Pattern {
    /// The pattern text this value was compiled from.
    pub closed spec fn text_view(self) -> Seq<char> {
        self.text@
    }

    /// Relies on `regex::Regex::new`: whether a pattern compiles depends on
    /// the pattern text alone; on success the returned value couples the
    /// compiled regex with its source text.
    #[verifier::external_body]
    pub(crate) fn compile(text: &str) -> (r: Option<Pattern>)
        ensures
            r is Some <==> regex_compiles(text@),
            r is Some ==> r->Some_0.text_view() == text@,
    {
        match regex::Regex::new(text) {
            Ok(re) => Some(Pattern { re, text: text.to_owned() }),
            Err(_) => None,
        }
    }

    /// Relies on `regex::Regex::is_match`: whether the compiled pattern
    /// matches anywhere in `line`; the result depends on the pattern text and
    /// the line alone. The fields are private and only `compile` constructs a
    /// value, so the regex here is the one compiled from `text_view()`.
    #[verifier::external_body]
    pub(crate) fn is_match(&self, line: &str) -> (r: bool)
        ensures
            r == regex_match(self.text_view(), line@),
    {
        self.re.is_match(line)
    }
}

/// The currently active pattern plus its version stamp. `pattern == None`
/// means no active filter: the query was too short or failed to compile.
/// The pair is replaced wholesale on every query edit, and the version grows
/// by exactly one per edit.
pub struct SearchCriteria {
    pub pattern: Option<Pattern>,
    pub version: u64,
}

impl SearchCriteria {
    /// The pattern as a plain value: the text of the active pattern, or
    /// `None` when filtering is off.
    pub open spec fn pattern_model(self) -> Option<Seq<char>> {
        match self.pattern {
            Some(p) => Some(p.text_view()),
            None => None,
        }
    }
}

} // verus!
