use vstd::prelude::*;

use crate::common::error::AppError;
use crate::common::text::str_eq;
use vstd::string::StringExecFns;

verus! {

/// Whether `pattern` is a regular expression that `regex::Regex::new`
/// accepts under its default configuration.  Acceptance depends on the
/// pattern alone.
pub uninterp spec fn regex_valid(pattern: Seq<char>) -> bool;

/// Whether the regular expression `pattern` matches anywhere in `text`.
/// The answer depends on the pattern and the text alone.
pub uninterp spec fn regex_match(pattern: Seq<char>, text: Seq<char>) -> bool;

/// Relies on `regex::Regex::new`: compilation succeeds or fails as a
/// function of the pattern alone.
#[verifier::external_body]
fn regex_compiles(pattern: &str) -> (r: bool)
    ensures
        r == regex_valid(pattern@),
{
    regex::Regex::new(pattern).is_ok()
}

/// Relies on `regex::Regex::new` and `regex::Regex::is_match`: for a
/// pattern that compiles, whether the expression matches anywhere in the
/// text is a function of the pattern and the text alone.
#[verifier::external_body]
fn regex_is_match(pattern: &str, text: &str) -> (r: bool)
    requires
        regex_valid(pattern@),
    ensures
        r == regex_match(pattern@, text@),
{
    match regex::Regex::new(pattern) {
        Ok(re) => re.is_match(text),
        Err(_) => false,
    }
}

/// A topic selector: a plain string that is compared either literally or
/// as a regular expression.
#[derive(Debug)]
pub struct TopicName {
    /// The selector as the caller wrote it.
    pub plain: String,
    /// Whether the selector is matched as a regular expression.
    pub is_regex: bool,
}

impl TopicName {
    /// A selector is well formed when a regex-mode selector holds a
    /// pattern that compiles.
    pub open spec fn wf(&self) -> bool {
        self.is_regex ==> regex_valid(self.plain@)
    }

    /// What it means for this selector to match a topic: literal
    /// selectors match exactly their own string, regex selectors match
    /// wherever the pattern matches.
    pub open spec fn sel_matches(&self, topic: Seq<char>) -> bool {
        if self.is_regex {
            regex_match(self.plain@, topic)
        } else {
            self.plain@ == topic
        }
    }

    /// Builds a selector from `name`.  In regex mode a pattern that does
    /// not compile is rejected with [`AppError::ArgsInvalidRegex`], so
    /// that a bad pattern fails fast at startup rather than per message.
    pub fn new(name: &str, regex: bool) -> (r: Result<TopicName, AppError>)
        ensures
            r matches Ok(t) ==> t.plain@ == name@ && t.is_regex == regex && t.wf(),
            r is Ok <==> (!regex || regex_valid(name@)),
            r matches Err(e) ==> (e matches AppError::ArgsInvalidRegex(p) && p@ == name@),
    {
        if regex && !regex_compiles(name) {
            return Err(AppError::ArgsInvalidRegex(String::from_str(name)));
        }
        Ok(TopicName { plain: String::from_str(name), is_regex: regex })
    }

    /// Pure predicate: does this selector match the topic `another`?
    pub fn matches(&self, another: &str) -> (r: bool)
        requires
            self.wf(),
        ensures
            r == self.sel_matches(another@),
    {
        if self.is_regex {
            regex_is_match(self.plain.as_str(), another)
        } else {
            str_eq(self.plain.as_str(), another)
        }
    }
}

/// Literal selectors match only their own exact topic string; regex
/// selectors match every topic the pattern matches, by definition of
/// [`TopicName::sel_matches`].
pub proof fn lemma_selector_semantics(sel: TopicName, topic: Seq<char>)
    ensures
        !sel.is_regex ==> (sel.sel_matches(topic) <==> sel.plain@ == topic),
        sel.is_regex ==> (sel.sel_matches(topic) == regex_match(sel.plain@, topic)),
{
}

} // verus!
