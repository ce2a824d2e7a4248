//! The filter engine: a filter set compiled into one matcher that says of a
//! title whether any pattern of the set matches it.
//!
//! Compiling and matching are the `regex` crate's. This module states what it
//! relies on (the trusted items below, none of them proved) and keeps the
//! compiled set behind [`CompiledMatcher`].

use crate::config::{ConfigError, FilterSet};
use crate::scan::{first_index, lemma_first_index_unique};
use crate::text::texts;
use vstd::prelude::*;

verus! {

/// `regex::RegexSet`, the `regex` crate's compiled set of patterns.
#[verifier::external_type_specification]
#[verifier::external_body]
pub struct ExRegexSet(regex::RegexSet);

/// `regex::Error`, the `regex` crate's compile error.
#[verifier::external_type_specification]
#[verifier::external_body]
pub struct ExRegexError(regex::Error);

/// The patterns that a `regex::RegexSet` holds, in the order in which they
/// were given when it was built.
pub uninterp spec fn set_patterns(set: regex::RegexSet) -> Seq<Seq<char>>;

/// Whether the `regex` crate compiles this list of patterns into a set. It
/// does not where one of them is not a regular expression.
pub uninterp spec fn compiles(patterns: Seq<Seq<char>>) -> bool;

/// Whether the regular expression `pattern`, as the `regex` crate reads it,
/// matches somewhere in `haystack`.
pub uninterp spec fn pattern_matches(pattern: Seq<char>, haystack: Seq<char>) -> bool;

/// Whether one of `patterns` matches somewhere in `haystack`.
pub open spec fn matches_any(patterns: Seq<Seq<char>>, haystack: Seq<char>) -> bool {
    exists|i: int| 0 <= i < patterns.len() && pattern_matches(#[trigger] patterns[i], haystack)
}

/// `regex::RegexSet::new`. Assumed: whether it succeeds depends on the
/// patterns alone, and the set it returns holds exactly the patterns given,
/// in their order.
#[verifier::external_body]
fn build_set(patterns: &Vec<String>) -> (out: Result<regex::RegexSet, regex::Error>)
    ensures
        match out {
            Ok(set) => compiles(texts(patterns@)) && set_patterns(set) == texts(patterns@),
            Err(_) => !compiles(texts(patterns@)),
        },
{
    regex::RegexSet::new(patterns)
}

/// `regex::Error`'s `Display`, through `to_string`. Nothing is assumed of the
/// message.
#[verifier::external_body]
fn build_error_message(error: &regex::Error) -> (out: String) {
    error.to_string()
}

/// `regex::RegexSet::is_match`. Assumed, as documented: true if and only if
/// one of the patterns of the set matches somewhere in the haystack.
#[verifier::external_body]
fn set_is_match(set: &regex::RegexSet, haystack: &str) -> (out: bool)
    ensures
        out == (exists|i: int|
            0 <= i < set_patterns(*set).len() && pattern_matches(
                #[trigger] set_patterns(*set)[i],
                haystack@,
            )),
{
    set.is_match(haystack)
}

/// A compiled filter set. Its view is the list of its patterns.
#[derive(Debug)]
pub struct CompiledMatcher {
    set: regex::RegexSet,
}

impl View for CompiledMatcher {
    type V = Seq<Seq<char>>;

    closed spec fn view(&self) -> Seq<Seq<char>> {
        set_patterns(self.set)
    }
}

impl CompiledMatcher {
    /// Whether this matcher excludes `title`: whether one of its patterns
    /// matches somewhere in it.
    pub open spec fn excludes(&self, title: Seq<char>) -> bool {
        matches_any(self@, title)
    }

    /// Whether `title` is excluded: whether at least one pattern of the set
    /// matches somewhere in it. The title is taken as it is, with its case.
    pub fn is_excluded(&self, title: &str) -> (out: bool)
        ensures
            out == self.excludes(title@),
    {
        set_is_match(&self.set, title)
    }
}

/// The property of a pattern that does not compile as a set of its own.
pub open spec fn is_refused() -> spec_fn(Seq<char>) -> bool {
    |pattern: Seq<char>| !compiles(seq![pattern])
}

/// The position of the first of `patterns` that does not compile on its own,
/// if one of them does not.
pub open spec fn culprit(patterns: Seq<Seq<char>>) -> Option<usize> {
    let at = first_index(patterns, is_refused());
    if 0 <= at < patterns.len() {
        Some(at as usize)
    } else {
        None
    }
}

/// Compiles a filter set into one matcher.
///
/// All patterns compile or none does: where the set is refused there is no
/// matcher, and the result is `ConfigError::InvalidPattern` with the position
/// of the first pattern that is refused on its own and with the compiler's
/// message about that pattern. Where every pattern compiles on its own and
/// only the set is refused, the error has no position, and its message is
/// the one about the set. A matcher holds exactly the patterns given, in
/// their order.
pub fn compile(patterns: &FilterSet) -> (out: Result<CompiledMatcher, ConfigError>)
    ensures
        match out {
            Ok(matcher) => compiles(texts(patterns@)) && matcher@ == texts(patterns@),
            Err(error) => {
                &&& !compiles(texts(patterns@))
                &&& error is InvalidPattern
                &&& error->position == culprit(texts(patterns@))
            },
        },
{
    let refusal = match build_set(patterns) {
        Ok(set) => {
            return Ok(CompiledMatcher { set });
        },
        Err(error) => error,
    };
    let ghost sources = texts(patterns@);
    let mut i: usize = 0;
    while i < patterns.len()
        invariant
            i <= patterns@.len(),
            sources == texts(patterns@),
            !compiles(sources),
            forall|j: int| 0 <= j < i ==> compiles(seq![#[trigger] sources[j]]),
        decreases patterns@.len() - i,
    {
        let mut alone: Vec<String> = Vec::new();
        alone.push(patterns[i].clone());
        assert(texts(alone@) =~= seq![sources[i as int]]);
        if let Err(error) = build_set(&alone) {
            proof {
                lemma_first_index_unique(sources, is_refused(), i as int);
            }
            return Err(
                ConfigError::InvalidPattern {
                    position: Some(i),
                    message: build_error_message(&error),
                },
            );
        }
        i += 1;
    }
    proof {
        lemma_first_index_unique(sources, is_refused(), sources.len() as int);
    }
    Err(ConfigError::InvalidPattern { position: None, message: build_error_message(&refusal) })
}

/// A matcher without patterns excludes nothing.
pub proof fn lemma_empty_set_excludes_nothing(matcher: CompiledMatcher, title: Seq<char>)
    requires
        matcher@.len() == 0,
    ensures
        !matcher.excludes(title),
{
}

} // verus!
