//! The filter set of a configuration document: the array of strings under
//! the key `filter_set`.

use crate::document::{read_document, toml_document};
use crate::scan::{first_index, lemma_first_index_unique};
use crate::text::texts;
use crate::value::{has_key, lookup, ConfigValue, Doc};
use vstd::prelude::*;

verus! {

/// A filter set: the sources of its regular expressions, in the order of the
/// configuration.
pub type FilterSet = Vec<String>;

/// Why a configuration is rejected.
#[derive(Debug, PartialEq, Eq)]
pub enum ConfigError {
    /// The text is not a well-formed document. Carries the decoder's message.
    Syntax(String),
    /// A value has another shape than its place asks for. Carries that value.
    UnexpectedShape(ConfigValue),
    /// The document has no entry `filter_set`.
    MissingFilterSet,
    /// The filter set does not compile. Carries the position in the set of
    /// the first pattern that does not compile on its own, where there is
    /// one, and the compiler's message.
    InvalidPattern { position: Option<usize>, message: String },
}

/// What a [`ConfigError`] says.
pub ghost enum ConfigFault {
    Syntax(Seq<char>),
    UnexpectedShape(Doc),
    MissingFilterSet,
    InvalidPattern { position: Option<usize>, message: Seq<char> },
}

impl View for ConfigError {
    type V = ConfigFault;

    open spec fn view(&self) -> ConfigFault {
        match self {
            ConfigError::Syntax(message) => ConfigFault::Syntax(message@),
            ConfigError::UnexpectedShape(value) => ConfigFault::UnexpectedShape(value@),
            ConfigError::MissingFilterSet => ConfigFault::MissingFilterSet,
            ConfigError::InvalidPattern { position, message } => ConfigFault::InvalidPattern {
                position: *position,
                message: message@,
            },
        }
    }
}

/// The key under which a document holds its filter set.
pub open spec fn filter_key() -> Seq<char> {
    "filter_set"@
}

/// The property of not being a string.
pub open spec fn is_not_string() -> spec_fn(Doc) -> bool {
    |item: Doc| !(item is String)
}

/// The position of the first element of `items` that is not a string, or
/// `items.len()` where all are strings.
pub open spec fn first_non_string(items: Seq<Doc>) -> int {
    first_index(items, is_not_string())
}

/// The filter set of a document, or the reason why it has none: the root must
/// be a table, the table must have an entry `filter_set`, the entry must be an
/// array, and every element of the array a string. Where an element is not,
/// the first such element is the one reported.
pub open spec fn filter_patterns(doc: Doc) -> Result<Seq<Seq<char>>, ConfigFault> {
    match doc {
        Doc::Table(entries) => match lookup(entries, filter_key()) {
            None => Err(ConfigFault::MissingFilterSet),
            Some(Doc::Array(items)) => {
                let stop = first_non_string(items);
                if 0 <= stop < items.len() {
                    Err(ConfigFault::UnexpectedShape(items[stop]))
                } else {
                    Ok(Seq::new(items.len(), |i: int| items[i]->String_0))
                }
            },
            Some(other) => Err(ConfigFault::UnexpectedShape(other)),
        },
        other => Err(ConfigFault::UnexpectedShape(other)),
    }
}

/// What a parse returned, over views.
pub open spec fn outcome(result: Result<FilterSet, ConfigError>) -> Result<
    Seq<Seq<char>>,
    ConfigFault,
> {
    match result {
        Ok(patterns) => Ok(texts(patterns@)),
        Err(error) => Err(error@),
    }
}

/// The array that holds the strings `patterns`, in their order.
pub open spec fn string_array(patterns: Seq<Seq<char>>) -> Doc {
    Doc::Array(patterns.map_values(|pattern: Seq<char>| Doc::String(pattern)))
}

/// A table whose entry `filter_set` is an array of strings yields exactly
/// those strings, as many as the array holds and in its order.
pub proof fn lemma_strings_come_back(entries: Seq<(Seq<char>, Doc)>, patterns: Seq<Seq<char>>)
    requires
        lookup(entries, filter_key()) == Some(string_array(patterns)),
    ensures
        filter_patterns(Doc::Table(entries)) == Ok::<Seq<Seq<char>>, ConfigFault>(patterns),
{
    let items = string_array(patterns)->Array_0;
    lemma_first_index_unique(items, is_not_string(), items.len() as int);
    assert(Seq::new(items.len(), |i: int| items[i]->String_0) =~= patterns);
}

/// A table without an entry `filter_set` yields `MissingFilterSet`, whatever
/// else it holds.
pub proof fn lemma_missing_key(entries: Seq<(Seq<char>, Doc)>)
    requires
        forall|i: int| 0 <= i < entries.len() ==> (#[trigger] entries[i]).0 != filter_key(),
    ensures
        filter_patterns(Doc::Table(entries)) == Err::<Seq<Seq<char>>, ConfigFault>(
            ConfigFault::MissingFilterSet,
        ),
{
    lemma_first_index_unique(entries, has_key(filter_key()), entries.len() as int);
}

/// A value that is not a table yields `UnexpectedShape` with that value.
pub proof fn lemma_root_must_be_table(doc: Doc)
    requires
        !(doc is Table),
    ensures
        filter_patterns(doc) == Err::<Seq<Seq<char>>, ConfigFault>(
            ConfigFault::UnexpectedShape(doc),
        ),
{
}

/// A table whose entry `filter_set` is not an array yields `UnexpectedShape`
/// with the value of that entry.
pub proof fn lemma_entry_must_be_array(entries: Seq<(Seq<char>, Doc)>, found: Doc)
    requires
        lookup(entries, filter_key()) == Some(found),
        !(found is Array),
    ensures
        filter_patterns(Doc::Table(entries)) == Err::<Seq<Seq<char>>, ConfigFault>(
            ConfigFault::UnexpectedShape(found),
        ),
{
}

/// An array under `filter_set` with an element that is not a string yields
/// `UnexpectedShape` with the first such element.
pub proof fn lemma_first_stranger_reported(
    entries: Seq<(Seq<char>, Doc)>,
    items: Seq<Doc>,
    at: int,
)
    requires
        lookup(entries, filter_key()) == Some(Doc::Array(items)),
        0 <= at < items.len(),
        !(items[at] is String),
        forall|j: int| 0 <= j < at ==> (#[trigger] items[j]) is String,
    ensures
        filter_patterns(Doc::Table(entries)) == Err::<Seq<Seq<char>>, ConfigFault>(
            ConfigFault::UnexpectedShape(items[at]),
        ),
{
    lemma_first_index_unique(items, is_not_string(), at);
}

/// The filter set of a decoded document: see [`filter_patterns`].
pub fn extract_patterns(document: &ConfigValue) -> (out: Result<FilterSet, ConfigError>)
    ensures
        outcome(out) == filter_patterns(document@),
{
    let entry = match document {
        ConfigValue::Table(_) => document.get("filter_set"),
        _ => {
            return Err(ConfigError::UnexpectedShape(document.clone()));
        },
    };
    let items = match entry {
        None => {
            return Err(ConfigError::MissingFilterSet);
        },
        Some(ConfigValue::Array(items)) => items,
        Some(other) => {
            return Err(ConfigError::UnexpectedShape(other.clone()));
        },
    };
    let ghost docs = entry->0@->Array_0;
    let mut patterns: Vec<String> = Vec::new();
    let mut i: usize = 0;
    while i < items.len()
        invariant
            i <= items@.len(),
            document@ is Table,
            lookup(document@->Table_0, filter_key()) == Some(Doc::Array(docs)),
            docs.len() == items@.len(),
            forall|k: int| 0 <= k < items@.len() ==> docs[k] == items@[k]@,
            patterns@.len() == i,
            forall|k: int| 0 <= k < i ==> docs[k] == Doc::String(#[trigger] patterns@[k]@),
        decreases items@.len() - i,
    {
        match &items[i] {
            ConfigValue::String(pattern) => {
                patterns.push(pattern.clone());
            },
            other => {
                proof {
                    assert forall|j: int| 0 <= j < i implies docs[j] is String by {
                        assert(docs[j] == Doc::String(patterns@[j]@));
                    }
                    assert(docs[i as int] == other@);
                    lemma_first_index_unique(docs, is_not_string(), i as int);
                }
                return Err(ConfigError::UnexpectedShape(other.clone()));
            },
        }
        i += 1;
    }
    proof {
        assert forall|j: int| 0 <= j < docs.len() implies docs[j] is String by {
            assert(docs[j] == Doc::String(patterns@[j]@));
        }
        lemma_first_index_unique(docs, is_not_string(), docs.len() as int);
        assert(texts(patterns@) =~= Seq::new(docs.len(), |k: int| docs[k]->String_0));
    }
    Ok(patterns)
}

/// The filter set that a configuration text holds.
///
/// A text that is not well-formed TOML gives `ConfigError::Syntax`. A
/// well-formed one gives what [`filter_patterns`] says of its document: the
/// strings of the array under `filter_set`, in the order of the array, or the
/// reason why there are none.
pub fn parse_filter_patterns(text: &str) -> (out: Result<FilterSet, ConfigError>)
    ensures
        match toml_document(text@) {
            Some(doc) => outcome(out) == filter_patterns(doc),
            None => out matches Err(ConfigError::Syntax(_)),
        },
{
    match read_document(text) {
        Ok(document) => extract_patterns(&document),
        Err(error) => Err(ConfigError::Syntax(error.message)),
    }
}

} // verus!
