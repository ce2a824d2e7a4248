//! The feed item classifier: whether an item is shown, and as what.
//!
//! An item is skipped where the filter set excludes its title or where one of
//! its categories is a testing category. Every other item is shown as the
//! first two pieces of its title, the package's name and its version.

use crate::feed::{FeedEntry, FeedItem};
use crate::matcher::CompiledMatcher;
use crate::text::{
    contains, has_substring, lemma_first_position_unique, lemma_single_token, split, texts, tokens,
};
use vstd::prelude::*;

verus! {

/// The name and the version of a package, as a title gives them.
#[derive(Debug, Clone, PartialEq, Eq)]
pub struct DisplayRecord {
    pub package_name: String,
    pub package_version: String,
}

/// What a [`DisplayRecord`] holds.
pub ghost struct Record {
    pub name: Seq<char>,
    pub version: Seq<char>,
}

impl View for DisplayRecord {
    type V = Record;

    open spec fn view(&self) -> Record {
        Record { name: self.package_name@, version: self.package_version@ }
    }
}

/// A title that is shown but does not have the shape `name version`.
#[derive(Debug, Clone, PartialEq, Eq)]
pub struct MalformedTitleError {
    /// The title at fault.
    pub title: String,
}

/// What the classifier makes of an item that it accepts.
#[derive(Debug, Clone, PartialEq, Eq)]
pub enum Classification {
    /// The item is left out.
    Skip,
    /// The item is shown as this record.
    Display(DisplayRecord),
}

/// What the classifier makes of an item.
pub ghost enum Verdict {
    Skip,
    Display(Record),
    /// The item is to be shown, but its title, carried here, has fewer than
    /// two pieces.
    Malformed(Seq<char>),
}

/// The title that stands in for a missing one.
pub open spec fn placeholder_title() -> Seq<char> {
    "unknown title"@
}

/// The text that marks a testing category.
pub open spec fn testing_marker() -> Seq<char> {
    "Testing"@
}

/// The title that an item is judged by: its own, or the placeholder.
pub open spec fn working_title(entry: FeedEntry) -> Seq<char> {
    match entry.title {
        Some(title) => title,
        None => placeholder_title(),
    }
}

/// Whether one of the categories has the testing marker somewhere in its name.
pub open spec fn in_testing(categories: Seq<Seq<char>>) -> bool {
    exists|k: int|
        0 <= k < categories.len() && has_substring(#[trigger] categories[k], testing_marker())
}

/// The record that a title gives: its first two pieces between spaces. A
/// title without a space gives none.
pub open spec fn record_of(title: Seq<char>) -> Option<Record> {
    let pieces = tokens(title, ' ');
    if pieces.len() >= 2 {
        Some(Record { name: pieces[0], version: pieces[1] })
    } else {
        None
    }
}

/// The verdict on an item, given whether the filter set excludes its title.
pub open spec fn verdict(excluded: bool, entry: FeedEntry) -> Verdict {
    if excluded || in_testing(entry.categories) {
        Verdict::Skip
    } else {
        match record_of(working_title(entry)) {
            Some(record) => Verdict::Display(record),
            None => Verdict::Malformed(working_title(entry)),
        }
    }
}

/// What a classification returned, over views.
pub open spec fn verdict_of(result: Result<Classification, MalformedTitleError>) -> Verdict {
    match result {
        Ok(Classification::Skip) => Verdict::Skip,
        Ok(Classification::Display(record)) => Verdict::Display(record@),
        Err(error) => Verdict::Malformed(error.title@),
    }
}

/// An item with a testing category is skipped, whatever its title and
/// whatever the filter set makes of it.
pub proof fn lemma_testing_category_skips(excluded: bool, entry: FeedEntry, k: int)
    requires
        0 <= k < entry.categories.len(),
        has_substring(entry.categories[k], testing_marker()),
    ensures
        verdict(excluded, entry) == Verdict::Skip,
{
}

/// An item without a title is judged as the item with the placeholder for
/// its title and the same categories.
pub proof fn lemma_missing_title_is_placeholder(excluded: bool, categories: Seq<Seq<char>>)
    ensures
        verdict(excluded, FeedEntry { title: None, categories }) == verdict(
            excluded,
            FeedEntry { title: Some(placeholder_title()), categories },
        ),
{
}

/// A title gives no record exactly where it holds no space.
pub proof fn lemma_malformed_without_space(title: Seq<char>)
    ensures
        record_of(title) is None <==> !title.contains(' '),
{
    lemma_single_token(title, ' ');
}

/// The placeholder has two pieces: an item without a title that is not
/// skipped is shown under the name `unknown` with the version `title`.
pub proof fn lemma_placeholder_record()
    ensures
        record_of(placeholder_title()) == Some(Record { name: "unknown"@, version: "title"@ }),
{
    reveal_strlit("unknown title");
    reveal_strlit("unknown");
    reveal_strlit("title");
    let whole = placeholder_title();
    lemma_first_position_unique(whole, ' ', 7);
    let rest = whole.skip(8);
    lemma_first_position_unique(rest, ' ', 5);
    assert(whole.take(7) =~= "unknown"@);
    assert(rest =~= "title"@);
    assert(tokens(rest, ' ') =~= seq![rest]);
    assert(tokens(whole, ' ') =~= seq![whole.take(7)] + seq![rest]);
}

/// The title that `item` is judged by.
pub fn title_of(item: &FeedItem) -> (out: &str)
    ensures
        out@ == working_title(item@),
{
    match &item.title {
        Some(title) => title.as_str(),
        None => "unknown title",
    }
}

/// Whether one of the categories of `item` is a testing category.
pub fn has_testing_category(item: &FeedItem) -> (out: bool)
    ensures
        out == in_testing(item@.categories),
{
    let mut k: usize = 0;
    while k < item.categories.len()
        invariant
            k <= item.categories@.len(),
            forall|j: int|
                0 <= j < k ==> !has_substring(#[trigger] item@.categories[j], testing_marker()),
        decreases item.categories@.len() - k,
    {
        if contains(item.categories[k].name.as_str(), "Testing") {
            assert(has_substring(item@.categories[k as int], testing_marker()));
            return true;
        }
        k += 1;
    }
    false
}

/// The record that `title` gives, or the title back as malformed.
pub fn display_record(title: &str) -> (out: Result<DisplayRecord, MalformedTitleError>)
    ensures
        match record_of(title@) {
            Some(record) => out matches Ok(found) && found@ == record,
            None => out matches Err(error) && error.title@ == title@,
        },
{
    let pieces = split(title, ' ');
    if pieces.len() < 2 {
        return Err(MalformedTitleError { title: title.to_owned() });
    }
    proof {
        let views = texts(pieces@);
        assert(views[0] == pieces@[0]@);
        assert(views[1] == pieces@[1]@);
    }
    Ok(DisplayRecord { package_name: pieces[0].clone(), package_version: pieces[1].clone() })
}

/// Classifies `item`, given whether the filter set excludes its title.
pub fn classify_with(excluded: bool, item: &FeedItem) -> (out: Result<
    Classification,
    MalformedTitleError,
>)
    ensures
        verdict_of(out) == verdict(excluded, item@),
{
    if excluded || has_testing_category(item) {
        return Ok(Classification::Skip);
    }
    match display_record(title_of(item)) {
        Ok(record) => Ok(Classification::Display(record)),
        Err(error) => Err(error),
    }
}

/// Classifies `item`.
///
/// The item is skipped where `matcher` excludes its working title or where
/// one of its categories is a testing category. Otherwise it is shown as the
/// first two pieces of its working title; where the title has no second
/// piece, the result is the error that names the title.
pub fn classify(matcher: &CompiledMatcher, item: &FeedItem) -> (out: Result<
    Classification,
    MalformedTitleError,
>)
    ensures
        verdict_of(out) == verdict(matcher.excludes(working_title(item@)), item@),
{
    let excluded = matcher.is_excluded(title_of(item));
    classify_with(excluded, item)
}

} // verus!
