//! From a fetched response to the records to show.
//!
//! The response is what the transport handed back: a status code and a
//! payload. Only a successful response is decoded; any other yields nothing
//! and no error.

use crate::classify::{
    classify, verdict, working_title, Classification, DisplayRecord, MalformedTitleError, Record,
    Verdict,
};
use crate::feed::{entries, feed_entries, parse_feed, FeedEntry, FeedItem, FeedParseError};
use crate::matcher::{matches_any, CompiledMatcher};
use vstd::prelude::*;

verus! {

/// What a run over a feed gives: the records to show, in the order of the
/// feed, and the title at which the run stopped, if it did.
#[derive(Debug, Clone, PartialEq, Eq)]
pub struct Selection {
    pub records: Vec<DisplayRecord>,
    pub rejected: Option<MalformedTitleError>,
}

/// What a [`Selection`] holds.
pub ghost struct Outcome {
    pub records: Seq<Record>,
    pub rejected: Option<Seq<char>>,
}

impl View for Selection {
    type V = Outcome;

    open spec fn view(&self) -> Outcome {
        Outcome {
            records: self.records@.map_values(|record: DisplayRecord| record@),
            rejected: match self.rejected {
                Some(error) => Some(error.title@),
                None => None,
            },
        }
    }
}

/// The outcome without records and without a rejected title.
pub open spec fn nothing() -> Outcome {
    Outcome { records: Seq::empty(), rejected: None }
}

/// The outcome of classifying `feed` from its first entry on under the filter
/// set `patterns`: skipped entries leave no trace, shown entries give their
/// record, and the first malformed title ends the run.
pub open spec fn selection(patterns: Seq<Seq<char>>, feed: Seq<FeedEntry>) -> Outcome
    decreases feed.len(),
{
    if feed.len() == 0 {
        nothing()
    } else {
        let first = feed[0];
        match verdict(matches_any(patterns, working_title(first)), first) {
            Verdict::Skip => selection(patterns, feed.drop_first()),
            Verdict::Display(record) => {
                let rest = selection(patterns, feed.drop_first());
                Outcome { records: seq![record] + rest.records, rejected: rest.rejected }
            },
            Verdict::Malformed(title) => Outcome { records: Seq::empty(), rejected: Some(title) },
        }
    }
}

/// Whether a status code denotes success: whether it is one of 200 to 299.
pub open spec fn denotes_success(status: u16) -> bool {
    200 <= status <= 299
}

/// Whether `status` denotes success.
pub fn status_is_success(status: u16) -> (out: bool)
    ensures
        out == denotes_success(status),
{
    200 <= status && status < 300
}

/// Classifies the items of a feed in order and collects the records of those
/// that are shown. The run ends at the first malformed title, which is
/// reported beside the records found before it.
pub fn select_records(matcher: &CompiledMatcher, items: &Vec<FeedItem>) -> (out: Selection)
    ensures
        out@ == selection(matcher@, entries(items@)),
{
    let ghost feed = entries(items@);
    let mut records: Vec<DisplayRecord> = Vec::new();
    let mut i: usize = 0;
    proof {
        assert(feed.skip(0) =~= feed);
    }
    while i < items.len()
        invariant
            i <= items@.len(),
            feed == entries(items@),
            selection(matcher@, feed).records == records@.map_values(
                |record: DisplayRecord| record@,
            ) + selection(matcher@, feed.skip(i as int)).records,
            selection(matcher@, feed).rejected == selection(
                matcher@,
                feed.skip(i as int),
            ).rejected,
        decreases items@.len() - i,
    {
        proof {
            let rest = feed.skip(i as int);
            assert(rest[0] == items@[i as int]@);
            assert(rest.drop_first() =~= feed.skip(i + 1));
        }
        match classify(matcher, &items[i]) {
            Ok(Classification::Skip) => {},
            Ok(Classification::Display(record)) => {
                proof {
                    let shown = records@.map_values(|record: DisplayRecord| record@);
                    let tail = selection(matcher@, feed.skip(i + 1)).records;
                    assert(records@.push(record).map_values(|record: DisplayRecord| record@)
                        =~= shown.push(record@));
                    assert(shown.push(record@) + tail =~= shown + (seq![record@] + tail));
                }
                records.push(record);
            },
            Err(error) => {
                let out = Selection { records, rejected: Some(error) };
                assert(out@.records =~= selection(matcher@, feed).records);
                return out;
            },
        }
        i += 1;
    }
    let out = Selection { records, rejected: None };
    assert(out@.records =~= selection(matcher@, feed).records);
    out
}

/// What a response yields under `matcher`.
///
/// A status that does not denote success yields nothing, whatever the
/// payload: no record, no rejected title and no error. A successful response
/// yields the selection from the feed that its payload holds, and an error
/// where the payload is not a feed.
pub fn process_response(matcher: &CompiledMatcher, status: u16, payload: &[u8]) -> (out: Result<
    Selection,
    FeedParseError,
>)
    ensures
        if denotes_success(status) {
            match feed_entries(payload@) {
                Some(feed) => out matches Ok(found) && found@ == selection(matcher@, feed),
                None => out is Err,
            }
        } else {
            out matches Ok(found) && found@ == nothing()
        },
{
    if !status_is_success(status) {
        let out = Selection { records: Vec::new(), rejected: None };
        assert(out@.records =~= nothing().records);
        return Ok(out);
    }
    match parse_feed(payload) {
        Ok(items) => Ok(select_records(matcher, &items)),
        Err(error) => Err(error),
    }
}

} // verus!
