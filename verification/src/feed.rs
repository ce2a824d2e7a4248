//! Feed items: what the library reads of a syndication feed.
//!
//! Decoding the feed is the `rss` crate's. This module states what it relies
//! on (the trusted items below, none of them proved) and hands the entries on
//! as values of the library's own.

use vstd::prelude::*;

verus! {

/// A category of a feed item. Its view is its name.
#[derive(Debug, Clone, PartialEq, Eq)]
pub struct Category {
    pub name: String,
}

/// One entry of a feed: its title, where it has one, and its categories in
/// the order of the feed.
#[derive(Debug, Clone, PartialEq, Eq)]
pub struct FeedItem {
    pub title: Option<String>,
    pub categories: Vec<Category>,
}

/// What a [`FeedItem`] holds: the title and the names of the categories.
pub ghost struct FeedEntry {
    pub title: Option<Seq<char>>,
    pub categories: Seq<Seq<char>>,
}

impl View for Category {
    type V = Seq<char>;

    open spec fn view(&self) -> Seq<char> {
        self.name@
    }
}

impl View for FeedItem {
    type V = FeedEntry;

    open spec fn view(&self) -> FeedEntry {
        FeedEntry {
            title: match self.title {
                Some(title) => Some(title@),
                None => None,
            },
            categories: self.categories@.map_values(|category: Category| category@),
        }
    }
}

/// The views of a sequence of feed items, in the same order.
pub open spec fn entries(items: Seq<FeedItem>) -> Seq<FeedEntry> {
    items.map_values(|item: FeedItem| item@)
}

/// A payload that is not a feed.
#[derive(Debug, PartialEq, Eq)]
pub struct FeedParseError {
    /// The decoder's account of what is wrong.
    pub message: String,
}

/// `rss::Error`, the `rss` crate's decoding error.
#[verifier::external_type_specification]
#[verifier::external_body]
pub struct ExFeedError(rss::Error);

/// What the `rss` crate decodes `payload` to: the entries of the channel in
/// the order of the feed, or `None` where the payload is not a feed.
pub uninterp spec fn feed_entries(payload: Seq<u8>) -> Option<Seq<FeedEntry>>;

/// `rss::Channel::read_from` on the bytes, the channel handed on as the
/// title (`rss::Item::title`) and the category names (`rss::Item::categories`,
/// `rss::Category::name`) of each of its items (`rss::Channel::items`).
/// Assumed: decoding depends on the bytes alone, so that its outcome is
/// `feed_entries` of the bytes.
#[verifier::external_body]
fn decode_channel(payload: &[u8]) -> (out: Result<Vec<FeedItem>, rss::Error>)
    ensures
        match out {
            Ok(items) => feed_entries(payload@) == Some(entries(items@)),
            Err(_) => feed_entries(payload@) is None,
        },
{
    let channel = rss::Channel::read_from(payload)?;
    Ok(channel.items().iter().map(|item| FeedItem {
        title: item.title().map(|title| title.to_string()),
        categories: item.categories().iter().map(|category| Category {
            name: category.name().to_string(),
        }).collect(),
    }).collect())
}

/// `rss::Error`'s `Display`, through `to_string`. Nothing is assumed of the
/// message.
#[verifier::external_body]
fn feed_error_message(error: &rss::Error) -> (out: String) {
    error.to_string()
}

/// Decodes a feed. The result is the feed's entries, in order, exactly where
/// the payload is a feed, and a [`FeedParseError`] with the decoder's message
/// where it is not.
pub fn parse_feed(payload: &[u8]) -> (out: Result<Vec<FeedItem>, FeedParseError>)
    ensures
        match feed_entries(payload@) {
            Some(found) => out matches Ok(items) && entries(items@) == found,
            None => out is Err,
        },
{
    match decode_channel(payload) {
        Ok(items) => Ok(items),
        Err(error) => Err(FeedParseError { message: feed_error_message(&error) }),
    }
}

} // verus!
