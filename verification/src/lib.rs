//! Which packages of a package-announcement feed to show.
//!
//! A filter set, read from a configuration document ([`config`]), is compiled
//! into one matcher ([`matcher`]). Each item of the feed ([`feed`]) is then
//! classified ([`classify`]): it is skipped where the matcher excludes its
//! title or where it belongs to a testing category, and shown as a package
//! name and version otherwise. [`pipeline`] runs this over a whole response.
//!
//! Decoding TOML, compiling and matching regular expressions and decoding the
//! feed are left to the `toml`, `regex` and `rss` crates. What is assumed of
//! them is written down where they are called, in [`document`], [`matcher`]
//! and [`feed`]; everything else is proved.

pub mod classify;
pub mod config;
pub mod document;
pub mod feed;
pub mod matcher;
pub mod pipeline;
pub mod scan;
pub mod text;
pub mod value;
