//! Configuration values: the tree that a configuration document decodes to.

use crate::scan::{first_index, lemma_first_index_unique};
use crate::text::same_text;
use vstd::prelude::*;

verus! {

/// What a configuration value is: a finite tree of scalars, arrays and
/// tables. A table is the sequence of its entries, each a key with its value.
pub ghost enum Doc {
    String(Seq<char>),
    Integer(i64),
    /// A floating-point number, as the 64 bits of its IEEE 754 encoding.
    Float(u64),
    Boolean(bool),
    /// A date, a time or both, as the text that denotes it.
    Datetime(Seq<char>),
    Array(Seq<Doc>),
    Table(Seq<(Seq<char>, Doc)>),
}

/// A configuration value. Its view is the [`Doc`] of the same shape.
#[derive(Debug, PartialEq, Eq)]
pub enum ConfigValue {
    String(String),
    Integer(i64),
    /// A floating-point number, as the 64 bits of its IEEE 754 encoding.
    Float(u64),
    Boolean(bool),
    /// A date, a time or both, as the text that denotes it.
    Datetime(String),
    Array(Vec<ConfigValue>),
    Table(Vec<(String, ConfigValue)>),
}

impl ConfigValue {
    /// The tree that this value stands for. (The bounds inside the two
    /// sequences are there for the termination check: within them the
    /// elements are those of the vector.)
    pub open spec fn doc(&self) -> Doc
        decreases self,
    {
        match self {
            ConfigValue::String(s) => Doc::String(s@),
            ConfigValue::Integer(i) => Doc::Integer(*i),
            ConfigValue::Float(bits) => Doc::Float(*bits),
            ConfigValue::Boolean(b) => Doc::Boolean(*b),
            ConfigValue::Datetime(s) => Doc::Datetime(s@),
            ConfigValue::Array(items) => Doc::Array(
                Seq::new(
                    items@.len(),
                    |i: int|
                        if 0 <= i < items@.len() {
                            items@[i].doc()
                        } else {
                            Doc::Boolean(false)
                        },
                ),
            ),
            ConfigValue::Table(entries) => Doc::Table(
                Seq::new(
                    entries@.len(),
                    |i: int|
                        if 0 <= i < entries@.len() {
                            (entries@[i].0@, entries@[i].1.doc())
                        } else {
                            (Seq::empty(), Doc::Boolean(false))
                        },
                ),
            ),
        }
    }
}

impl View for ConfigValue {
    type V = Doc;

    open spec fn view(&self) -> Doc {
        self.doc()
    }
}

/// The property of being an entry under `key`.
pub open spec fn has_key(key: Seq<char>) -> spec_fn((Seq<char>, Doc)) -> bool {
    |entry: (Seq<char>, Doc)| entry.0 == key
}

/// The value of the first entry of `entries` whose key is `key`.
pub open spec fn lookup(entries: Seq<(Seq<char>, Doc)>, key: Seq<char>) -> Option<Doc> {
    let at = first_index(entries, has_key(key));
    if 0 <= at < entries.len() {
        Some(entries[at].1)
    } else {
        None
    }
}

impl ConfigValue {
    /// A deep copy of this value.
    fn duplicate(&self) -> (out: ConfigValue)
        ensures
            out@ == self@,
        decreases self,
    {
        match self {
            ConfigValue::String(s) => ConfigValue::String(s.clone()),
            ConfigValue::Integer(i) => ConfigValue::Integer(*i),
            ConfigValue::Float(bits) => ConfigValue::Float(*bits),
            ConfigValue::Boolean(b) => ConfigValue::Boolean(*b),
            ConfigValue::Datetime(s) => ConfigValue::Datetime(s.clone()),
            ConfigValue::Array(items) => {
                let mut copies: Vec<ConfigValue> = Vec::new();
                let mut i: usize = 0;
                while i < items.len()
                    invariant
                        i <= items@.len(),
                        copies@.len() == i,
                        self is Array,
                        self->Array_0 == *items,
                        forall|k: int| 0 <= k < i ==> (#[trigger] copies@[k])@ == items@[k]@,
                    decreases items@.len() - i,
                {
                    proof {
                        assert(decreases_to!(*self => self->Array_0));
                        assert(decreases_to!(*items => items@));
                        assert(decreases_to!(items@ => items@[i as int]));
                    }
                    copies.push(items[i].duplicate());
                    i += 1;
                }
                let out = ConfigValue::Array(copies);
                assert(out@->Array_0 =~= self@->Array_0);
                out
            },
            ConfigValue::Table(entries) => {
                let mut copies: Vec<(String, ConfigValue)> = Vec::new();
                let mut i: usize = 0;
                while i < entries.len()
                    invariant
                        i <= entries@.len(),
                        copies@.len() == i,
                        self is Table,
                        self->Table_0 == *entries,
                        forall|k: int|
                            0 <= k < i ==> (#[trigger] copies@[k]).0@ == entries@[k].0@
                                && copies@[k].1@ == entries@[k].1@,
                    decreases entries@.len() - i,
                {
                    proof {
                        assert(decreases_to!(*self => self->Table_0));
                        assert(decreases_to!(*entries => entries@));
                        assert(decreases_to!(entries@ => entries@[i as int]));
                        assert(decreases_to!(entries@[i as int] => entries@[i as int].1));
                    }
                    copies.push((entries[i].0.clone(), entries[i].1.duplicate()));
                    i += 1;
                }
                let out = ConfigValue::Table(copies);
                assert(out@->Table_0 =~= self@->Table_0);
                out
            },
        }
    }

    /// The value under `key`, where `self` is a table that has such an entry.
    pub fn get(&self, key: &str) -> (out: Option<&ConfigValue>)
        ensures
            match self@ {
                Doc::Table(entries) => match out {
                    Some(found) => lookup(entries, key@) == Some(found@),
                    None => lookup(entries, key@) is None,
                },
                _ => out is None,
            },
    {
        match self {
            ConfigValue::Table(entries) => {
                let ghost all = self@->Table_0;
                let mut i: usize = 0;
                while i < entries.len()
                    invariant
                        i <= entries@.len(),
                        self is Table,
                        self->Table_0 == *entries,
                        all == self@->Table_0,
                        forall|j: int| 0 <= j < i ==> (#[trigger] all[j]).0 != key@,
                    decreases entries@.len() - i,
                {
                    if same_text(entries[i].0.as_str(), key) {
                        proof {
                            lemma_first_index_unique(all, has_key(key@), i as int);
                        }
                        return Some(&entries[i].1);
                    }
                    i += 1;
                }
                proof {
                    lemma_first_index_unique(all, has_key(key@), all.len() as int);
                }
                None
            },
            _ => None,
        }
    }
}

impl Clone for ConfigValue {
    fn clone(&self) -> (out: ConfigValue)
        ensures
            out@ == self@,
    {
        self.duplicate()
    }
}

} // verus!
