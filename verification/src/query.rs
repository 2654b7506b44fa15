//! Query values: the keys under which records are found and indexed.
//!
//! A query names either a record id directly, or the value of one indexable
//! field (an integer or a text field, identified by a field tag). The schema
//! collaborator that supplies a record type decides which field tags exist
//! and produces the query values for a record.

use crate::table::TableKey;
use vstd::prelude::*;

verus! {

/// A key under which a record can be looked up: by id, or by the value of
/// one indexable field. Field tags are chosen by the schema collaborator.
#[derive(Debug, Eq, PartialEq, Hash)]
pub enum Query {
    /// The reserved "by id" variant: resolves directly to a primary key.
    ById(u64),
    /// An integer-valued field, named by its field tag.
    ByInt(u64, i64),
    /// A text-valued field, named by its field tag.
    ByText(u64, String),
}

/// The mathematical value of a `Query`: text is taken up to its character
/// sequence, so two queries are the same key exactly when they compare equal.
pub enum QueryKey {
    ById(u64),
    ByInt(u64, i64),
    ByText(u64, Seq<char>),
}

impl View for Query {
    type V = QueryKey;

    open spec fn view(&self) -> QueryKey {
        match self {
            Query::ById(i) => QueryKey::ById(*i),
            Query::ByInt(f, v) => QueryKey::ByInt(*f, *v),
            Query::ByText(f, s) => QueryKey::ByText(*f, s@),
        }
    }
}

impl TableKey for Query {
    /// Decides whether two queries are the same cache key.
    fn key_eq(&self, other: &Query) -> (r: bool)
        ensures
            r == (self@ == other@),
    {
        match self {
            Query::ById(a) => match other {
                Query::ById(b) => a == b,
                _ => false,
            },
            Query::ByInt(f, a) => match other {
                Query::ByInt(g, b) => f == g && a == b,
                _ => false,
            },
            Query::ByText(f, a) => match other {
                Query::ByText(g, b) => f == g && a.eq(b),
                _ => false,
            },
        }
    }

}

impl Clone for Query {
    fn clone(&self) -> (r: Self)
        ensures
            r == *self,
    {
        match self {
            Query::ById(i) => Query::ById(*i),
            Query::ByInt(f, v) => Query::ByInt(*f, *v),
            Query::ByText(f, s) => Query::ByText(*f, s.clone()),
        }
    }
}

} // verus!
