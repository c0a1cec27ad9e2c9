//! Identifiers of stored entities.

use crate::text::{int_text, int_to_text};
use vstd::prelude::*;

verus! {

/// An identifier that the store has assigned.
#[derive(Clone, Copy)]
pub struct IntId(pub i64);

/// The identifier of an entity: assigned by the store, or none yet.
#[derive(Clone, Copy)]
pub enum Id {
    IntId(IntId),
    Unassigned,
}

impl Id {
    /// The assigned identifier.
    pub fn as_int(&self) -> (r: i64)
        requires
            self is IntId,
        ensures
            r == self->IntId_0.0,
    {
        match self {
            Id::IntId(id) => id.0,
            Id::Unassigned => 0,
        }
    }

    /// Whether no identifier has been assigned.
    pub fn is_empty(&self) -> (r: bool)
        ensures
            r == (self is Unassigned),
    {
        match self {
            Id::Unassigned => true,
            _ => false,
        }
    }

    /// The assigned identifier, if there is one.
    pub fn assigned(&self) -> (r: Option<i64>)
        ensures
            r == self.number(),
    {
        match self {
            Id::IntId(id) => Some(id.0),
            Id::Unassigned => None,
        }
    }

    /// The assigned identifier, if there is one.
    pub open spec fn number(&self) -> Option<i64> {
        match self {
            Id::IntId(id) => Some(id.0),
            Id::Unassigned => None,
        }
    }

    /// How the identifier is written: the numeral of an assigned one, the
    /// empty text for none.
    pub open spec fn text(&self) -> Seq<char> {
        match self {
            Id::IntId(id) => int_text(id.0 as int),
            Id::Unassigned => Seq::empty(),
        }
    }

    /// The identifier as text.
    pub fn to_text(&self) -> (r: String)
        ensures
            r@ == self.text(),
    {
        match self {
            Id::IntId(id) => int_to_text(id.0),
            Id::Unassigned => String::new(),
        }
    }
}

impl From<i64> for Id {
    fn from(value: i64) -> (r: Id) {
        Id::IntId(IntId(value))
    }
}

impl vstd::std_specs::convert::FromSpecImpl<i64> for Id {
    open spec fn obeys_from_spec() -> bool {
        true
    }

    open spec fn from_spec(value: i64) -> Id {
        Id::IntId(IntId(value))
    }
}

impl From<Option<i64>> for Id {
    fn from(value: Option<i64>) -> (r: Id) {
        match value {
            Some(val) => Id::IntId(IntId(val)),
            None => Id::Unassigned,
        }
    }
}

impl vstd::std_specs::convert::FromSpecImpl<Option<i64>> for Id {
    open spec fn obeys_from_spec() -> bool {
        true
    }

    open spec fn from_spec(value: Option<i64>) -> Id {
        match value {
            Some(val) => Id::IntId(IntId(val)),
            None => Id::Unassigned,
        }
    }
}

} // verus!
