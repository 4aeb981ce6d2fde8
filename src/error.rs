//! Decode failures, each with the path from the document root to the value
//! that failed.

use vstd::prelude::*;
use crate::json::Shape;
use crate::keys::{Key, StyleKey};

verus! {

/// A member name known to the format.
#[derive(Clone, Copy, Debug, PartialEq, Eq, Structural)]
pub enum Field {
    Member(Key),
    Style(StyleKey),
}

impl Field {
    /// The spelling of this name on the wire.
    pub open spec fn spec_name(self) -> Seq<char> {
        match self {
            Field::Member(k) => k.spec_name(),
            Field::Style(k) => k.spec_name(),
        }
    }

    /// The spelling of this name on the wire.
    pub fn name(self) -> (r: &'static str)
        ensures
            r@ == self.spec_name(),
    {
        match self {
            Field::Member(k) => k.name(),
            Field::Style(k) => k.name(),
        }
    }
}

/// Two names of the same family are spelled alike only where they are the
/// same name.
pub proof fn lemma_field_names_injective(f: Field, g: Field)
    ensures
        (f is Member && g is Member) || (f is Style && g is Style) ==> (f.spec_name() == g.spec_name() ==> f == g),
{
    match (f, g) {
        (Field::Member(a), Field::Member(b)) => {
            a.lemma_name_round_trip();
            b.lemma_name_round_trip();
        },
        (Field::Style(a), Field::Style(b)) => {
            a.lemma_name_round_trip();
            b.lemma_name_round_trip();
        },
        _ => {},
    }
}

/// One step on the way from the document root to a value.
#[derive(Clone, Debug, PartialEq, Eq)]
pub enum Segment {
    /// A position in an array or positional record.
    Index(usize),
    /// A member of an object, by its known name.
    Field(Field),
    /// A member of a free-form string map, by its key.
    Entry(String),
}

/// What went wrong.
#[derive(Clone, Debug, PartialEq, Eq)]
pub enum ErrorKind {
    /// A required member is absent.
    MissingField(Field),
    /// A member that the object's kind does not have.
    UnknownField(String),
    /// A discriminator (`type`, or a meta record's mode) with an unknown value.
    UnknownVariant(Field, String),
    /// An element tag outside every category.
    UnknownTag(String),
    /// A positional record or pair of the wrong length.
    InvalidArity { expected: usize, actual: usize },
    /// A value of the wrong kind.
    InvalidShape { expected: Shape, actual: Shape },
    /// A string outside the closed set of values of an enumerated member.
    InvalidValue(Field, String),
    /// Structured content nested deeper than the decoder accepts.
    TooDeep,
}

/// A decode failure: its kind, and where in the document it happened.
#[derive(Clone, Debug, PartialEq, Eq)]
pub struct DecodeError {
    pub path: Vec<Segment>,
    pub kind: ErrorKind,
}

/// The mathematical view of a failure.
pub ghost struct Failure {
    pub path: Seq<Segment>,
    pub kind: ErrorKind,
}

impl View for DecodeError {
    type V = Failure;

    open spec fn view(&self) -> Failure {
        Failure { path: self.path@, kind: self.kind }
    }
}

/// A failure at the value itself.
pub open spec fn failure_here(kind: ErrorKind) -> Failure {
    Failure { path: Seq::empty(), kind }
}

/// A failure found one step below the value.
pub open spec fn failure_below(seg: Segment, f: Failure) -> Failure {
    Failure { path: seq![seg] + f.path, kind: f.kind }
}

/// The first of two possible failures.
pub open spec fn either(a: Option<Failure>, b: Option<Failure>) -> Option<Failure> {
    if a is Some {
        a
    } else {
        b
    }
}

impl DecodeError {
    /// A failure at the value being decoded.
    pub fn here(kind: ErrorKind) -> (r: DecodeError)
        ensures
            r@ == failure_here(kind),
    {
        DecodeError { path: Vec::new(), kind }
    }

    /// This failure, seen from one step above.
    pub fn below(self, seg: Segment) -> (r: DecodeError)
        ensures
            r@ == failure_below(seg, self@),
    {
        let mut path = Vec::new();
        path.push(seg);
        let mut tail = self.path;
        path.append(&mut tail);
        DecodeError { path, kind: self.kind }
    }
}

} // verus!
