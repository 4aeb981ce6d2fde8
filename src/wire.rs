//! Values that are read from and written to a single JSON value, and the
//! members of objects that hold them.

use vstd::prelude::*;
use crate::error::{DecodeError, ErrorKind, Failure, Field, Segment, failure_below, failure_here};
use crate::text::owned;
use crate::json::{JsonValue, Shape, find_key, find_member, lemma_find_key_bounds, shape_of};

verus! {

/// A type whose values have a canonical encoding as one JSON value.
pub trait Wire: Sized {
    /// `v` decodes to `out`.
    spec fn decodes_to(v: JsonValue, out: Self) -> bool;

    /// Why `v` does not decode, where it does not; `field` names the member
    /// that `v` was found under.
    spec fn decode_failure(v: JsonValue, field: Field) -> Option<Failure>;

    /// `v` is the canonical encoding of `self`.
    spec fn encodes_to(self, v: JsonValue) -> bool;

    /// `self` is a value that decoding can produce: any structured content in
    /// it nests within the decoder's limit, and any mode it records agrees
    /// with its kind.
    spec fn well_formed(self) -> bool;

    fn decode(v: &JsonValue, field: Field) -> (r: Result<Self, DecodeError>)
        ensures
            match r {
                Ok(x) => Self::decode_failure(*v, field) is None && Self::decodes_to(*v, x),
                Err(e) => Self::decode_failure(*v, field) == Some(e@),
            },
    ;

    fn encode(&self) -> (r: JsonValue)
        ensures
            self.encodes_to(r),
    ;

    /// The canonical encoding of a value decodes back to that value.
    proof fn lemma_round_trip(self, v: JsonValue, field: Field)
        requires
            self.encodes_to(v),
            self.well_formed(),
        ensures
            Self::decode_failure(v, field) is None,
            Self::decodes_to(v, self),
    ;
}

/// The failure of a value whose kind is not the one expected.
pub open spec fn shape_failure(expected: Shape, v: JsonValue) -> Failure {
    failure_here(ErrorKind::InvalidShape { expected, actual: shape_of(v) })
}

impl Wire for String {
    open spec fn decodes_to(v: JsonValue, out: String) -> bool {
        v == JsonValue::Text(out)
    }

    open spec fn decode_failure(v: JsonValue, field: Field) -> Option<Failure> {
        match v {
            JsonValue::Text(_) => None,
            _ => Some(shape_failure(Shape::Text, v)),
        }
    }

    open spec fn encodes_to(self, v: JsonValue) -> bool {
        v == JsonValue::Text(self)
    }

    open spec fn well_formed(self) -> bool {
        true
    }

    fn decode(v: &JsonValue, field: Field) -> (r: Result<String, DecodeError>) {
        match v {
            JsonValue::Text(s) => Ok(s.clone()),
            _ => Err(DecodeError::here(ErrorKind::InvalidShape { expected: Shape::Text, actual: v.shape() })),
        }
    }

    fn encode(&self) -> (r: JsonValue) {
        JsonValue::Text(self.clone())
    }

    proof fn lemma_round_trip(self, v: JsonValue, field: Field) {
    }
}

impl Wire for i32 {
    open spec fn decodes_to(v: JsonValue, out: i32) -> bool {
        v matches JsonValue::Integer(n) && n == out
    }

    open spec fn decode_failure(v: JsonValue, field: Field) -> Option<Failure> {
        match v {
            JsonValue::Integer(n) => if i32::MIN <= n <= i32::MAX {
                None
            } else {
                Some(shape_failure(Shape::Int32, v))
            },
            _ => Some(shape_failure(Shape::Int32, v)),
        }
    }

    open spec fn encodes_to(self, v: JsonValue) -> bool {
        v == JsonValue::Integer(self as i64)
    }

    open spec fn well_formed(self) -> bool {
        true
    }

    fn decode(v: &JsonValue, field: Field) -> (r: Result<i32, DecodeError>) {
        match v {
            JsonValue::Integer(n) => {
                if i32::MIN as i64 <= *n && *n <= i32::MAX as i64 {
                    Ok(*n as i32)
                } else {
                    Err(DecodeError::here(ErrorKind::InvalidShape { expected: Shape::Int32, actual: Shape::Integer }))
                }
            },
            _ => Err(DecodeError::here(ErrorKind::InvalidShape { expected: Shape::Int32, actual: v.shape() })),
        }
    }

    fn encode(&self) -> (r: JsonValue) {
        JsonValue::Integer(*self as i64)
    }

    proof fn lemma_round_trip(self, v: JsonValue, field: Field) {
    }
}

impl Wire for bool {
    open spec fn decodes_to(v: JsonValue, out: bool) -> bool {
        v == JsonValue::Bool(out)
    }

    open spec fn decode_failure(v: JsonValue, field: Field) -> Option<Failure> {
        match v {
            JsonValue::Bool(_) => None,
            _ => Some(shape_failure(Shape::Boolean, v)),
        }
    }

    open spec fn encodes_to(self, v: JsonValue) -> bool {
        v == JsonValue::Bool(self)
    }

    open spec fn well_formed(self) -> bool {
        true
    }

    fn decode(v: &JsonValue, field: Field) -> (r: Result<bool, DecodeError>) {
        match v {
            JsonValue::Bool(b) => Ok(*b),
            _ => Err(DecodeError::here(ErrorKind::InvalidShape { expected: Shape::Boolean, actual: v.shape() })),
        }
    }

    fn encode(&self) -> (r: JsonValue) {
        JsonValue::Bool(*self)
    }

    proof fn lemma_round_trip(self, v: JsonValue, field: Field) {
    }
}

/// The first item of `vs`, from position `i` on, that does not decode as a `T`.
pub open spec fn first_item_failure<T: Wire>(vs: Seq<JsonValue>, i: int, field: Field) -> Option<Failure>
    decreases vs.len() - i,
{
    if i < 0 || i >= vs.len() {
        None
    } else {
        match T::decode_failure(vs[i], field) {
            Some(f) => Some(failure_below(Segment::Index(i as usize), f)),
            None => first_item_failure::<T>(vs, i + 1, field),
        }
    }
}

proof fn lemma_first_item_failure_none<T: Wire>(vs: Seq<JsonValue>, i: int, field: Field)
    requires
        0 <= i,
        forall|k: int| i <= k < vs.len() ==> T::decode_failure(#[trigger] vs[k], field) is None,
    ensures
        first_item_failure::<T>(vs, i, field) is None,
    decreases vs.len() - i,
{
    if i < vs.len() {
        lemma_first_item_failure_none::<T>(vs, i + 1, field);
    }
}

/// A sequence of values of one type, as an array.
impl<T: Wire> Wire for Vec<T> {
    open spec fn decodes_to(v: JsonValue, out: Vec<T>) -> bool {
        v matches JsonValue::Array(vs) && vs@.len() == out@.len() && forall|i: int|
            0 <= i < vs@.len() ==> T::decodes_to(vs@[i], #[trigger] out@[i])
    }

    open spec fn decode_failure(v: JsonValue, field: Field) -> Option<Failure> {
        match v {
            JsonValue::Array(vs) => first_item_failure::<T>(vs@, 0, field),
            _ => Some(shape_failure(Shape::Array, v)),
        }
    }

    open spec fn encodes_to(self, v: JsonValue) -> bool {
        v matches JsonValue::Array(vs) && vs@.len() == self@.len() && forall|i: int|
            0 <= i < vs@.len() ==> (#[trigger] self@[i]).encodes_to(vs@[i])
    }

    open spec fn well_formed(self) -> bool {
        forall|i: int| 0 <= i < self@.len() ==> (#[trigger] self@[i]).well_formed()
    }

    fn decode(v: &JsonValue, field: Field) -> (r: Result<Vec<T>, DecodeError>) {
        match v {
            JsonValue::Array(vs) => {
                let mut out: Vec<T> = Vec::new();
                let mut i: usize = 0;
                while i < vs.len()
                    invariant
                        *v == JsonValue::Array(*vs),
                        i <= vs@.len(),
                        out@.len() == i,
                        first_item_failure::<T>(vs@, 0, field) == first_item_failure::<T>(vs@, i as int, field),
                        forall|k: int| 0 <= k < i ==> T::decodes_to(vs@[k], #[trigger] out@[k]),
                    decreases vs@.len() - i,
                {
                    match T::decode(&vs[i], field) {
                        Ok(x) => out.push(x),
                        Err(e) => return Err(e.below(Segment::Index(i))),
                    }
                    i = i + 1;
                }
                Ok(out)
            },
            _ => Err(DecodeError::here(ErrorKind::InvalidShape { expected: Shape::Array, actual: v.shape() })),
        }
    }

    fn encode(&self) -> (r: JsonValue) {
        let mut vs: Vec<JsonValue> = Vec::new();
        let mut i: usize = 0;
        while i < self.len()
            invariant
                i <= self@.len(),
                vs@.len() == i,
                forall|k: int| 0 <= k < i ==> (#[trigger] self@[k]).encodes_to(vs@[k]),
            decreases self@.len() - i,
        {
            vs.push(self[i].encode());
            i = i + 1;
        }
        JsonValue::Array(vs)
    }

    proof fn lemma_round_trip(self, v: JsonValue, field: Field) {
        let vs = v->Array_0@;
        assert forall|k: int| 0 <= k < vs.len() implies T::decode_failure(#[trigger] vs[k], field) is None
            && T::decodes_to(vs[k], self@[k]) by {
            self@[k].lemma_round_trip(vs[k], field);
        }
        lemma_first_item_failure_none::<T>(vs, 0, field);
    }
}

/// A string that may be replaced by `null`.
impl Wire for Option<String> {
    open spec fn decodes_to(v: JsonValue, out: Option<String>) -> bool {
        match out {
            None => v == JsonValue::Null,
            Some(s) => v == JsonValue::Text(s),
        }
    }

    open spec fn decode_failure(v: JsonValue, field: Field) -> Option<Failure> {
        match v {
            JsonValue::Null => None,
            JsonValue::Text(_) => None,
            _ => Some(shape_failure(Shape::Text, v)),
        }
    }

    open spec fn encodes_to(self, v: JsonValue) -> bool {
        Self::decodes_to(v, self)
    }

    open spec fn well_formed(self) -> bool {
        true
    }

    fn decode(v: &JsonValue, field: Field) -> (r: Result<Option<String>, DecodeError>) {
        match v {
            JsonValue::Null => Ok(None),
            JsonValue::Text(s) => Ok(Some(s.clone())),
            _ => Err(DecodeError::here(ErrorKind::InvalidShape { expected: Shape::Text, actual: v.shape() })),
        }
    }

    fn encode(&self) -> (r: JsonValue) {
        match self {
            None => JsonValue::Null,
            Some(s) => JsonValue::Text(s.clone()),
        }
    }

    proof fn lemma_round_trip(self, v: JsonValue, field: Field) {
    }
}

/// Why the member `field` of an object with members `es` does not decode as
/// a `T`, where it is present and does not.
pub open spec fn member_failure<T: Wire>(es: Seq<(String, JsonValue)>, field: Field) -> Option<Failure> {
    match find_key(es, field.spec_name()) {
        None => None,
        Some(j) => match T::decode_failure(es[j].1, field) {
            None => None,
            Some(f) => Some(failure_below(Segment::Field(field), f)),
        },
    }
}

/// `out` is what the member `field` of an object with members `es` decodes
/// to: nothing where it is absent.
pub open spec fn member_decodes_to<T: Wire>(es: Seq<(String, JsonValue)>, field: Field, out: Option<T>) -> bool {
    match find_key(es, field.spec_name()) {
        None => out is None,
        Some(j) => out matches Some(x) && T::decodes_to(es[j].1, x),
    }
}

/// Decodes the optional member `field` of an object with members `es`.
pub fn decode_member<T: Wire>(es: &Vec<(String, JsonValue)>, field: Field) -> (r: Result<Option<T>, DecodeError>)
    ensures
        match r {
            Ok(x) => member_failure::<T>(es@, field) is None && member_decodes_to(es@, field, x),
            Err(e) => member_failure::<T>(es@, field) == Some(e@),
        },
{
    proof {
        lemma_find_key_bounds(es@, field.spec_name());
    }
    match find_member(es, field.name()) {
        None => Ok(None),
        Some(j) => match T::decode(&es[j].1, field) {
            Ok(x) => Ok(Some(x)),
            Err(e) => Err(e.below(Segment::Field(field))),
        },
    }
}

/// Why the required member `field` in `es` does not decode, where it does not.
pub open spec fn required_failure<T: Wire>(es: Seq<(String, JsonValue)>, field: Field) -> Option<Failure> {
    match find_key(es, field.spec_name()) {
        None => Some(failure_here(ErrorKind::MissingField(field))),
        Some(j) => match T::decode_failure(es[j].1, field) {
            None => None,
            Some(f) => Some(failure_below(Segment::Field(field), f)),
        },
    }
}

/// `out` is what the required member `field` in `es` decodes to.
pub open spec fn required_decodes_to<T: Wire>(es: Seq<(String, JsonValue)>, field: Field, out: T) -> bool {
    find_key(es, field.spec_name()) matches Some(j) && T::decodes_to(es[j].1, out)
}

/// Decodes the required member `field` of an object with members `es`.
pub fn decode_required<T: Wire>(es: &Vec<(String, JsonValue)>, field: Field) -> (r: Result<T, DecodeError>)
    ensures
        match r {
            Ok(x) => required_failure::<T>(es@, field) is None && required_decodes_to(es@, field, x),
            Err(e) => required_failure::<T>(es@, field) == Some(e@),
        },
{
    proof {
        lemma_find_key_bounds(es@, field.spec_name());
    }
    match find_member(es, field.name()) {
        None => Err(DecodeError::here(ErrorKind::MissingField(field))),
        Some(j) => match T::decode(&es[j].1, field) {
            Ok(x) => Ok(x),
            Err(e) => Err(e.below(Segment::Field(field))),
        },
    }
}

/// Appends the member `field` holding `x`, where there is one.
pub fn push_member<T: Wire>(es: &mut Vec<(String, JsonValue)>, field: Field, x: &Option<T>)
    ensures
        x is None ==> final(es)@ == old(es)@,
        x matches Some(y) ==> final(es)@.len() == old(es)@.len() + 1 && final(es)@.drop_last() == old(es)@
            && final(es)@.last().0@ == field.spec_name() && y.encodes_to(final(es)@.last().1),
{
    if let Some(y) = x {
        push_required(es, field, y);
    }
}

/// Appends the member `field` holding `x`.
pub fn push_required<T: Wire>(es: &mut Vec<(String, JsonValue)>, field: Field, x: &T)
    ensures
        final(es)@.len() == old(es)@.len() + 1,
        final(es)@.drop_last() == old(es)@,
        final(es)@.last().0@ == field.spec_name(),
        x.encodes_to(final(es)@.last().1),
{
    let v = x.encode();
    es.push((owned(field.name()), v));
    proof {
        assert(final(es)@.drop_last() =~= old(es)@);
    }
}

} // verus!
