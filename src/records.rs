//! Records of the term, kanji and tag banks: fixed-length arrays whose
//! positions hold the fields in a fixed order. Every position is always
//! written; an array of another length is rejected.

use vstd::prelude::*;
use crate::definition::TermDefinition;
use crate::error::{DecodeError, ErrorKind, Failure, Field, Segment, either, failure_below, failure_here};
use crate::json::{JsonValue, Shape};
use crate::keys::Key;
use crate::wire::{Wire, shape_failure};

verus! {

/// Statistics of a kanji, by name.
pub type KanjiStats = Vec<(String, String)>;

/// The field under which positional values are decoded: positions have no
/// member name, and no value at a position is of an enumerated kind, so it
/// shows in no error.
pub open spec fn position_field() -> Field {
    Field::Member(Key::Value)
}

/// A failure at position `i` of a record, where there is one.
pub open spec fn at_position(i: usize, f: Option<Failure>) -> Option<Failure> {
    match f {
        Some(g) => Some(failure_below(Segment::Index(i), g)),
        None => None,
    }
}

/// One record of a term bank.
#[derive(Debug)]
pub struct TermInformation {
    pub term: String,
    pub reading: String,
    pub definition_tags: Option<String>,
    pub deinflectors: String,
    pub popularity: i32,
    pub definitions: Vec<TermDefinition>,
    pub sequence_number: i32,
    pub term_tags: String,
}

impl Wire for TermInformation {
    open spec fn decodes_to(v: JsonValue, out: TermInformation) -> bool {
        &&& v matches JsonValue::Array(vs)
        &&& v->Array_0@.len() == 8
        &&& String::decodes_to(v->Array_0@[0], out.term)
        &&& String::decodes_to(v->Array_0@[1], out.reading)
        &&& Option::<String>::decodes_to(v->Array_0@[2], out.definition_tags)
        &&& String::decodes_to(v->Array_0@[3], out.deinflectors)
        &&& i32::decodes_to(v->Array_0@[4], out.popularity)
        &&& Vec::<TermDefinition>::decodes_to(v->Array_0@[5], out.definitions)
        &&& i32::decodes_to(v->Array_0@[6], out.sequence_number)
        &&& String::decodes_to(v->Array_0@[7], out.term_tags)
    }

    open spec fn decode_failure(v: JsonValue, field: Field) -> Option<Failure> {
        match v {
            JsonValue::Array(vs) => if vs@.len() != 8 {
                Some(failure_here(ErrorKind::InvalidArity { expected: 8, actual: vs@.len() as usize }))
            } else {
                either(at_position(0, String::decode_failure(vs@[0], position_field())),
                either(at_position(1, String::decode_failure(vs@[1], position_field())),
                either(at_position(2, Option::<String>::decode_failure(vs@[2], position_field())),
                either(at_position(3, String::decode_failure(vs@[3], position_field())),
                either(at_position(4, i32::decode_failure(vs@[4], position_field())),
                either(at_position(5, Vec::<TermDefinition>::decode_failure(vs@[5], position_field())),
                either(at_position(6, i32::decode_failure(vs@[6], position_field())),
                at_position(7, String::decode_failure(vs@[7], position_field())))))))))
            },
            _ => Some(shape_failure(Shape::Array, v)),
        }
    }

    open spec fn encodes_to(self, v: JsonValue) -> bool {
        &&& v matches JsonValue::Array(vs)
        &&& v->Array_0@.len() == 8
        &&& self.term.encodes_to(v->Array_0@[0])
        &&& self.reading.encodes_to(v->Array_0@[1])
        &&& self.definition_tags.encodes_to(v->Array_0@[2])
        &&& self.deinflectors.encodes_to(v->Array_0@[3])
        &&& self.popularity.encodes_to(v->Array_0@[4])
        &&& self.definitions.encodes_to(v->Array_0@[5])
        &&& self.sequence_number.encodes_to(v->Array_0@[6])
        &&& self.term_tags.encodes_to(v->Array_0@[7])
    }

    open spec fn well_formed(self) -> bool {
        self.term.well_formed() && self.reading.well_formed() && self.definition_tags.well_formed() && self.deinflectors.well_formed() && self.popularity.well_formed() && self.definitions.well_formed() && self.sequence_number.well_formed() && self.term_tags.well_formed()
    }

    fn decode(v: &JsonValue, field: Field) -> (r: Result<TermInformation, DecodeError>) {
        let vs = match v {
            JsonValue::Array(vs) => vs,
            _ => return Err(DecodeError::here(ErrorKind::InvalidShape { expected: Shape::Array, actual: v.shape() })),
        };
        if vs.len() != 8 {
            return Err(DecodeError::here(ErrorKind::InvalidArity { expected: 8, actual: vs.len() }));
        }
        let term = match String::decode(&vs[0], Field::Member(Key::Value)) {
            Ok(x) => x,
            Err(e) => return Err(e.below(Segment::Index(0))),
        };
        let reading = match String::decode(&vs[1], Field::Member(Key::Value)) {
            Ok(x) => x,
            Err(e) => return Err(e.below(Segment::Index(1))),
        };
        let definition_tags = match Option::<String>::decode(&vs[2], Field::Member(Key::Value)) {
            Ok(x) => x,
            Err(e) => return Err(e.below(Segment::Index(2))),
        };
        let deinflectors = match String::decode(&vs[3], Field::Member(Key::Value)) {
            Ok(x) => x,
            Err(e) => return Err(e.below(Segment::Index(3))),
        };
        let popularity = match i32::decode(&vs[4], Field::Member(Key::Value)) {
            Ok(x) => x,
            Err(e) => return Err(e.below(Segment::Index(4))),
        };
        let definitions = match Vec::<TermDefinition>::decode(&vs[5], Field::Member(Key::Value)) {
            Ok(x) => x,
            Err(e) => return Err(e.below(Segment::Index(5))),
        };
        let sequence_number = match i32::decode(&vs[6], Field::Member(Key::Value)) {
            Ok(x) => x,
            Err(e) => return Err(e.below(Segment::Index(6))),
        };
        let term_tags = match String::decode(&vs[7], Field::Member(Key::Value)) {
            Ok(x) => x,
            Err(e) => return Err(e.below(Segment::Index(7))),
        };
        Ok(TermInformation { term, reading, definition_tags, deinflectors, popularity, definitions, sequence_number, term_tags })
    }

    fn encode(&self) -> (r: JsonValue) {
        let mut vs: Vec<JsonValue> = Vec::new();
        vs.push(self.term.encode());
        vs.push(self.reading.encode());
        vs.push(self.definition_tags.encode());
        vs.push(self.deinflectors.encode());
        vs.push(self.popularity.encode());
        vs.push(self.definitions.encode());
        vs.push(self.sequence_number.encode());
        vs.push(self.term_tags.encode());
        JsonValue::Array(vs)
    }

    proof fn lemma_round_trip(self, v: JsonValue, field: Field) {
        let vs = v->Array_0@;
        self.term.lemma_round_trip(vs[0], position_field());
        self.reading.lemma_round_trip(vs[1], position_field());
        self.definition_tags.lemma_round_trip(vs[2], position_field());
        self.deinflectors.lemma_round_trip(vs[3], position_field());
        self.popularity.lemma_round_trip(vs[4], position_field());
        self.definitions.lemma_round_trip(vs[5], position_field());
        self.sequence_number.lemma_round_trip(vs[6], position_field());
        self.term_tags.lemma_round_trip(vs[7], position_field());
    }
}

/// One record of a kanji bank.
#[derive(Debug)]
pub struct KanjiInformation {
    pub kanji: String,
    pub onyomi: String,
    pub kunyomi: String,
    pub tags: String,
    pub meanings: Vec<String>,
    pub stats: KanjiStats,
}

impl Wire for KanjiInformation {
    open spec fn decodes_to(v: JsonValue, out: KanjiInformation) -> bool {
        &&& v matches JsonValue::Array(vs)
        &&& v->Array_0@.len() == 6
        &&& String::decodes_to(v->Array_0@[0], out.kanji)
        &&& String::decodes_to(v->Array_0@[1], out.onyomi)
        &&& String::decodes_to(v->Array_0@[2], out.kunyomi)
        &&& String::decodes_to(v->Array_0@[3], out.tags)
        &&& Vec::<String>::decodes_to(v->Array_0@[4], out.meanings)
        &&& KanjiStats::decodes_to(v->Array_0@[5], out.stats)
    }

    open spec fn decode_failure(v: JsonValue, field: Field) -> Option<Failure> {
        match v {
            JsonValue::Array(vs) => if vs@.len() != 6 {
                Some(failure_here(ErrorKind::InvalidArity { expected: 6, actual: vs@.len() as usize }))
            } else {
                either(at_position(0, String::decode_failure(vs@[0], position_field())),
                either(at_position(1, String::decode_failure(vs@[1], position_field())),
                either(at_position(2, String::decode_failure(vs@[2], position_field())),
                either(at_position(3, String::decode_failure(vs@[3], position_field())),
                either(at_position(4, Vec::<String>::decode_failure(vs@[4], position_field())),
                at_position(5, KanjiStats::decode_failure(vs@[5], position_field())))))))
            },
            _ => Some(shape_failure(Shape::Array, v)),
        }
    }

    open spec fn encodes_to(self, v: JsonValue) -> bool {
        &&& v matches JsonValue::Array(vs)
        &&& v->Array_0@.len() == 6
        &&& self.kanji.encodes_to(v->Array_0@[0])
        &&& self.onyomi.encodes_to(v->Array_0@[1])
        &&& self.kunyomi.encodes_to(v->Array_0@[2])
        &&& self.tags.encodes_to(v->Array_0@[3])
        &&& self.meanings.encodes_to(v->Array_0@[4])
        &&& self.stats.encodes_to(v->Array_0@[5])
    }

    open spec fn well_formed(self) -> bool {
        self.kanji.well_formed() && self.onyomi.well_formed() && self.kunyomi.well_formed() && self.tags.well_formed() && self.meanings.well_formed() && self.stats.well_formed()
    }

    fn decode(v: &JsonValue, field: Field) -> (r: Result<KanjiInformation, DecodeError>) {
        let vs = match v {
            JsonValue::Array(vs) => vs,
            _ => return Err(DecodeError::here(ErrorKind::InvalidShape { expected: Shape::Array, actual: v.shape() })),
        };
        if vs.len() != 6 {
            return Err(DecodeError::here(ErrorKind::InvalidArity { expected: 6, actual: vs.len() }));
        }
        let kanji = match String::decode(&vs[0], Field::Member(Key::Value)) {
            Ok(x) => x,
            Err(e) => return Err(e.below(Segment::Index(0))),
        };
        let onyomi = match String::decode(&vs[1], Field::Member(Key::Value)) {
            Ok(x) => x,
            Err(e) => return Err(e.below(Segment::Index(1))),
        };
        let kunyomi = match String::decode(&vs[2], Field::Member(Key::Value)) {
            Ok(x) => x,
            Err(e) => return Err(e.below(Segment::Index(2))),
        };
        let tags = match String::decode(&vs[3], Field::Member(Key::Value)) {
            Ok(x) => x,
            Err(e) => return Err(e.below(Segment::Index(3))),
        };
        let meanings = match Vec::<String>::decode(&vs[4], Field::Member(Key::Value)) {
            Ok(x) => x,
            Err(e) => return Err(e.below(Segment::Index(4))),
        };
        let stats = match KanjiStats::decode(&vs[5], Field::Member(Key::Value)) {
            Ok(x) => x,
            Err(e) => return Err(e.below(Segment::Index(5))),
        };
        Ok(KanjiInformation { kanji, onyomi, kunyomi, tags, meanings, stats })
    }

    fn encode(&self) -> (r: JsonValue) {
        let mut vs: Vec<JsonValue> = Vec::new();
        vs.push(self.kanji.encode());
        vs.push(self.onyomi.encode());
        vs.push(self.kunyomi.encode());
        vs.push(self.tags.encode());
        vs.push(self.meanings.encode());
        vs.push(self.stats.encode());
        JsonValue::Array(vs)
    }

    proof fn lemma_round_trip(self, v: JsonValue, field: Field) {
        let vs = v->Array_0@;
        self.kanji.lemma_round_trip(vs[0], position_field());
        self.onyomi.lemma_round_trip(vs[1], position_field());
        self.kunyomi.lemma_round_trip(vs[2], position_field());
        self.tags.lemma_round_trip(vs[3], position_field());
        self.meanings.lemma_round_trip(vs[4], position_field());
        self.stats.lemma_round_trip(vs[5], position_field());
    }
}

/// One record of a tag bank.
#[derive(Debug)]
pub struct TagInformation {
    pub name: String,
    pub category: String,
    pub sorting_order: i32,
    pub notes: String,
    pub popularity_score: i32,
}

impl Wire for TagInformation {
    open spec fn decodes_to(v: JsonValue, out: TagInformation) -> bool {
        &&& v matches JsonValue::Array(vs)
        &&& v->Array_0@.len() == 5
        &&& String::decodes_to(v->Array_0@[0], out.name)
        &&& String::decodes_to(v->Array_0@[1], out.category)
        &&& i32::decodes_to(v->Array_0@[2], out.sorting_order)
        &&& String::decodes_to(v->Array_0@[3], out.notes)
        &&& i32::decodes_to(v->Array_0@[4], out.popularity_score)
    }

    open spec fn decode_failure(v: JsonValue, field: Field) -> Option<Failure> {
        match v {
            JsonValue::Array(vs) => if vs@.len() != 5 {
                Some(failure_here(ErrorKind::InvalidArity { expected: 5, actual: vs@.len() as usize }))
            } else {
                either(at_position(0, String::decode_failure(vs@[0], position_field())),
                either(at_position(1, String::decode_failure(vs@[1], position_field())),
                either(at_position(2, i32::decode_failure(vs@[2], position_field())),
                either(at_position(3, String::decode_failure(vs@[3], position_field())),
                at_position(4, i32::decode_failure(vs@[4], position_field()))))))
            },
            _ => Some(shape_failure(Shape::Array, v)),
        }
    }

    open spec fn encodes_to(self, v: JsonValue) -> bool {
        &&& v matches JsonValue::Array(vs)
        &&& v->Array_0@.len() == 5
        &&& self.name.encodes_to(v->Array_0@[0])
        &&& self.category.encodes_to(v->Array_0@[1])
        &&& self.sorting_order.encodes_to(v->Array_0@[2])
        &&& self.notes.encodes_to(v->Array_0@[3])
        &&& self.popularity_score.encodes_to(v->Array_0@[4])
    }

    open spec fn well_formed(self) -> bool {
        self.name.well_formed() && self.category.well_formed() && self.sorting_order.well_formed() && self.notes.well_formed() && self.popularity_score.well_formed()
    }

    fn decode(v: &JsonValue, field: Field) -> (r: Result<TagInformation, DecodeError>) {
        let vs = match v {
            JsonValue::Array(vs) => vs,
            _ => return Err(DecodeError::here(ErrorKind::InvalidShape { expected: Shape::Array, actual: v.shape() })),
        };
        if vs.len() != 5 {
            return Err(DecodeError::here(ErrorKind::InvalidArity { expected: 5, actual: vs.len() }));
        }
        let name = match String::decode(&vs[0], Field::Member(Key::Value)) {
            Ok(x) => x,
            Err(e) => return Err(e.below(Segment::Index(0))),
        };
        let category = match String::decode(&vs[1], Field::Member(Key::Value)) {
            Ok(x) => x,
            Err(e) => return Err(e.below(Segment::Index(1))),
        };
        let sorting_order = match i32::decode(&vs[2], Field::Member(Key::Value)) {
            Ok(x) => x,
            Err(e) => return Err(e.below(Segment::Index(2))),
        };
        let notes = match String::decode(&vs[3], Field::Member(Key::Value)) {
            Ok(x) => x,
            Err(e) => return Err(e.below(Segment::Index(3))),
        };
        let popularity_score = match i32::decode(&vs[4], Field::Member(Key::Value)) {
            Ok(x) => x,
            Err(e) => return Err(e.below(Segment::Index(4))),
        };
        Ok(TagInformation { name, category, sorting_order, notes, popularity_score })
    }

    fn encode(&self) -> (r: JsonValue) {
        let mut vs: Vec<JsonValue> = Vec::new();
        vs.push(self.name.encode());
        vs.push(self.category.encode());
        vs.push(self.sorting_order.encode());
        vs.push(self.notes.encode());
        vs.push(self.popularity_score.encode());
        JsonValue::Array(vs)
    }

    proof fn lemma_round_trip(self, v: JsonValue, field: Field) {
        let vs = v->Array_0@;
        self.name.lemma_round_trip(vs[0], position_field());
        self.category.lemma_round_trip(vs[1], position_field());
        self.sorting_order.lemma_round_trip(vs[2], position_field());
        self.notes.lemma_round_trip(vs[3], position_field());
        self.popularity_score.lemma_round_trip(vs[4], position_field());
    }
}

} // verus!

verus! {

/// A term bank: an array of term records.
pub type DictionaryTermBankV3 = Vec<TermInformation>;

/// A kanji bank: an array of kanji records.
pub type DictionaryKanjiBankV3 = Vec<KanjiInformation>;

/// A tag bank: an array of tag records.
pub type DictionaryTagBankV3 = Vec<TagInformation>;

/// Decodes a term bank; the first record that fails fails the bank.
pub fn decode_term_bank(v: &JsonValue) -> (r: Result<DictionaryTermBankV3, DecodeError>)
    ensures
        match r {
            Ok(b) => Vec::<TermInformation>::decode_failure(*v, position_field()) is None
                && Vec::<TermInformation>::decodes_to(*v, b),
            Err(e) => Vec::<TermInformation>::decode_failure(*v, position_field()) == Some(e@),
        },
{
    Vec::<TermInformation>::decode(v, Field::Member(Key::Value))
}

/// Decodes a kanji bank.
pub fn decode_kanji_bank(v: &JsonValue) -> (r: Result<DictionaryKanjiBankV3, DecodeError>)
    ensures
        match r {
            Ok(b) => Vec::<KanjiInformation>::decode_failure(*v, position_field()) is None
                && Vec::<KanjiInformation>::decodes_to(*v, b),
            Err(e) => Vec::<KanjiInformation>::decode_failure(*v, position_field()) == Some(e@),
        },
{
    Vec::<KanjiInformation>::decode(v, Field::Member(Key::Value))
}

/// Decodes a tag bank.
pub fn decode_tag_bank(v: &JsonValue) -> (r: Result<DictionaryTagBankV3, DecodeError>)
    ensures
        match r {
            Ok(b) => Vec::<TagInformation>::decode_failure(*v, position_field()) is None
                && Vec::<TagInformation>::decodes_to(*v, b),
            Err(e) => Vec::<TagInformation>::decode_failure(*v, position_field()) == Some(e@),
        },
{
    Vec::<TagInformation>::decode(v, Field::Member(Key::Value))
}

/// Decodes one term record.
pub fn decode_term(v: &JsonValue) -> (r: Result<TermInformation, DecodeError>)
    ensures
        match r {
            Ok(t) => TermInformation::decode_failure(*v, position_field()) is None && TermInformation::decodes_to(*v, t),
            Err(e) => TermInformation::decode_failure(*v, position_field()) == Some(e@),
        },
{
    TermInformation::decode(v, Field::Member(Key::Value))
}

/// The canonical encoding of one term record: all eight positions.
pub fn encode_term(t: &TermInformation) -> (r: JsonValue)
    ensures
        t.encodes_to(r),
{
    t.encode()
}

impl TermInformation {
    /// The glosses of this term as one JSON array, in canonical encoding: the
    /// form in which a store keeps them.
    pub fn definitions_json(&self) -> (r: JsonValue)
        ensures
            self.definitions.encodes_to(r),
    {
        self.definitions.encode()
    }
}

/// A term record that decodes re-encodes to an array that decodes to the same
/// record, where its structured content nests within the decoder's limit.
pub proof fn lemma_term_round_trip(v: JsonValue, t: TermInformation, w: JsonValue)
    requires
        TermInformation::decode_failure(v, position_field()) is None,
        TermInformation::decodes_to(v, t),
        t.well_formed(),
        t.encodes_to(w),
    ensures
        TermInformation::decode_failure(w, position_field()) is None,
        TermInformation::decodes_to(w, t),
{
    t.lemma_round_trip(w, position_field());
}

} // verus!
