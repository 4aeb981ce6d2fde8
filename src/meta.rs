//! Meta banks: frequency, pitch-accent and phonetic records of terms and
//! kanji, each an array of an expression, a mode and a payload whose shape
//! the mode decides.

use vstd::prelude::*;
use crate::error::{DecodeError, ErrorKind, Failure, Field, Segment, failure_below, failure_here, lemma_field_names_injective};
use crate::json::{JsonValue, Shape, find_key, find_member, lemma_find_key_bounds};
use crate::keys::Key;
use crate::members::{Members, decodes_members, distinct_names, encodes_members, encodes_members_prefix, failure_from, lemma_encoded_lookups, lemma_members_round_trip, lemma_prefix_complete, lemma_prefix_extend, lemma_present_step};
use crate::records::{at_position, position_field};
use crate::text::{owned, str_equal};
use crate::wire::{Wire, decode_member, decode_required, member_decodes_to, member_failure, push_member, push_required, required_decodes_to, required_failure, shape_failure};

verus! {

/// The mode of a meta record, which decides the shape of its payload.
#[derive(Clone, Copy, Debug, PartialEq, Eq, Structural)]
pub enum MetaMode {
    Freq,
    Pitch,
    Ipa,
}

impl MetaMode {
    /// The spelling of this value on the wire.
    pub open spec fn spec_name(self) -> Seq<char> {
        match self {
            MetaMode::Freq => "freq"@,
            MetaMode::Pitch => "pitch"@,
            MetaMode::Ipa => "ipa"@,
        }
    }

    /// The value spelled `s`, if any.
    pub open spec fn spec_from_name(s: Seq<char>) -> Option<MetaMode> {
        if s == "freq"@ {
            Some(MetaMode::Freq)
        } else if s == "pitch"@ {
            Some(MetaMode::Pitch)
        } else if s == "ipa"@ {
            Some(MetaMode::Ipa)
        } else {
            None
        }
    }

    /// The spelling of this value on the wire.
    pub fn name(self) -> (r: &'static str)
        ensures
            r@ == self.spec_name(),
    {
        match self {
            MetaMode::Freq => "freq",
            MetaMode::Pitch => "pitch",
            MetaMode::Ipa => "ipa",
        }
    }

    /// The value spelled `s`, if any.
    pub fn from_name(s: &str) -> (r: Option<MetaMode>)
        ensures
            r == Self::spec_from_name(s@),
    {
        if str_equal(s, "freq") {
            Some(MetaMode::Freq)
        } else if str_equal(s, "pitch") {
            Some(MetaMode::Pitch)
        } else if str_equal(s, "ipa") {
            Some(MetaMode::Ipa)
        } else {
            None
        }
    }

    /// Reading back the spelling of a value gives that value.
    pub proof fn lemma_name_round_trip(self)
        ensures
            Self::spec_from_name(self.spec_name()) == Some(self),
    {
        reveal_strlit("freq");
        assert("freq"@.len() == 4 && "freq"@[0] == 'f' && "freq"@[1] == 'r' && "freq"@[2] == 'e' && "freq"@[3] == 'q');
        reveal_strlit("pitch");
        assert("pitch"@.len() == 5 && "pitch"@[0] == 'p' && "pitch"@[1] == 'i' && "pitch"@[2] == 't' && "pitch"@[3] == 'c' && "pitch"@[4] == 'h');
        reveal_strlit("ipa");
        assert("ipa"@.len() == 3 && "ipa"@[0] == 'i' && "ipa"@[1] == 'p' && "ipa"@[2] == 'a');
    }
}

/// A frequency: a string, a number, or a number with its display text.
#[derive(Clone, Debug, PartialEq)]
pub enum FrequencyData {
    Text(String),
    Number(i32),
    DisplayNumber(DisplayNumber),
}

/// A position, or several, within a reading.
#[derive(Clone, Debug, PartialEq)]
pub enum NumOrArray {
    Number(i32),
    Array(Vec<i32>),
}

/// The frequency payload of a term: a frequency, or one for a reading.
#[derive(Clone, Debug, PartialEq)]
pub enum TermMetaFrequencyData {
    Generic(FrequencyData),
    WithReading(ReadingFrequency),
}

/// A frequency given as a number with the text to show for it.
#[derive(Clone, Debug, PartialEq)]
pub struct DisplayNumber {
    pub value: i32,
    pub display_value: Option<String>,
    pub reading: Option<String>,
}

impl DisplayNumber {
    /// A value with every optional member absent.
    pub fn blank() -> (r: DisplayNumber) {
        DisplayNumber {
            value: 0,
            display_value: None,
            reading: None,
        }
    }
}

/// The member at position `i` of the canonical order of `DisplayNumber`.
pub open spec fn display_number_member_at(i: int) -> Field {
    if i == 0 {
        Field::Member(Key::Value)
    } else if i == 1 {
        Field::Member(Key::DisplayValue)
    } else if i == 2 {
        Field::Member(Key::Reading)
    } else {
        Field::Member(Key::Value)
    }
}

/// The position of `f` in the canonical order of `DisplayNumber`.
pub open spec fn display_number_member_index(f: Field) -> int {
    match f {
        Field::Member(Key::Value) => 0,
        Field::Member(Key::DisplayValue) => 1,
        Field::Member(Key::Reading) => 2,
        _ => 3,
    }
}

fn display_number_member_at_exec(i: usize) -> (r: Field)
    ensures
        r == display_number_member_at(i as int),
{
    match i {
        0 => Field::Member(Key::Value),
        1 => Field::Member(Key::DisplayValue),
        2 => Field::Member(Key::Reading),
        _ => Field::Member(Key::Value),
    }
}

proof fn lemma_display_number_member_index(i: int)
    requires
        0 <= i < 3,
    ensures
        display_number_member_index(display_number_member_at(i)) == i,
{
}

impl Members for DisplayNumber {
    open spec fn members() -> Seq<Field> {
        Seq::new(3, |i: int| display_number_member_at(i))
    }

    open spec fn has(self, f: Field) -> bool {
        match f {
            Field::Member(Key::Value) => true,
            Field::Member(Key::DisplayValue) => self.display_value is Some,
            Field::Member(Key::Reading) => self.reading is Some,
            _ => false,
        }
    }

    open spec fn member_encodes(self, f: Field, v: JsonValue) -> bool {
        match f {
            Field::Member(Key::Value) => self.value.encodes_to(v),
            Field::Member(Key::DisplayValue) => self.display_value matches Some(x) && x.encodes_to(v),
            Field::Member(Key::Reading) => self.reading matches Some(x) && x.encodes_to(v),
            _ => false,
        }
    }

    open spec fn member_decodes(self, es: Seq<(String, JsonValue)>, f: Field) -> bool {
        match f {
            Field::Member(Key::Value) => required_decodes_to(es, f, self.value),
            Field::Member(Key::DisplayValue) => member_decodes_to(es, f, self.display_value),
            Field::Member(Key::Reading) => member_decodes_to(es, f, self.reading),
            _ => true,
        }
    }

    open spec fn member_failure(es: Seq<(String, JsonValue)>, f: Field) -> Option<Failure> {
        match f {
            Field::Member(Key::Value) => required_failure::<i32>(es, f),
            Field::Member(Key::DisplayValue) => member_failure::<String>(es, f),
            Field::Member(Key::Reading) => member_failure::<String>(es, f),
            _ => None,
        }
    }

    proof fn lemma_member_round_trip(self, es: Seq<(String, JsonValue)>, f: Field) {
        if self.has(f) {
            let j = choose|j: int| 0 <= j < es.len() && find_key(es, f.spec_name()) == Some(j) && self.member_encodes(f, #[trigger] es[j].1);
            match f {
                Field::Member(Key::Value) => self.value.lemma_round_trip(es[j].1, f),
                Field::Member(Key::DisplayValue) => self.display_value.unwrap().lemma_round_trip(es[j].1, f),
                Field::Member(Key::Reading) => self.reading.unwrap().lemma_round_trip(es[j].1, f),
                _ => {},
            }
        }
    }
}

/// No two members of `DisplayNumber` are spelled alike.
pub proof fn lemma_display_number_names_distinct()
    ensures
        distinct_names(DisplayNumber::members()),
{
    let m = DisplayNumber::members();
    assert forall|i: int, j: int| 0 <= i < j < m.len() implies (#[trigger] m[i]).spec_name() != (#[trigger] m[j]).spec_name() by {
        lemma_display_number_member_index(i);
        lemma_display_number_member_index(j);
        lemma_field_names_injective(m[i], m[j]);
    }
}

/// Decodes the members of a `DisplayNumber` from the members `es` of an object.
fn decode_display_number_members(es: &Vec<(String, JsonValue)>) -> (r: Result<DisplayNumber, DecodeError>)
    ensures
        match r {
            Ok(x) => failure_from::<DisplayNumber>(es@, DisplayNumber::members(), 0) is None && decodes_members(x, es@),
            Err(e) => failure_from::<DisplayNumber>(es@, DisplayNumber::members(), 0) == Some(e@),
        },
{
    let mut out = DisplayNumber::blank();
    let mut i: usize = 0;
    while i < 3
        invariant
            i <= 3,
            failure_from::<DisplayNumber>(es@, DisplayNumber::members(), 0) == failure_from::<DisplayNumber>(es@, DisplayNumber::members(), i as int),
            forall|j: int| 0 <= j < i ==> #[trigger] out.member_decodes(es@, display_number_member_at(j)),
        decreases 3 - i,
    {
        let f = display_number_member_at_exec(i);
        assert(DisplayNumber::members()[i as int] == f);
        let ghost before = out;
        match i {
            0 => {
                out.value = match decode_required::<i32>(es, f) {
                    Ok(x) => x,
                    Err(e) => return Err(e),
                };
            },
            1 => {
                out.display_value = match decode_member::<String>(es, f) {
                    Ok(x) => x,
                    Err(e) => return Err(e),
                };
            },
            2 => {
                out.reading = match decode_member::<String>(es, f) {
                    Ok(x) => x,
                    Err(e) => return Err(e),
                };
            },
            _ => {},
        }
        assert forall|j: int| 0 <= j < i + 1 implies #[trigger] out.member_decodes(es@, display_number_member_at(j)) by {
            if j < i {
                lemma_display_number_member_index(j);
                lemma_display_number_member_index(i as int);
                assert(before.member_decodes(es@, display_number_member_at(j)));
            }
        }
        i = i + 1;
    }
    assert forall|f: Field| DisplayNumber::members().contains(f) implies #[trigger] out.member_decodes(es@, f) by {
        let j = choose|j: int| 0 <= j < 3 && DisplayNumber::members()[j] == f;
    }
    Ok(out)
}

proof fn lemma_display_number_contains(f: Field)
    ensures
        DisplayNumber::members().contains(f) ==> display_number_member_index(f) < 3,
{
    if DisplayNumber::members().contains(f) {
        let i = choose|i: int| 0 <= i < 3 && DisplayNumber::members()[i] == f;
        lemma_display_number_member_index(i);
    }
}

/// Encodes the members of a `DisplayNumber`, in canonical order.
fn encode_display_number_members(x: &DisplayNumber, es: &mut Vec<(String, JsonValue)>)
    requires
        old(es)@.len() == 0,
    ensures
        encodes_members(*x, final(es)@),
{
    let mut i: usize = 0;
    while i < 3
        invariant
            i <= 3,
            encodes_members_prefix(*x, es@, DisplayNumber::members(), i as int),
        decreases 3 - i,
    {
        let f = display_number_member_at_exec(i);
        assert(DisplayNumber::members()[i as int] == f);
        proof { lemma_present_step(*x, DisplayNumber::members(), i as int); }
        let ghost before = es@;
        match i {
            0 => push_required(es, f, &x.value),
            1 => push_member(es, f, &x.display_value),
            2 => push_member(es, f, &x.reading),
            _ => {},
        }
        proof { lemma_prefix_extend(*x, before, es@, DisplayNumber::members(), i as int); }
        i = i + 1;
    }
    proof { lemma_prefix_complete(*x, es@, DisplayNumber::members()); }
}

impl Wire for DisplayNumber {
    open spec fn decodes_to(v: JsonValue, out: DisplayNumber) -> bool {
        v matches JsonValue::Object(es) && decodes_members(out, es@)
    }

    open spec fn decode_failure(v: JsonValue, field: Field) -> Option<Failure> {
        match v {
            JsonValue::Object(es) => failure_from::<DisplayNumber>(es@, DisplayNumber::members(), 0),
            _ => Some(shape_failure(Shape::Object, v)),
        }
    }

    open spec fn encodes_to(self, v: JsonValue) -> bool {
        v matches JsonValue::Object(es) && encodes_members(self, es@)
    }

    open spec fn well_formed(self) -> bool {
        true
    }

    fn decode(v: &JsonValue, field: Field) -> (r: Result<DisplayNumber, DecodeError>) {
        match v {
            JsonValue::Object(es) => decode_display_number_members(es),
            _ => Err(DecodeError::here(ErrorKind::InvalidShape { expected: Shape::Object, actual: v.shape() })),
        }
    }

    fn encode(&self) -> (r: JsonValue) {
        let mut es: Vec<(String, JsonValue)> = Vec::new();
        encode_display_number_members(self, &mut es);
        JsonValue::Object(es)
    }

    proof fn lemma_round_trip(self, v: JsonValue, field: Field) {
        lemma_display_number_names_distinct();
        let es = v->Object_0@;
        lemma_encoded_lookups(self, es);
        lemma_members_round_trip(self, es);
    }
}

/// A frequency that applies to one reading of a term.
#[derive(Clone, Debug, PartialEq)]
pub struct ReadingFrequency {
    pub reading: String,
    pub frequency: FrequencyData,
}

impl ReadingFrequency {
    /// A value with every optional member absent.
    pub fn blank() -> (r: ReadingFrequency) {
        ReadingFrequency {
            reading: String::new(),
            frequency: FrequencyData::Number(0),
        }
    }
}

/// The member at position `i` of the canonical order of `ReadingFrequency`.
pub open spec fn reading_frequency_member_at(i: int) -> Field {
    if i == 0 {
        Field::Member(Key::Reading)
    } else if i == 1 {
        Field::Member(Key::Frequency)
    } else {
        Field::Member(Key::Reading)
    }
}

/// The position of `f` in the canonical order of `ReadingFrequency`.
pub open spec fn reading_frequency_member_index(f: Field) -> int {
    match f {
        Field::Member(Key::Reading) => 0,
        Field::Member(Key::Frequency) => 1,
        _ => 2,
    }
}

fn reading_frequency_member_at_exec(i: usize) -> (r: Field)
    ensures
        r == reading_frequency_member_at(i as int),
{
    match i {
        0 => Field::Member(Key::Reading),
        1 => Field::Member(Key::Frequency),
        _ => Field::Member(Key::Reading),
    }
}

proof fn lemma_reading_frequency_member_index(i: int)
    requires
        0 <= i < 2,
    ensures
        reading_frequency_member_index(reading_frequency_member_at(i)) == i,
{
}

impl Members for ReadingFrequency {
    open spec fn members() -> Seq<Field> {
        Seq::new(2, |i: int| reading_frequency_member_at(i))
    }

    open spec fn has(self, f: Field) -> bool {
        match f {
            Field::Member(Key::Reading) => true,
            Field::Member(Key::Frequency) => true,
            _ => false,
        }
    }

    open spec fn member_encodes(self, f: Field, v: JsonValue) -> bool {
        match f {
            Field::Member(Key::Reading) => self.reading.encodes_to(v),
            Field::Member(Key::Frequency) => self.frequency.encodes_to(v),
            _ => false,
        }
    }

    open spec fn member_decodes(self, es: Seq<(String, JsonValue)>, f: Field) -> bool {
        match f {
            Field::Member(Key::Reading) => required_decodes_to(es, f, self.reading),
            Field::Member(Key::Frequency) => required_decodes_to(es, f, self.frequency),
            _ => true,
        }
    }

    open spec fn member_failure(es: Seq<(String, JsonValue)>, f: Field) -> Option<Failure> {
        match f {
            Field::Member(Key::Reading) => required_failure::<String>(es, f),
            Field::Member(Key::Frequency) => required_failure::<FrequencyData>(es, f),
            _ => None,
        }
    }

    proof fn lemma_member_round_trip(self, es: Seq<(String, JsonValue)>, f: Field) {
        if self.has(f) {
            let j = choose|j: int| 0 <= j < es.len() && find_key(es, f.spec_name()) == Some(j) && self.member_encodes(f, #[trigger] es[j].1);
            match f {
                Field::Member(Key::Reading) => self.reading.lemma_round_trip(es[j].1, f),
                Field::Member(Key::Frequency) => self.frequency.lemma_round_trip(es[j].1, f),
                _ => {},
            }
        }
    }
}

/// No two members of `ReadingFrequency` are spelled alike.
pub proof fn lemma_reading_frequency_names_distinct()
    ensures
        distinct_names(ReadingFrequency::members()),
{
    let m = ReadingFrequency::members();
    assert forall|i: int, j: int| 0 <= i < j < m.len() implies (#[trigger] m[i]).spec_name() != (#[trigger] m[j]).spec_name() by {
        lemma_reading_frequency_member_index(i);
        lemma_reading_frequency_member_index(j);
        lemma_field_names_injective(m[i], m[j]);
    }
}

/// Decodes the members of a `ReadingFrequency` from the members `es` of an object.
fn decode_reading_frequency_members(es: &Vec<(String, JsonValue)>) -> (r: Result<ReadingFrequency, DecodeError>)
    ensures
        match r {
            Ok(x) => failure_from::<ReadingFrequency>(es@, ReadingFrequency::members(), 0) is None && decodes_members(x, es@),
            Err(e) => failure_from::<ReadingFrequency>(es@, ReadingFrequency::members(), 0) == Some(e@),
        },
{
    let mut out = ReadingFrequency::blank();
    let mut i: usize = 0;
    while i < 2
        invariant
            i <= 2,
            failure_from::<ReadingFrequency>(es@, ReadingFrequency::members(), 0) == failure_from::<ReadingFrequency>(es@, ReadingFrequency::members(), i as int),
            forall|j: int| 0 <= j < i ==> #[trigger] out.member_decodes(es@, reading_frequency_member_at(j)),
        decreases 2 - i,
    {
        let f = reading_frequency_member_at_exec(i);
        assert(ReadingFrequency::members()[i as int] == f);
        let ghost before = out;
        match i {
            0 => {
                out.reading = match decode_required::<String>(es, f) {
                    Ok(x) => x,
                    Err(e) => return Err(e),
                };
            },
            1 => {
                out.frequency = match decode_required::<FrequencyData>(es, f) {
                    Ok(x) => x,
                    Err(e) => return Err(e),
                };
            },
            _ => {},
        }
        assert forall|j: int| 0 <= j < i + 1 implies #[trigger] out.member_decodes(es@, reading_frequency_member_at(j)) by {
            if j < i {
                lemma_reading_frequency_member_index(j);
                lemma_reading_frequency_member_index(i as int);
                assert(before.member_decodes(es@, reading_frequency_member_at(j)));
            }
        }
        i = i + 1;
    }
    assert forall|f: Field| ReadingFrequency::members().contains(f) implies #[trigger] out.member_decodes(es@, f) by {
        let j = choose|j: int| 0 <= j < 2 && ReadingFrequency::members()[j] == f;
    }
    Ok(out)
}

/// Encodes the members of a `ReadingFrequency`, in canonical order.
fn encode_reading_frequency_members(x: &ReadingFrequency, es: &mut Vec<(String, JsonValue)>)
    requires
        old(es)@.len() == 0,
    ensures
        encodes_members(*x, final(es)@),
{
    let mut i: usize = 0;
    while i < 2
        invariant
            i <= 2,
            encodes_members_prefix(*x, es@, ReadingFrequency::members(), i as int),
        decreases 2 - i,
    {
        let f = reading_frequency_member_at_exec(i);
        assert(ReadingFrequency::members()[i as int] == f);
        proof { lemma_present_step(*x, ReadingFrequency::members(), i as int); }
        let ghost before = es@;
        match i {
            0 => push_required(es, f, &x.reading),
            1 => push_required(es, f, &x.frequency),
            _ => {},
        }
        proof { lemma_prefix_extend(*x, before, es@, ReadingFrequency::members(), i as int); }
        i = i + 1;
    }
    proof { lemma_prefix_complete(*x, es@, ReadingFrequency::members()); }
}

impl Wire for ReadingFrequency {
    open spec fn decodes_to(v: JsonValue, out: ReadingFrequency) -> bool {
        v matches JsonValue::Object(es) && decodes_members(out, es@)
    }

    open spec fn decode_failure(v: JsonValue, field: Field) -> Option<Failure> {
        match v {
            JsonValue::Object(es) => failure_from::<ReadingFrequency>(es@, ReadingFrequency::members(), 0),
            _ => Some(shape_failure(Shape::Object, v)),
        }
    }

    open spec fn encodes_to(self, v: JsonValue) -> bool {
        v matches JsonValue::Object(es) && encodes_members(self, es@)
    }

    open spec fn well_formed(self) -> bool {
        true
    }

    fn decode(v: &JsonValue, field: Field) -> (r: Result<ReadingFrequency, DecodeError>) {
        match v {
            JsonValue::Object(es) => decode_reading_frequency_members(es),
            _ => Err(DecodeError::here(ErrorKind::InvalidShape { expected: Shape::Object, actual: v.shape() })),
        }
    }

    fn encode(&self) -> (r: JsonValue) {
        let mut es: Vec<(String, JsonValue)> = Vec::new();
        encode_reading_frequency_members(self, &mut es);
        JsonValue::Object(es)
    }

    proof fn lemma_round_trip(self, v: JsonValue, field: Field) {
        lemma_reading_frequency_names_distinct();
        let es = v->Object_0@;
        lemma_encoded_lookups(self, es);
        lemma_members_round_trip(self, es);
    }
}

/// One pitch-accent pattern of a reading.
#[derive(Clone, Debug, PartialEq)]
pub struct PitchData {
    pub position: i32,
    pub nasal: Option<NumOrArray>,
    pub devoice: Option<NumOrArray>,
    pub tags: Option<Vec<String>>,
}

impl PitchData {
    /// A value with every optional member absent.
    pub fn blank() -> (r: PitchData) {
        PitchData {
            position: 0,
            nasal: None,
            devoice: None,
            tags: None,
        }
    }
}

/// The member at position `i` of the canonical order of `PitchData`.
pub open spec fn pitch_data_member_at(i: int) -> Field {
    if i == 0 {
        Field::Member(Key::Position)
    } else if i == 1 {
        Field::Member(Key::Nasal)
    } else if i == 2 {
        Field::Member(Key::Devoice)
    } else if i == 3 {
        Field::Member(Key::Tags)
    } else {
        Field::Member(Key::Position)
    }
}

/// The position of `f` in the canonical order of `PitchData`.
pub open spec fn pitch_data_member_index(f: Field) -> int {
    match f {
        Field::Member(Key::Position) => 0,
        Field::Member(Key::Nasal) => 1,
        Field::Member(Key::Devoice) => 2,
        Field::Member(Key::Tags) => 3,
        _ => 4,
    }
}

fn pitch_data_member_at_exec(i: usize) -> (r: Field)
    ensures
        r == pitch_data_member_at(i as int),
{
    match i {
        0 => Field::Member(Key::Position),
        1 => Field::Member(Key::Nasal),
        2 => Field::Member(Key::Devoice),
        3 => Field::Member(Key::Tags),
        _ => Field::Member(Key::Position),
    }
}

proof fn lemma_pitch_data_member_index(i: int)
    requires
        0 <= i < 4,
    ensures
        pitch_data_member_index(pitch_data_member_at(i)) == i,
{
}

impl Members for PitchData {
    open spec fn members() -> Seq<Field> {
        Seq::new(4, |i: int| pitch_data_member_at(i))
    }

    open spec fn has(self, f: Field) -> bool {
        match f {
            Field::Member(Key::Position) => true,
            Field::Member(Key::Nasal) => self.nasal is Some,
            Field::Member(Key::Devoice) => self.devoice is Some,
            Field::Member(Key::Tags) => self.tags is Some,
            _ => false,
        }
    }

    open spec fn member_encodes(self, f: Field, v: JsonValue) -> bool {
        match f {
            Field::Member(Key::Position) => self.position.encodes_to(v),
            Field::Member(Key::Nasal) => self.nasal matches Some(x) && x.encodes_to(v),
            Field::Member(Key::Devoice) => self.devoice matches Some(x) && x.encodes_to(v),
            Field::Member(Key::Tags) => self.tags matches Some(x) && x.encodes_to(v),
            _ => false,
        }
    }

    open spec fn member_decodes(self, es: Seq<(String, JsonValue)>, f: Field) -> bool {
        match f {
            Field::Member(Key::Position) => required_decodes_to(es, f, self.position),
            Field::Member(Key::Nasal) => member_decodes_to(es, f, self.nasal),
            Field::Member(Key::Devoice) => member_decodes_to(es, f, self.devoice),
            Field::Member(Key::Tags) => member_decodes_to(es, f, self.tags),
            _ => true,
        }
    }

    open spec fn member_failure(es: Seq<(String, JsonValue)>, f: Field) -> Option<Failure> {
        match f {
            Field::Member(Key::Position) => required_failure::<i32>(es, f),
            Field::Member(Key::Nasal) => member_failure::<NumOrArray>(es, f),
            Field::Member(Key::Devoice) => member_failure::<NumOrArray>(es, f),
            Field::Member(Key::Tags) => member_failure::<Vec<String>>(es, f),
            _ => None,
        }
    }

    proof fn lemma_member_round_trip(self, es: Seq<(String, JsonValue)>, f: Field) {
        if self.has(f) {
            let j = choose|j: int| 0 <= j < es.len() && find_key(es, f.spec_name()) == Some(j) && self.member_encodes(f, #[trigger] es[j].1);
            match f {
                Field::Member(Key::Position) => self.position.lemma_round_trip(es[j].1, f),
                Field::Member(Key::Nasal) => self.nasal.unwrap().lemma_round_trip(es[j].1, f),
                Field::Member(Key::Devoice) => self.devoice.unwrap().lemma_round_trip(es[j].1, f),
                Field::Member(Key::Tags) => self.tags.unwrap().lemma_round_trip(es[j].1, f),
                _ => {},
            }
        }
    }
}

/// No two members of `PitchData` are spelled alike.
pub proof fn lemma_pitch_data_names_distinct()
    ensures
        distinct_names(PitchData::members()),
{
    let m = PitchData::members();
    assert forall|i: int, j: int| 0 <= i < j < m.len() implies (#[trigger] m[i]).spec_name() != (#[trigger] m[j]).spec_name() by {
        lemma_pitch_data_member_index(i);
        lemma_pitch_data_member_index(j);
        lemma_field_names_injective(m[i], m[j]);
    }
}

/// Decodes the members of a `PitchData` from the members `es` of an object.
fn decode_pitch_data_members(es: &Vec<(String, JsonValue)>) -> (r: Result<PitchData, DecodeError>)
    ensures
        match r {
            Ok(x) => failure_from::<PitchData>(es@, PitchData::members(), 0) is None && decodes_members(x, es@),
            Err(e) => failure_from::<PitchData>(es@, PitchData::members(), 0) == Some(e@),
        },
{
    let mut out = PitchData::blank();
    let mut i: usize = 0;
    while i < 4
        invariant
            i <= 4,
            failure_from::<PitchData>(es@, PitchData::members(), 0) == failure_from::<PitchData>(es@, PitchData::members(), i as int),
            forall|j: int| 0 <= j < i ==> #[trigger] out.member_decodes(es@, pitch_data_member_at(j)),
        decreases 4 - i,
    {
        let f = pitch_data_member_at_exec(i);
        assert(PitchData::members()[i as int] == f);
        let ghost before = out;
        match i {
            0 => {
                out.position = match decode_required::<i32>(es, f) {
                    Ok(x) => x,
                    Err(e) => return Err(e),
                };
            },
            1 => {
                out.nasal = match decode_member::<NumOrArray>(es, f) {
                    Ok(x) => x,
                    Err(e) => return Err(e),
                };
            },
            2 => {
                out.devoice = match decode_member::<NumOrArray>(es, f) {
                    Ok(x) => x,
                    Err(e) => return Err(e),
                };
            },
            3 => {
                out.tags = match decode_member::<Vec<String>>(es, f) {
                    Ok(x) => x,
                    Err(e) => return Err(e),
                };
            },
            _ => {},
        }
        assert forall|j: int| 0 <= j < i + 1 implies #[trigger] out.member_decodes(es@, pitch_data_member_at(j)) by {
            if j < i {
                lemma_pitch_data_member_index(j);
                lemma_pitch_data_member_index(i as int);
                assert(before.member_decodes(es@, pitch_data_member_at(j)));
            }
        }
        i = i + 1;
    }
    assert forall|f: Field| PitchData::members().contains(f) implies #[trigger] out.member_decodes(es@, f) by {
        let j = choose|j: int| 0 <= j < 4 && PitchData::members()[j] == f;
    }
    Ok(out)
}

/// Encodes the members of a `PitchData`, in canonical order.
fn encode_pitch_data_members(x: &PitchData, es: &mut Vec<(String, JsonValue)>)
    requires
        old(es)@.len() == 0,
    ensures
        encodes_members(*x, final(es)@),
{
    let mut i: usize = 0;
    while i < 4
        invariant
            i <= 4,
            encodes_members_prefix(*x, es@, PitchData::members(), i as int),
        decreases 4 - i,
    {
        let f = pitch_data_member_at_exec(i);
        assert(PitchData::members()[i as int] == f);
        proof { lemma_present_step(*x, PitchData::members(), i as int); }
        let ghost before = es@;
        match i {
            0 => push_required(es, f, &x.position),
            1 => push_member(es, f, &x.nasal),
            2 => push_member(es, f, &x.devoice),
            3 => push_member(es, f, &x.tags),
            _ => {},
        }
        proof { lemma_prefix_extend(*x, before, es@, PitchData::members(), i as int); }
        i = i + 1;
    }
    proof { lemma_prefix_complete(*x, es@, PitchData::members()); }
}

impl Wire for PitchData {
    open spec fn decodes_to(v: JsonValue, out: PitchData) -> bool {
        v matches JsonValue::Object(es) && decodes_members(out, es@)
    }

    open spec fn decode_failure(v: JsonValue, field: Field) -> Option<Failure> {
        match v {
            JsonValue::Object(es) => failure_from::<PitchData>(es@, PitchData::members(), 0),
            _ => Some(shape_failure(Shape::Object, v)),
        }
    }

    open spec fn encodes_to(self, v: JsonValue) -> bool {
        v matches JsonValue::Object(es) && encodes_members(self, es@)
    }

    open spec fn well_formed(self) -> bool {
        true
    }

    fn decode(v: &JsonValue, field: Field) -> (r: Result<PitchData, DecodeError>) {
        match v {
            JsonValue::Object(es) => decode_pitch_data_members(es),
            _ => Err(DecodeError::here(ErrorKind::InvalidShape { expected: Shape::Object, actual: v.shape() })),
        }
    }

    fn encode(&self) -> (r: JsonValue) {
        let mut es: Vec<(String, JsonValue)> = Vec::new();
        encode_pitch_data_members(self, &mut es);
        JsonValue::Object(es)
    }

    proof fn lemma_round_trip(self, v: JsonValue, field: Field) {
        lemma_pitch_data_names_distinct();
        let es = v->Object_0@;
        lemma_encoded_lookups(self, es);
        lemma_members_round_trip(self, es);
    }
}

/// The pitch-accent patterns of one reading.
#[derive(Clone, Debug, PartialEq)]
pub struct TermMetaPitchData {
    pub reading: String,
    pub pitches: Vec<PitchData>,
}

impl TermMetaPitchData {
    /// A value with every optional member absent.
    pub fn blank() -> (r: TermMetaPitchData) {
        TermMetaPitchData {
            reading: String::new(),
            pitches: Vec::new(),
        }
    }
}

/// The member at position `i` of the canonical order of `TermMetaPitchData`.
pub open spec fn term_meta_pitch_data_member_at(i: int) -> Field {
    if i == 0 {
        Field::Member(Key::Reading)
    } else if i == 1 {
        Field::Member(Key::Pitches)
    } else {
        Field::Member(Key::Reading)
    }
}

/// The position of `f` in the canonical order of `TermMetaPitchData`.
pub open spec fn term_meta_pitch_data_member_index(f: Field) -> int {
    match f {
        Field::Member(Key::Reading) => 0,
        Field::Member(Key::Pitches) => 1,
        _ => 2,
    }
}

fn term_meta_pitch_data_member_at_exec(i: usize) -> (r: Field)
    ensures
        r == term_meta_pitch_data_member_at(i as int),
{
    match i {
        0 => Field::Member(Key::Reading),
        1 => Field::Member(Key::Pitches),
        _ => Field::Member(Key::Reading),
    }
}

proof fn lemma_term_meta_pitch_data_member_index(i: int)
    requires
        0 <= i < 2,
    ensures
        term_meta_pitch_data_member_index(term_meta_pitch_data_member_at(i)) == i,
{
}

impl Members for TermMetaPitchData {
    open spec fn members() -> Seq<Field> {
        Seq::new(2, |i: int| term_meta_pitch_data_member_at(i))
    }

    open spec fn has(self, f: Field) -> bool {
        match f {
            Field::Member(Key::Reading) => true,
            Field::Member(Key::Pitches) => true,
            _ => false,
        }
    }

    open spec fn member_encodes(self, f: Field, v: JsonValue) -> bool {
        match f {
            Field::Member(Key::Reading) => self.reading.encodes_to(v),
            Field::Member(Key::Pitches) => self.pitches.encodes_to(v),
            _ => false,
        }
    }

    open spec fn member_decodes(self, es: Seq<(String, JsonValue)>, f: Field) -> bool {
        match f {
            Field::Member(Key::Reading) => required_decodes_to(es, f, self.reading),
            Field::Member(Key::Pitches) => required_decodes_to(es, f, self.pitches),
            _ => true,
        }
    }

    open spec fn member_failure(es: Seq<(String, JsonValue)>, f: Field) -> Option<Failure> {
        match f {
            Field::Member(Key::Reading) => required_failure::<String>(es, f),
            Field::Member(Key::Pitches) => required_failure::<Vec<PitchData>>(es, f),
            _ => None,
        }
    }

    proof fn lemma_member_round_trip(self, es: Seq<(String, JsonValue)>, f: Field) {
        if self.has(f) {
            let j = choose|j: int| 0 <= j < es.len() && find_key(es, f.spec_name()) == Some(j) && self.member_encodes(f, #[trigger] es[j].1);
            match f {
                Field::Member(Key::Reading) => self.reading.lemma_round_trip(es[j].1, f),
                Field::Member(Key::Pitches) => self.pitches.lemma_round_trip(es[j].1, f),
                _ => {},
            }
        }
    }
}

/// No two members of `TermMetaPitchData` are spelled alike.
pub proof fn lemma_term_meta_pitch_data_names_distinct()
    ensures
        distinct_names(TermMetaPitchData::members()),
{
    let m = TermMetaPitchData::members();
    assert forall|i: int, j: int| 0 <= i < j < m.len() implies (#[trigger] m[i]).spec_name() != (#[trigger] m[j]).spec_name() by {
        lemma_term_meta_pitch_data_member_index(i);
        lemma_term_meta_pitch_data_member_index(j);
        lemma_field_names_injective(m[i], m[j]);
    }
}

/// Decodes the members of a `TermMetaPitchData` from the members `es` of an object.
fn decode_term_meta_pitch_data_members(es: &Vec<(String, JsonValue)>) -> (r: Result<TermMetaPitchData, DecodeError>)
    ensures
        match r {
            Ok(x) => failure_from::<TermMetaPitchData>(es@, TermMetaPitchData::members(), 0) is None && decodes_members(x, es@),
            Err(e) => failure_from::<TermMetaPitchData>(es@, TermMetaPitchData::members(), 0) == Some(e@),
        },
{
    let mut out = TermMetaPitchData::blank();
    let mut i: usize = 0;
    while i < 2
        invariant
            i <= 2,
            failure_from::<TermMetaPitchData>(es@, TermMetaPitchData::members(), 0) == failure_from::<TermMetaPitchData>(es@, TermMetaPitchData::members(), i as int),
            forall|j: int| 0 <= j < i ==> #[trigger] out.member_decodes(es@, term_meta_pitch_data_member_at(j)),
        decreases 2 - i,
    {
        let f = term_meta_pitch_data_member_at_exec(i);
        assert(TermMetaPitchData::members()[i as int] == f);
        let ghost before = out;
        match i {
            0 => {
                out.reading = match decode_required::<String>(es, f) {
                    Ok(x) => x,
                    Err(e) => return Err(e),
                };
            },
            1 => {
                out.pitches = match decode_required::<Vec<PitchData>>(es, f) {
                    Ok(x) => x,
                    Err(e) => return Err(e),
                };
            },
            _ => {},
        }
        assert forall|j: int| 0 <= j < i + 1 implies #[trigger] out.member_decodes(es@, term_meta_pitch_data_member_at(j)) by {
            if j < i {
                lemma_term_meta_pitch_data_member_index(j);
                lemma_term_meta_pitch_data_member_index(i as int);
                assert(before.member_decodes(es@, term_meta_pitch_data_member_at(j)));
            }
        }
        i = i + 1;
    }
    assert forall|f: Field| TermMetaPitchData::members().contains(f) implies #[trigger] out.member_decodes(es@, f) by {
        let j = choose|j: int| 0 <= j < 2 && TermMetaPitchData::members()[j] == f;
    }
    Ok(out)
}

/// Encodes the members of a `TermMetaPitchData`, in canonical order.
fn encode_term_meta_pitch_data_members(x: &TermMetaPitchData, es: &mut Vec<(String, JsonValue)>)
    requires
        old(es)@.len() == 0,
    ensures
        encodes_members(*x, final(es)@),
{
    let mut i: usize = 0;
    while i < 2
        invariant
            i <= 2,
            encodes_members_prefix(*x, es@, TermMetaPitchData::members(), i as int),
        decreases 2 - i,
    {
        let f = term_meta_pitch_data_member_at_exec(i);
        assert(TermMetaPitchData::members()[i as int] == f);
        proof { lemma_present_step(*x, TermMetaPitchData::members(), i as int); }
        let ghost before = es@;
        match i {
            0 => push_required(es, f, &x.reading),
            1 => push_required(es, f, &x.pitches),
            _ => {},
        }
        proof { lemma_prefix_extend(*x, before, es@, TermMetaPitchData::members(), i as int); }
        i = i + 1;
    }
    proof { lemma_prefix_complete(*x, es@, TermMetaPitchData::members()); }
}

impl Wire for TermMetaPitchData {
    open spec fn decodes_to(v: JsonValue, out: TermMetaPitchData) -> bool {
        v matches JsonValue::Object(es) && decodes_members(out, es@)
    }

    open spec fn decode_failure(v: JsonValue, field: Field) -> Option<Failure> {
        match v {
            JsonValue::Object(es) => failure_from::<TermMetaPitchData>(es@, TermMetaPitchData::members(), 0),
            _ => Some(shape_failure(Shape::Object, v)),
        }
    }

    open spec fn encodes_to(self, v: JsonValue) -> bool {
        v matches JsonValue::Object(es) && encodes_members(self, es@)
    }

    open spec fn well_formed(self) -> bool {
        true
    }

    fn decode(v: &JsonValue, field: Field) -> (r: Result<TermMetaPitchData, DecodeError>) {
        match v {
            JsonValue::Object(es) => decode_term_meta_pitch_data_members(es),
            _ => Err(DecodeError::here(ErrorKind::InvalidShape { expected: Shape::Object, actual: v.shape() })),
        }
    }

    fn encode(&self) -> (r: JsonValue) {
        let mut es: Vec<(String, JsonValue)> = Vec::new();
        encode_term_meta_pitch_data_members(self, &mut es);
        JsonValue::Object(es)
    }

    proof fn lemma_round_trip(self, v: JsonValue, field: Field) {
        lemma_term_meta_pitch_data_names_distinct();
        let es = v->Object_0@;
        lemma_encoded_lookups(self, es);
        lemma_members_round_trip(self, es);
    }
}

/// One phonetic transcription.
#[derive(Clone, Debug, PartialEq)]
pub struct Transcription {
    pub ipa: String,
    pub tags: Option<Vec<String>>,
}

impl Transcription {
    /// A value with every optional member absent.
    pub fn blank() -> (r: Transcription) {
        Transcription {
            ipa: String::new(),
            tags: None,
        }
    }
}

/// The member at position `i` of the canonical order of `Transcription`.
pub open spec fn transcription_member_at(i: int) -> Field {
    if i == 0 {
        Field::Member(Key::Ipa)
    } else if i == 1 {
        Field::Member(Key::Tags)
    } else {
        Field::Member(Key::Ipa)
    }
}

/// The position of `f` in the canonical order of `Transcription`.
pub open spec fn transcription_member_index(f: Field) -> int {
    match f {
        Field::Member(Key::Ipa) => 0,
        Field::Member(Key::Tags) => 1,
        _ => 2,
    }
}

fn transcription_member_at_exec(i: usize) -> (r: Field)
    ensures
        r == transcription_member_at(i as int),
{
    match i {
        0 => Field::Member(Key::Ipa),
        1 => Field::Member(Key::Tags),
        _ => Field::Member(Key::Ipa),
    }
}

proof fn lemma_transcription_member_index(i: int)
    requires
        0 <= i < 2,
    ensures
        transcription_member_index(transcription_member_at(i)) == i,
{
}

impl Members for Transcription {
    open spec fn members() -> Seq<Field> {
        Seq::new(2, |i: int| transcription_member_at(i))
    }

    open spec fn has(self, f: Field) -> bool {
        match f {
            Field::Member(Key::Ipa) => true,
            Field::Member(Key::Tags) => self.tags is Some,
            _ => false,
        }
    }

    open spec fn member_encodes(self, f: Field, v: JsonValue) -> bool {
        match f {
            Field::Member(Key::Ipa) => self.ipa.encodes_to(v),
            Field::Member(Key::Tags) => self.tags matches Some(x) && x.encodes_to(v),
            _ => false,
        }
    }

    open spec fn member_decodes(self, es: Seq<(String, JsonValue)>, f: Field) -> bool {
        match f {
            Field::Member(Key::Ipa) => required_decodes_to(es, f, self.ipa),
            Field::Member(Key::Tags) => member_decodes_to(es, f, self.tags),
            _ => true,
        }
    }

    open spec fn member_failure(es: Seq<(String, JsonValue)>, f: Field) -> Option<Failure> {
        match f {
            Field::Member(Key::Ipa) => required_failure::<String>(es, f),
            Field::Member(Key::Tags) => member_failure::<Vec<String>>(es, f),
            _ => None,
        }
    }

    proof fn lemma_member_round_trip(self, es: Seq<(String, JsonValue)>, f: Field) {
        if self.has(f) {
            let j = choose|j: int| 0 <= j < es.len() && find_key(es, f.spec_name()) == Some(j) && self.member_encodes(f, #[trigger] es[j].1);
            match f {
                Field::Member(Key::Ipa) => self.ipa.lemma_round_trip(es[j].1, f),
                Field::Member(Key::Tags) => self.tags.unwrap().lemma_round_trip(es[j].1, f),
                _ => {},
            }
        }
    }
}

/// No two members of `Transcription` are spelled alike.
pub proof fn lemma_transcription_names_distinct()
    ensures
        distinct_names(Transcription::members()),
{
    let m = Transcription::members();
    assert forall|i: int, j: int| 0 <= i < j < m.len() implies (#[trigger] m[i]).spec_name() != (#[trigger] m[j]).spec_name() by {
        lemma_transcription_member_index(i);
        lemma_transcription_member_index(j);
        lemma_field_names_injective(m[i], m[j]);
    }
}

/// Decodes the members of a `Transcription` from the members `es` of an object.
fn decode_transcription_members(es: &Vec<(String, JsonValue)>) -> (r: Result<Transcription, DecodeError>)
    ensures
        match r {
            Ok(x) => failure_from::<Transcription>(es@, Transcription::members(), 0) is None && decodes_members(x, es@),
            Err(e) => failure_from::<Transcription>(es@, Transcription::members(), 0) == Some(e@),
        },
{
    let mut out = Transcription::blank();
    let mut i: usize = 0;
    while i < 2
        invariant
            i <= 2,
            failure_from::<Transcription>(es@, Transcription::members(), 0) == failure_from::<Transcription>(es@, Transcription::members(), i as int),
            forall|j: int| 0 <= j < i ==> #[trigger] out.member_decodes(es@, transcription_member_at(j)),
        decreases 2 - i,
    {
        let f = transcription_member_at_exec(i);
        assert(Transcription::members()[i as int] == f);
        let ghost before = out;
        match i {
            0 => {
                out.ipa = match decode_required::<String>(es, f) {
                    Ok(x) => x,
                    Err(e) => return Err(e),
                };
            },
            1 => {
                out.tags = match decode_member::<Vec<String>>(es, f) {
                    Ok(x) => x,
                    Err(e) => return Err(e),
                };
            },
            _ => {},
        }
        assert forall|j: int| 0 <= j < i + 1 implies #[trigger] out.member_decodes(es@, transcription_member_at(j)) by {
            if j < i {
                lemma_transcription_member_index(j);
                lemma_transcription_member_index(i as int);
                assert(before.member_decodes(es@, transcription_member_at(j)));
            }
        }
        i = i + 1;
    }
    assert forall|f: Field| Transcription::members().contains(f) implies #[trigger] out.member_decodes(es@, f) by {
        let j = choose|j: int| 0 <= j < 2 && Transcription::members()[j] == f;
    }
    Ok(out)
}

/// Encodes the members of a `Transcription`, in canonical order.
fn encode_transcription_members(x: &Transcription, es: &mut Vec<(String, JsonValue)>)
    requires
        old(es)@.len() == 0,
    ensures
        encodes_members(*x, final(es)@),
{
    let mut i: usize = 0;
    while i < 2
        invariant
            i <= 2,
            encodes_members_prefix(*x, es@, Transcription::members(), i as int),
        decreases 2 - i,
    {
        let f = transcription_member_at_exec(i);
        assert(Transcription::members()[i as int] == f);
        proof { lemma_present_step(*x, Transcription::members(), i as int); }
        let ghost before = es@;
        match i {
            0 => push_required(es, f, &x.ipa),
            1 => push_member(es, f, &x.tags),
            _ => {},
        }
        proof { lemma_prefix_extend(*x, before, es@, Transcription::members(), i as int); }
        i = i + 1;
    }
    proof { lemma_prefix_complete(*x, es@, Transcription::members()); }
}

impl Wire for Transcription {
    open spec fn decodes_to(v: JsonValue, out: Transcription) -> bool {
        v matches JsonValue::Object(es) && decodes_members(out, es@)
    }

    open spec fn decode_failure(v: JsonValue, field: Field) -> Option<Failure> {
        match v {
            JsonValue::Object(es) => failure_from::<Transcription>(es@, Transcription::members(), 0),
            _ => Some(shape_failure(Shape::Object, v)),
        }
    }

    open spec fn encodes_to(self, v: JsonValue) -> bool {
        v matches JsonValue::Object(es) && encodes_members(self, es@)
    }

    open spec fn well_formed(self) -> bool {
        true
    }

    fn decode(v: &JsonValue, field: Field) -> (r: Result<Transcription, DecodeError>) {
        match v {
            JsonValue::Object(es) => decode_transcription_members(es),
            _ => Err(DecodeError::here(ErrorKind::InvalidShape { expected: Shape::Object, actual: v.shape() })),
        }
    }

    fn encode(&self) -> (r: JsonValue) {
        let mut es: Vec<(String, JsonValue)> = Vec::new();
        encode_transcription_members(self, &mut es);
        JsonValue::Object(es)
    }

    proof fn lemma_round_trip(self, v: JsonValue, field: Field) {
        lemma_transcription_names_distinct();
        let es = v->Object_0@;
        lemma_encoded_lookups(self, es);
        lemma_members_round_trip(self, es);
    }
}

/// The phonetic transcriptions of one reading.
#[derive(Clone, Debug, PartialEq)]
pub struct TermMetaPhoneticData {
    pub reading: String,
    pub transcriptions: Vec<Transcription>,
}

impl TermMetaPhoneticData {
    /// A value with every optional member absent.
    pub fn blank() -> (r: TermMetaPhoneticData) {
        TermMetaPhoneticData {
            reading: String::new(),
            transcriptions: Vec::new(),
        }
    }
}

/// The member at position `i` of the canonical order of `TermMetaPhoneticData`.
pub open spec fn term_meta_phonetic_data_member_at(i: int) -> Field {
    if i == 0 {
        Field::Member(Key::Reading)
    } else if i == 1 {
        Field::Member(Key::Transcriptions)
    } else {
        Field::Member(Key::Reading)
    }
}

/// The position of `f` in the canonical order of `TermMetaPhoneticData`.
pub open spec fn term_meta_phonetic_data_member_index(f: Field) -> int {
    match f {
        Field::Member(Key::Reading) => 0,
        Field::Member(Key::Transcriptions) => 1,
        _ => 2,
    }
}

fn term_meta_phonetic_data_member_at_exec(i: usize) -> (r: Field)
    ensures
        r == term_meta_phonetic_data_member_at(i as int),
{
    match i {
        0 => Field::Member(Key::Reading),
        1 => Field::Member(Key::Transcriptions),
        _ => Field::Member(Key::Reading),
    }
}

proof fn lemma_term_meta_phonetic_data_member_index(i: int)
    requires
        0 <= i < 2,
    ensures
        term_meta_phonetic_data_member_index(term_meta_phonetic_data_member_at(i)) == i,
{
}

impl Members for TermMetaPhoneticData {
    open spec fn members() -> Seq<Field> {
        Seq::new(2, |i: int| term_meta_phonetic_data_member_at(i))
    }

    open spec fn has(self, f: Field) -> bool {
        match f {
            Field::Member(Key::Reading) => true,
            Field::Member(Key::Transcriptions) => true,
            _ => false,
        }
    }

    open spec fn member_encodes(self, f: Field, v: JsonValue) -> bool {
        match f {
            Field::Member(Key::Reading) => self.reading.encodes_to(v),
            Field::Member(Key::Transcriptions) => self.transcriptions.encodes_to(v),
            _ => false,
        }
    }

    open spec fn member_decodes(self, es: Seq<(String, JsonValue)>, f: Field) -> bool {
        match f {
            Field::Member(Key::Reading) => required_decodes_to(es, f, self.reading),
            Field::Member(Key::Transcriptions) => required_decodes_to(es, f, self.transcriptions),
            _ => true,
        }
    }

    open spec fn member_failure(es: Seq<(String, JsonValue)>, f: Field) -> Option<Failure> {
        match f {
            Field::Member(Key::Reading) => required_failure::<String>(es, f),
            Field::Member(Key::Transcriptions) => required_failure::<Vec<Transcription>>(es, f),
            _ => None,
        }
    }

    proof fn lemma_member_round_trip(self, es: Seq<(String, JsonValue)>, f: Field) {
        if self.has(f) {
            let j = choose|j: int| 0 <= j < es.len() && find_key(es, f.spec_name()) == Some(j) && self.member_encodes(f, #[trigger] es[j].1);
            match f {
                Field::Member(Key::Reading) => self.reading.lemma_round_trip(es[j].1, f),
                Field::Member(Key::Transcriptions) => self.transcriptions.lemma_round_trip(es[j].1, f),
                _ => {},
            }
        }
    }
}

/// No two members of `TermMetaPhoneticData` are spelled alike.
pub proof fn lemma_term_meta_phonetic_data_names_distinct()
    ensures
        distinct_names(TermMetaPhoneticData::members()),
{
    let m = TermMetaPhoneticData::members();
    assert forall|i: int, j: int| 0 <= i < j < m.len() implies (#[trigger] m[i]).spec_name() != (#[trigger] m[j]).spec_name() by {
        lemma_term_meta_phonetic_data_member_index(i);
        lemma_term_meta_phonetic_data_member_index(j);
        lemma_field_names_injective(m[i], m[j]);
    }
}

/// Decodes the members of a `TermMetaPhoneticData` from the members `es` of an object.
fn decode_term_meta_phonetic_data_members(es: &Vec<(String, JsonValue)>) -> (r: Result<TermMetaPhoneticData, DecodeError>)
    ensures
        match r {
            Ok(x) => failure_from::<TermMetaPhoneticData>(es@, TermMetaPhoneticData::members(), 0) is None && decodes_members(x, es@),
            Err(e) => failure_from::<TermMetaPhoneticData>(es@, TermMetaPhoneticData::members(), 0) == Some(e@),
        },
{
    let mut out = TermMetaPhoneticData::blank();
    let mut i: usize = 0;
    while i < 2
        invariant
            i <= 2,
            failure_from::<TermMetaPhoneticData>(es@, TermMetaPhoneticData::members(), 0) == failure_from::<TermMetaPhoneticData>(es@, TermMetaPhoneticData::members(), i as int),
            forall|j: int| 0 <= j < i ==> #[trigger] out.member_decodes(es@, term_meta_phonetic_data_member_at(j)),
        decreases 2 - i,
    {
        let f = term_meta_phonetic_data_member_at_exec(i);
        assert(TermMetaPhoneticData::members()[i as int] == f);
        let ghost before = out;
        match i {
            0 => {
                out.reading = match decode_required::<String>(es, f) {
                    Ok(x) => x,
                    Err(e) => return Err(e),
                };
            },
            1 => {
                out.transcriptions = match decode_required::<Vec<Transcription>>(es, f) {
                    Ok(x) => x,
                    Err(e) => return Err(e),
                };
            },
            _ => {},
        }
        assert forall|j: int| 0 <= j < i + 1 implies #[trigger] out.member_decodes(es@, term_meta_phonetic_data_member_at(j)) by {
            if j < i {
                lemma_term_meta_phonetic_data_member_index(j);
                lemma_term_meta_phonetic_data_member_index(i as int);
                assert(before.member_decodes(es@, term_meta_phonetic_data_member_at(j)));
            }
        }
        i = i + 1;
    }
    assert forall|f: Field| TermMetaPhoneticData::members().contains(f) implies #[trigger] out.member_decodes(es@, f) by {
        let j = choose|j: int| 0 <= j < 2 && TermMetaPhoneticData::members()[j] == f;
    }
    Ok(out)
}

/// Encodes the members of a `TermMetaPhoneticData`, in canonical order.
fn encode_term_meta_phonetic_data_members(x: &TermMetaPhoneticData, es: &mut Vec<(String, JsonValue)>)
    requires
        old(es)@.len() == 0,
    ensures
        encodes_members(*x, final(es)@),
{
    let mut i: usize = 0;
    while i < 2
        invariant
            i <= 2,
            encodes_members_prefix(*x, es@, TermMetaPhoneticData::members(), i as int),
        decreases 2 - i,
    {
        let f = term_meta_phonetic_data_member_at_exec(i);
        assert(TermMetaPhoneticData::members()[i as int] == f);
        proof { lemma_present_step(*x, TermMetaPhoneticData::members(), i as int); }
        let ghost before = es@;
        match i {
            0 => push_required(es, f, &x.reading),
            1 => push_required(es, f, &x.transcriptions),
            _ => {},
        }
        proof { lemma_prefix_extend(*x, before, es@, TermMetaPhoneticData::members(), i as int); }
        i = i + 1;
    }
    proof { lemma_prefix_complete(*x, es@, TermMetaPhoneticData::members()); }
}

impl Wire for TermMetaPhoneticData {
    open spec fn decodes_to(v: JsonValue, out: TermMetaPhoneticData) -> bool {
        v matches JsonValue::Object(es) && decodes_members(out, es@)
    }

    open spec fn decode_failure(v: JsonValue, field: Field) -> Option<Failure> {
        match v {
            JsonValue::Object(es) => failure_from::<TermMetaPhoneticData>(es@, TermMetaPhoneticData::members(), 0),
            _ => Some(shape_failure(Shape::Object, v)),
        }
    }

    open spec fn encodes_to(self, v: JsonValue) -> bool {
        v matches JsonValue::Object(es) && encodes_members(self, es@)
    }

    open spec fn well_formed(self) -> bool {
        true
    }

    fn decode(v: &JsonValue, field: Field) -> (r: Result<TermMetaPhoneticData, DecodeError>) {
        match v {
            JsonValue::Object(es) => decode_term_meta_phonetic_data_members(es),
            _ => Err(DecodeError::here(ErrorKind::InvalidShape { expected: Shape::Object, actual: v.shape() })),
        }
    }

    fn encode(&self) -> (r: JsonValue) {
        let mut es: Vec<(String, JsonValue)> = Vec::new();
        encode_term_meta_phonetic_data_members(self, &mut es);
        JsonValue::Object(es)
    }

    proof fn lemma_round_trip(self, v: JsonValue, field: Field) {
        lemma_term_meta_phonetic_data_names_distinct();
        let es = v->Object_0@;
        lemma_encoded_lookups(self, es);
        lemma_members_round_trip(self, es);
    }
}

impl Wire for FrequencyData {
    open spec fn decodes_to(v: JsonValue, out: FrequencyData) -> bool {
        match out {
            FrequencyData::Text(s) => v == JsonValue::Text(s),
            FrequencyData::Number(n) => i32::decodes_to(v, n),
            FrequencyData::DisplayNumber(d) => DisplayNumber::decodes_to(v, d),
        }
    }

    open spec fn decode_failure(v: JsonValue, field: Field) -> Option<Failure> {
        match v {
            JsonValue::Text(_) => None,
            JsonValue::Integer(_) => i32::decode_failure(v, field),
            JsonValue::Object(_) => DisplayNumber::decode_failure(v, field),
            _ => Some(shape_failure(Shape::Frequency, v)),
        }
    }

    open spec fn encodes_to(self, v: JsonValue) -> bool {
        match self {
            FrequencyData::Text(s) => v == JsonValue::Text(s),
            FrequencyData::Number(n) => n.encodes_to(v),
            FrequencyData::DisplayNumber(d) => d.encodes_to(v),
        }
    }

    open spec fn well_formed(self) -> bool {
        true
    }

    fn decode(v: &JsonValue, field: Field) -> (r: Result<FrequencyData, DecodeError>) {
        match v {
            JsonValue::Text(s) => Ok(FrequencyData::Text(s.clone())),
            JsonValue::Integer(_) => match i32::decode(v, field) {
                Ok(n) => Ok(FrequencyData::Number(n)),
                Err(e) => Err(e),
            },
            JsonValue::Object(_) => match DisplayNumber::decode(v, field) {
                Ok(d) => Ok(FrequencyData::DisplayNumber(d)),
                Err(e) => Err(e),
            },
            _ => Err(DecodeError::here(ErrorKind::InvalidShape { expected: Shape::Frequency, actual: v.shape() })),
        }
    }

    fn encode(&self) -> (r: JsonValue) {
        match self {
            FrequencyData::Text(s) => JsonValue::Text(s.clone()),
            FrequencyData::Number(n) => n.encode(),
            FrequencyData::DisplayNumber(d) => d.encode(),
        }
    }

    proof fn lemma_round_trip(self, v: JsonValue, field: Field) {
        match self {
            FrequencyData::Text(_) => {},
            FrequencyData::Number(n) => n.lemma_round_trip(v, field),
            FrequencyData::DisplayNumber(d) => d.lemma_round_trip(v, field),
        }
    }
}

impl Wire for NumOrArray {
    open spec fn decodes_to(v: JsonValue, out: NumOrArray) -> bool {
        match out {
            NumOrArray::Number(n) => i32::decodes_to(v, n),
            NumOrArray::Array(ns) => Vec::<i32>::decodes_to(v, ns),
        }
    }

    open spec fn decode_failure(v: JsonValue, field: Field) -> Option<Failure> {
        match v {
            JsonValue::Integer(_) => i32::decode_failure(v, field),
            JsonValue::Array(_) => Vec::<i32>::decode_failure(v, field),
            _ => Some(shape_failure(Shape::NumberOrArray, v)),
        }
    }

    open spec fn encodes_to(self, v: JsonValue) -> bool {
        match self {
            NumOrArray::Number(n) => n.encodes_to(v),
            NumOrArray::Array(ns) => ns.encodes_to(v),
        }
    }

    open spec fn well_formed(self) -> bool {
        true
    }

    fn decode(v: &JsonValue, field: Field) -> (r: Result<NumOrArray, DecodeError>) {
        match v {
            JsonValue::Integer(_) => match i32::decode(v, field) {
                Ok(n) => Ok(NumOrArray::Number(n)),
                Err(e) => Err(e),
            },
            JsonValue::Array(_) => match Vec::<i32>::decode(v, field) {
                Ok(ns) => Ok(NumOrArray::Array(ns)),
                Err(e) => Err(e),
            },
            _ => Err(DecodeError::here(ErrorKind::InvalidShape { expected: Shape::NumberOrArray, actual: v.shape() })),
        }
    }

    fn encode(&self) -> (r: JsonValue) {
        match self {
            NumOrArray::Number(n) => n.encode(),
            NumOrArray::Array(ns) => ns.encode(),
        }
    }

    proof fn lemma_round_trip(self, v: JsonValue, field: Field) {
        match self {
            NumOrArray::Number(n) => n.lemma_round_trip(v, field),
            NumOrArray::Array(ns) => {
                assert(ns.well_formed());
                ns.lemma_round_trip(v, field);
            },
        }
    }
}

/// `v` is an object with a `frequency` member: a frequency for one reading.
pub open spec fn has_frequency_member(v: JsonValue) -> bool {
    v matches JsonValue::Object(es) && find_key(es@, Key::Frequency.spec_name()) is Some
}

/// The members of a display number are not spelled `frequency`.
proof fn lemma_display_number_no_frequency(d: DisplayNumber, v: JsonValue)
    requires
        d.encodes_to(v),
    ensures
        !has_frequency_member(v),
{
    let es = v->Object_0@;
    lemma_display_number_names_distinct();
    lemma_encoded_lookups(d, es);
    let p = crate::members::present_in(d, DisplayNumber::members());
    crate::members::lemma_present_in(d, DisplayNumber::members());
    assert forall|a: int| 0 <= a < es.len() implies (#[trigger] es[a]).0@ != Key::Frequency.spec_name() by {
        let f = p[a];
        lemma_display_number_contains(f);
        lemma_field_names_injective(f, Field::Member(Key::Frequency));
    }
    crate::members::lemma_find_key_absent(es, Key::Frequency.spec_name());
}

impl Wire for TermMetaFrequencyData {
    open spec fn decodes_to(v: JsonValue, out: TermMetaFrequencyData) -> bool {
        match out {
            TermMetaFrequencyData::Generic(f) => !has_frequency_member(v) && FrequencyData::decodes_to(v, f),
            TermMetaFrequencyData::WithReading(r) => has_frequency_member(v) && ReadingFrequency::decodes_to(v, r),
        }
    }

    open spec fn decode_failure(v: JsonValue, field: Field) -> Option<Failure> {
        if has_frequency_member(v) {
            ReadingFrequency::decode_failure(v, field)
        } else {
            FrequencyData::decode_failure(v, field)
        }
    }

    open spec fn encodes_to(self, v: JsonValue) -> bool {
        match self {
            TermMetaFrequencyData::Generic(f) => f.encodes_to(v),
            TermMetaFrequencyData::WithReading(r) => r.encodes_to(v),
        }
    }

    open spec fn well_formed(self) -> bool {
        true
    }

    fn decode(v: &JsonValue, field: Field) -> (r: Result<TermMetaFrequencyData, DecodeError>) {
        let with_reading = match v {
            JsonValue::Object(es) => find_member(es, Key::Frequency.name()).is_some(),
            _ => false,
        };
        if with_reading {
            match ReadingFrequency::decode(v, field) {
                Ok(r) => Ok(TermMetaFrequencyData::WithReading(r)),
                Err(e) => Err(e),
            }
        } else {
            match FrequencyData::decode(v, field) {
                Ok(f) => Ok(TermMetaFrequencyData::Generic(f)),
                Err(e) => Err(e),
            }
        }
    }

    fn encode(&self) -> (r: JsonValue) {
        match self {
            TermMetaFrequencyData::Generic(f) => f.encode(),
            TermMetaFrequencyData::WithReading(r) => r.encode(),
        }
    }

    proof fn lemma_round_trip(self, v: JsonValue, field: Field) {
        match self {
            TermMetaFrequencyData::Generic(f) => {
                f.lemma_round_trip(v, field);
                if let FrequencyData::DisplayNumber(d) = f {
                    lemma_display_number_no_frequency(d, v);
                }
            },
            TermMetaFrequencyData::WithReading(r) => {
                r.lemma_round_trip(v, field);
                let es = v->Object_0@;
                lemma_reading_frequency_names_distinct();
                lemma_encoded_lookups(r, es);
                assert(ReadingFrequency::members()[1] == Field::Member(Key::Frequency));
                assert(ReadingFrequency::members().contains(Field::Member(Key::Frequency)));
            },
        }
    }
}

/// A frequency record of a term.
#[derive(Debug)]
pub struct TermMetaFrequency {
    pub expression: String,
    pub mode: String,
    pub data: TermMetaFrequencyData,
}

/// A pitch-accent record of a term.
#[derive(Debug)]
pub struct TermMetaPitch {
    pub expression: String,
    pub mode: String,
    pub data: TermMetaPitchData,
}

/// A phonetic-transcription record of a term.
#[derive(Debug)]
pub struct TermMetaPhonetic {
    pub expression: String,
    pub mode: String,
    pub data: TermMetaPhoneticData,
}

/// One record of a term meta bank; the mode decides which.
#[derive(Debug)]
pub enum TermMeta {
    Frequency(TermMetaFrequency),
    Pitch(TermMetaPitch),
    Phonetic(TermMetaPhonetic),
}

/// One record of a kanji meta bank, whose mode is always `freq`.
#[derive(Debug)]
pub struct KanjiMetaData {
    pub character: String,
    pub mode: String,
    pub data: FrequencyData,
}

/// The failure of an unknown mode, at position 1 of a record.
pub open spec fn mode_failure(s: String) -> Failure {
    failure_below(Segment::Index(1), failure_here(ErrorKind::UnknownVariant(Field::Member(Key::Mode), s)))
}

/// Why the first two positions of a meta record, an expression and a mode,
/// do not decode; where `kanji` holds, `freq` is the only mode.
pub open spec fn head_failure(vs: Seq<JsonValue>, kanji: bool) -> Option<Failure> {
    match vs[0] {
        JsonValue::Text(_) => match vs[1] {
            JsonValue::Text(s) => match MetaMode::spec_from_name(s@) {
                Some(m) => if kanji && m != MetaMode::Freq {
                    Some(mode_failure(s))
                } else {
                    None
                },
                None => Some(mode_failure(s)),
            },
            _ => at_position(1, Some(shape_failure(Shape::Text, vs[1]))),
        },
        _ => at_position(0, Some(shape_failure(Shape::Text, vs[0]))),
    }
}

/// The mode named at position 1 of a meta record.
pub open spec fn mode_at(vs: Seq<JsonValue>) -> Option<MetaMode> {
    match vs[1] {
        JsonValue::Text(s) => MetaMode::spec_from_name(s@),
        _ => None,
    }
}

/// Decodes the expression and mode of a meta record.
fn decode_head(vs: &Vec<JsonValue>, kanji: bool) -> (r: Result<(String, String, MetaMode), DecodeError>)
    requires
        vs@.len() == 3,
    ensures
        match r {
            Ok((e, m, mode)) => head_failure(vs@, kanji) is None && vs@[0] == JsonValue::Text(e)
                && vs@[1] == JsonValue::Text(m) && mode_at(vs@) == Some(mode),
            Err(x) => head_failure(vs@, kanji) == Some(x@),
        },
{
    let expression = match &vs[0] {
        JsonValue::Text(s) => s.clone(),
        other => {
            let e = DecodeError::here(ErrorKind::InvalidShape { expected: Shape::Text, actual: other.shape() });
            return Err(e.below(Segment::Index(0)));
        },
    };
    let mode = match &vs[1] {
        JsonValue::Text(s) => s.clone(),
        other => {
            let e = DecodeError::here(ErrorKind::InvalidShape { expected: Shape::Text, actual: other.shape() });
            return Err(e.below(Segment::Index(1)));
        },
    };
    let kind = match MetaMode::from_name(mode.as_str()) {
        Some(k) => k,
        None => {
            let e = DecodeError::here(ErrorKind::UnknownVariant(Field::Member(Key::Mode), mode.clone()));
            return Err(e.below(Segment::Index(1)));
        },
    };
    if kanji && kind != MetaMode::Freq {
        let e = DecodeError::here(ErrorKind::UnknownVariant(Field::Member(Key::Mode), mode.clone()));
        return Err(e.below(Segment::Index(1)));
    }
    Ok((expression, mode, kind))
}

impl Wire for TermMeta {
    open spec fn decodes_to(v: JsonValue, out: TermMeta) -> bool {
        &&& v matches JsonValue::Array(vs)
        &&& v->Array_0@.len() == 3
        &&& match out {
            TermMeta::Frequency(x) => v->Array_0@[0] == JsonValue::Text(x.expression) && v->Array_0@[1] == JsonValue::Text(x.mode)
                && mode_at(v->Array_0@) == Some(MetaMode::Freq) && TermMetaFrequencyData::decodes_to(v->Array_0@[2], x.data),
            TermMeta::Pitch(x) => v->Array_0@[0] == JsonValue::Text(x.expression) && v->Array_0@[1] == JsonValue::Text(x.mode)
                && mode_at(v->Array_0@) == Some(MetaMode::Pitch) && TermMetaPitchData::decodes_to(v->Array_0@[2], x.data),
            TermMeta::Phonetic(x) => v->Array_0@[0] == JsonValue::Text(x.expression) && v->Array_0@[1] == JsonValue::Text(x.mode)
                && mode_at(v->Array_0@) == Some(MetaMode::Ipa) && TermMetaPhoneticData::decodes_to(v->Array_0@[2], x.data),
        }
    }

    open spec fn decode_failure(v: JsonValue, field: Field) -> Option<Failure> {
        match v {
            JsonValue::Array(vs) => if vs@.len() != 3 {
                Some(failure_here(ErrorKind::InvalidArity { expected: 3, actual: vs@.len() as usize }))
            } else {
                match head_failure(vs@, false) {
                    Some(f) => Some(f),
                    None => match mode_at(vs@) {
                        Some(MetaMode::Freq) => at_position(2, TermMetaFrequencyData::decode_failure(vs@[2], position_field())),
                        Some(MetaMode::Pitch) => at_position(2, TermMetaPitchData::decode_failure(vs@[2], position_field())),
                        _ => at_position(2, TermMetaPhoneticData::decode_failure(vs@[2], position_field())),
                    },
                }
            },
            _ => Some(shape_failure(Shape::Array, v)),
        }
    }

    open spec fn encodes_to(self, v: JsonValue) -> bool {
        &&& v matches JsonValue::Array(vs)
        &&& v->Array_0@.len() == 3
        &&& match self {
            TermMeta::Frequency(x) => v->Array_0@[0] == JsonValue::Text(x.expression) && v->Array_0@[1] == JsonValue::Text(x.mode)
                && x.data.encodes_to(v->Array_0@[2]),
            TermMeta::Pitch(x) => v->Array_0@[0] == JsonValue::Text(x.expression) && v->Array_0@[1] == JsonValue::Text(x.mode)
                && x.data.encodes_to(v->Array_0@[2]),
            TermMeta::Phonetic(x) => v->Array_0@[0] == JsonValue::Text(x.expression) && v->Array_0@[1] == JsonValue::Text(x.mode)
                && x.data.encodes_to(v->Array_0@[2]),
        }
    }

    /// The recorded mode names the kind of record.
    open spec fn well_formed(self) -> bool {
        match self {
            TermMeta::Frequency(x) => MetaMode::spec_from_name(x.mode@) == Some(MetaMode::Freq),
            TermMeta::Pitch(x) => MetaMode::spec_from_name(x.mode@) == Some(MetaMode::Pitch),
            TermMeta::Phonetic(x) => MetaMode::spec_from_name(x.mode@) == Some(MetaMode::Ipa),
        }
    }

    fn decode(v: &JsonValue, field: Field) -> (r: Result<TermMeta, DecodeError>) {
        let vs = match v {
            JsonValue::Array(vs) => vs,
            _ => return Err(DecodeError::here(ErrorKind::InvalidShape { expected: Shape::Array, actual: v.shape() })),
        };
        if vs.len() != 3 {
            return Err(DecodeError::here(ErrorKind::InvalidArity { expected: 3, actual: vs.len() }));
        }
        let (expression, mode, kind) = decode_head(vs, false)?;
        match kind {
            MetaMode::Freq => match TermMetaFrequencyData::decode(&vs[2], Field::Member(Key::Value)) {
                Ok(data) => Ok(TermMeta::Frequency(TermMetaFrequency { expression, mode, data })),
                Err(e) => Err(e.below(Segment::Index(2))),
            },
            MetaMode::Pitch => match TermMetaPitchData::decode(&vs[2], Field::Member(Key::Value)) {
                Ok(data) => Ok(TermMeta::Pitch(TermMetaPitch { expression, mode, data })),
                Err(e) => Err(e.below(Segment::Index(2))),
            },
            MetaMode::Ipa => match TermMetaPhoneticData::decode(&vs[2], Field::Member(Key::Value)) {
                Ok(data) => Ok(TermMeta::Phonetic(TermMetaPhonetic { expression, mode, data })),
                Err(e) => Err(e.below(Segment::Index(2))),
            },
        }
    }

    fn encode(&self) -> (r: JsonValue) {
        let mut vs: Vec<JsonValue> = Vec::new();
        match self {
            TermMeta::Frequency(x) => {
                vs.push(JsonValue::Text(x.expression.clone()));
                vs.push(JsonValue::Text(x.mode.clone()));
                vs.push(x.data.encode());
            },
            TermMeta::Pitch(x) => {
                vs.push(JsonValue::Text(x.expression.clone()));
                vs.push(JsonValue::Text(x.mode.clone()));
                vs.push(x.data.encode());
            },
            TermMeta::Phonetic(x) => {
                vs.push(JsonValue::Text(x.expression.clone()));
                vs.push(JsonValue::Text(x.mode.clone()));
                vs.push(x.data.encode());
            },
        }
        JsonValue::Array(vs)
    }

    proof fn lemma_round_trip(self, v: JsonValue, field: Field) {
        let vs = v->Array_0@;
        match self {
            TermMeta::Frequency(x) => x.data.lemma_round_trip(vs[2], position_field()),
            TermMeta::Pitch(x) => x.data.lemma_round_trip(vs[2], position_field()),
            TermMeta::Phonetic(x) => x.data.lemma_round_trip(vs[2], position_field()),
        }
    }
}

impl Wire for KanjiMetaData {
    open spec fn decodes_to(v: JsonValue, out: KanjiMetaData) -> bool {
        &&& v matches JsonValue::Array(vs)
        &&& v->Array_0@.len() == 3
        &&& v->Array_0@[0] == JsonValue::Text(out.character)
        &&& v->Array_0@[1] == JsonValue::Text(out.mode)
        &&& mode_at(v->Array_0@) == Some(MetaMode::Freq)
        &&& FrequencyData::decodes_to(v->Array_0@[2], out.data)
    }

    open spec fn decode_failure(v: JsonValue, field: Field) -> Option<Failure> {
        match v {
            JsonValue::Array(vs) => if vs@.len() != 3 {
                Some(failure_here(ErrorKind::InvalidArity { expected: 3, actual: vs@.len() as usize }))
            } else {
                match head_failure(vs@, true) {
                    Some(f) => Some(f),
                    None => at_position(2, FrequencyData::decode_failure(vs@[2], position_field())),
                }
            },
            _ => Some(shape_failure(Shape::Array, v)),
        }
    }

    open spec fn encodes_to(self, v: JsonValue) -> bool {
        &&& v matches JsonValue::Array(vs)
        &&& v->Array_0@.len() == 3
        &&& v->Array_0@[0] == JsonValue::Text(self.character)
        &&& v->Array_0@[1] == JsonValue::Text(self.mode)
        &&& self.data.encodes_to(v->Array_0@[2])
    }

    /// The recorded mode is `freq`.
    open spec fn well_formed(self) -> bool {
        MetaMode::spec_from_name(self.mode@) == Some(MetaMode::Freq)
    }

    fn decode(v: &JsonValue, field: Field) -> (r: Result<KanjiMetaData, DecodeError>) {
        let vs = match v {
            JsonValue::Array(vs) => vs,
            _ => return Err(DecodeError::here(ErrorKind::InvalidShape { expected: Shape::Array, actual: v.shape() })),
        };
        if vs.len() != 3 {
            return Err(DecodeError::here(ErrorKind::InvalidArity { expected: 3, actual: vs.len() }));
        }
        let (character, mode, _kind) = decode_head(vs, true)?;
        match FrequencyData::decode(&vs[2], Field::Member(Key::Value)) {
            Ok(data) => Ok(KanjiMetaData { character, mode, data }),
            Err(e) => Err(e.below(Segment::Index(2))),
        }
    }

    fn encode(&self) -> (r: JsonValue) {
        let mut vs: Vec<JsonValue> = Vec::new();
        vs.push(JsonValue::Text(self.character.clone()));
        vs.push(JsonValue::Text(self.mode.clone()));
        vs.push(self.data.encode());
        JsonValue::Array(vs)
    }

    proof fn lemma_round_trip(self, v: JsonValue, field: Field) {
        self.data.lemma_round_trip(v->Array_0@[2], position_field());
    }
}

/// A term meta bank: an array of term meta records.
pub type DictionaryTermMetaBankV3 = Vec<TermMeta>;

/// A kanji meta bank: an array of kanji meta records.
pub type DictionaryKanjiMetaBankV3 = Vec<KanjiMetaData>;

/// Decodes a term meta bank; the first record that fails fails the bank.
pub fn decode_term_meta_bank(v: &JsonValue) -> (r: Result<DictionaryTermMetaBankV3, DecodeError>)
    ensures
        match r {
            Ok(b) => Vec::<TermMeta>::decode_failure(*v, position_field()) is None && Vec::<TermMeta>::decodes_to(*v, b),
            Err(e) => Vec::<TermMeta>::decode_failure(*v, position_field()) == Some(e@),
        },
{
    Vec::<TermMeta>::decode(v, Field::Member(Key::Value))
}

/// Decodes a kanji meta bank.
pub fn decode_kanji_meta_bank(v: &JsonValue) -> (r: Result<DictionaryKanjiMetaBankV3, DecodeError>)
    ensures
        match r {
            Ok(b) => Vec::<KanjiMetaData>::decode_failure(*v, position_field()) is None && Vec::<KanjiMetaData>::decodes_to(*v, b),
            Err(e) => Vec::<KanjiMetaData>::decode_failure(*v, position_field()) == Some(e@),
        },
{
    Vec::<KanjiMetaData>::decode(v, Field::Member(Key::Value))
}

} // verus!

