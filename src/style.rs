//! The style of styleable elements: a flat bag of optional properties, and
//! the closed value sets of its enumerated properties.

use vstd::prelude::*;
use crate::error::{DecodeError, ErrorKind, Failure, Field, failure_here, lemma_field_names_injective};
use crate::json::{JsonValue, Shape, find_key, shape_of};
use crate::keys::StyleKey;
use crate::members::{Members, decodes_members, distinct_names, encodes_members, encodes_members_prefix, failure_from, lemma_encoded_lookups, lemma_members_round_trip, lemma_prefix_complete, lemma_prefix_extend, lemma_present_step};
use crate::text::{owned, str_equal};
use crate::wire::{Wire, decode_member, member_decodes_to, member_failure, push_member, shape_failure};
use crate::error::{Segment, failure_below};

verus! {

/// The slant of a font.
#[derive(Clone, Copy, Debug, PartialEq, Eq, Structural)]
pub enum FontStyle {
    Normal,
    Italic,
}

impl FontStyle {
    /// The spelling of this value on the wire.
    pub open spec fn spec_name(self) -> Seq<char> {
        match self {
            FontStyle::Normal => "normal"@,
            FontStyle::Italic => "italic"@,
        }
    }

    /// The value spelled `s`, if any.
    pub open spec fn spec_from_name(s: Seq<char>) -> Option<FontStyle> {
        if s == "normal"@ {
            Some(FontStyle::Normal)
        } else if s == "italic"@ {
            Some(FontStyle::Italic)
        } else {
            None
        }
    }

    /// The spelling of this value on the wire.
    pub fn name(self) -> (r: &'static str)
        ensures
            r@ == self.spec_name(),
    {
        match self {
            FontStyle::Normal => "normal",
            FontStyle::Italic => "italic",
        }
    }

    /// The value spelled `s`, if any.
    pub fn from_name(s: &str) -> (r: Option<FontStyle>)
        ensures
            r == Self::spec_from_name(s@),
    {
        if str_equal(s, "normal") {
            Some(FontStyle::Normal)
        } else if str_equal(s, "italic") {
            Some(FontStyle::Italic)
        } else {
            None
        }
    }

    /// Reading back the spelling of a value gives that value.
    pub proof fn lemma_name_round_trip(self)
        ensures
            Self::spec_from_name(self.spec_name()) == Some(self),
    {
        reveal_strlit("normal");
        assert("normal"@.len() == 6 && "normal"@[0] == 'n' && "normal"@[1] == 'o' && "normal"@[2] == 'r' && "normal"@[3] == 'm' && "normal"@[4] == 'a' && "normal"@[5] == 'l');
        reveal_strlit("italic");
        assert("italic"@.len() == 6 && "italic"@[0] == 'i' && "italic"@[1] == 't' && "italic"@[2] == 'a' && "italic"@[3] == 'l' && "italic"@[4] == 'i' && "italic"@[5] == 'c');
    }
}

impl Wire for FontStyle {
    open spec fn decodes_to(v: JsonValue, out: FontStyle) -> bool {
        v matches JsonValue::Text(s) && FontStyle::spec_from_name(s@) == Some(out)
    }

    open spec fn decode_failure(v: JsonValue, field: Field) -> Option<Failure> {
        match v {
            JsonValue::Text(s) => if FontStyle::spec_from_name(s@) is Some {
                None
            } else {
                Some(failure_here(ErrorKind::InvalidValue(field, s)))
            },
            _ => Some(shape_failure(Shape::Text, v)),
        }
    }

    open spec fn encodes_to(self, v: JsonValue) -> bool {
        v matches JsonValue::Text(s) && s@ == self.spec_name()
    }

    open spec fn well_formed(self) -> bool {
        true
    }

    fn decode(v: &JsonValue, field: Field) -> (r: Result<FontStyle, DecodeError>) {
        match v {
            JsonValue::Text(s) => match FontStyle::from_name(s.as_str()) {
                Some(x) => Ok(x),
                None => Err(DecodeError::here(ErrorKind::InvalidValue(field, s.clone()))),
            },
            _ => Err(DecodeError::here(ErrorKind::InvalidShape { expected: Shape::Text, actual: v.shape() })),
        }
    }

    fn encode(&self) -> (r: JsonValue) {
        JsonValue::Text(owned(self.name()))
    }

    proof fn lemma_round_trip(self, v: JsonValue, field: Field) {
        self.lemma_name_round_trip();
    }
}

/// The weight of a font.
#[derive(Clone, Copy, Debug, PartialEq, Eq, Structural)]
pub enum FontWeight {
    Normal,
    Bold,
}

impl FontWeight {
    /// The spelling of this value on the wire.
    pub open spec fn spec_name(self) -> Seq<char> {
        match self {
            FontWeight::Normal => "normal"@,
            FontWeight::Bold => "bold"@,
        }
    }

    /// The value spelled `s`, if any.
    pub open spec fn spec_from_name(s: Seq<char>) -> Option<FontWeight> {
        if s == "normal"@ {
            Some(FontWeight::Normal)
        } else if s == "bold"@ {
            Some(FontWeight::Bold)
        } else {
            None
        }
    }

    /// The spelling of this value on the wire.
    pub fn name(self) -> (r: &'static str)
        ensures
            r@ == self.spec_name(),
    {
        match self {
            FontWeight::Normal => "normal",
            FontWeight::Bold => "bold",
        }
    }

    /// The value spelled `s`, if any.
    pub fn from_name(s: &str) -> (r: Option<FontWeight>)
        ensures
            r == Self::spec_from_name(s@),
    {
        if str_equal(s, "normal") {
            Some(FontWeight::Normal)
        } else if str_equal(s, "bold") {
            Some(FontWeight::Bold)
        } else {
            None
        }
    }

    /// Reading back the spelling of a value gives that value.
    pub proof fn lemma_name_round_trip(self)
        ensures
            Self::spec_from_name(self.spec_name()) == Some(self),
    {
        reveal_strlit("normal");
        assert("normal"@.len() == 6 && "normal"@[0] == 'n' && "normal"@[1] == 'o' && "normal"@[2] == 'r' && "normal"@[3] == 'm' && "normal"@[4] == 'a' && "normal"@[5] == 'l');
        reveal_strlit("bold");
        assert("bold"@.len() == 4 && "bold"@[0] == 'b' && "bold"@[1] == 'o' && "bold"@[2] == 'l' && "bold"@[3] == 'd');
    }
}

impl Wire for FontWeight {
    open spec fn decodes_to(v: JsonValue, out: FontWeight) -> bool {
        v matches JsonValue::Text(s) && FontWeight::spec_from_name(s@) == Some(out)
    }

    open spec fn decode_failure(v: JsonValue, field: Field) -> Option<Failure> {
        match v {
            JsonValue::Text(s) => if FontWeight::spec_from_name(s@) is Some {
                None
            } else {
                Some(failure_here(ErrorKind::InvalidValue(field, s)))
            },
            _ => Some(shape_failure(Shape::Text, v)),
        }
    }

    open spec fn encodes_to(self, v: JsonValue) -> bool {
        v matches JsonValue::Text(s) && s@ == self.spec_name()
    }

    open spec fn well_formed(self) -> bool {
        true
    }

    fn decode(v: &JsonValue, field: Field) -> (r: Result<FontWeight, DecodeError>) {
        match v {
            JsonValue::Text(s) => match FontWeight::from_name(s.as_str()) {
                Some(x) => Ok(x),
                None => Err(DecodeError::here(ErrorKind::InvalidValue(field, s.clone()))),
            },
            _ => Err(DecodeError::here(ErrorKind::InvalidShape { expected: Shape::Text, actual: v.shape() })),
        }
    }

    fn encode(&self) -> (r: JsonValue) {
        JsonValue::Text(owned(self.name()))
    }

    proof fn lemma_round_trip(self, v: JsonValue, field: Field) {
        self.lemma_name_round_trip();
    }
}

/// One kind of line drawn over text.
#[derive(Clone, Copy, Debug, PartialEq, Eq, Structural)]
pub enum DecorationLine {
    NoLine,
    Underline,
    Overline,
    LineThrough,
}

impl DecorationLine {
    /// The spelling of this value on the wire.
    pub open spec fn spec_name(self) -> Seq<char> {
        match self {
            DecorationLine::NoLine => "none"@,
            DecorationLine::Underline => "underline"@,
            DecorationLine::Overline => "overline"@,
            DecorationLine::LineThrough => "line-through"@,
        }
    }

    /// The value spelled `s`, if any.
    pub open spec fn spec_from_name(s: Seq<char>) -> Option<DecorationLine> {
        if s == "none"@ {
            Some(DecorationLine::NoLine)
        } else if s == "underline"@ {
            Some(DecorationLine::Underline)
        } else if s == "overline"@ {
            Some(DecorationLine::Overline)
        } else if s == "line-through"@ {
            Some(DecorationLine::LineThrough)
        } else {
            None
        }
    }

    /// The spelling of this value on the wire.
    pub fn name(self) -> (r: &'static str)
        ensures
            r@ == self.spec_name(),
    {
        match self {
            DecorationLine::NoLine => "none",
            DecorationLine::Underline => "underline",
            DecorationLine::Overline => "overline",
            DecorationLine::LineThrough => "line-through",
        }
    }

    /// The value spelled `s`, if any.
    pub fn from_name(s: &str) -> (r: Option<DecorationLine>)
        ensures
            r == Self::spec_from_name(s@),
    {
        if str_equal(s, "none") {
            Some(DecorationLine::NoLine)
        } else if str_equal(s, "underline") {
            Some(DecorationLine::Underline)
        } else if str_equal(s, "overline") {
            Some(DecorationLine::Overline)
        } else if str_equal(s, "line-through") {
            Some(DecorationLine::LineThrough)
        } else {
            None
        }
    }

    /// Reading back the spelling of a value gives that value.
    pub proof fn lemma_name_round_trip(self)
        ensures
            Self::spec_from_name(self.spec_name()) == Some(self),
    {
        reveal_strlit("none");
        assert("none"@.len() == 4 && "none"@[0] == 'n' && "none"@[1] == 'o' && "none"@[2] == 'n' && "none"@[3] == 'e');
        reveal_strlit("underline");
        assert("underline"@.len() == 9 && "underline"@[0] == 'u' && "underline"@[1] == 'n' && "underline"@[2] == 'd' && "underline"@[3] == 'e' && "underline"@[4] == 'r' && "underline"@[5] == 'l' && "underline"@[6] == 'i' && "underline"@[7] == 'n' && "underline"@[8] == 'e');
        reveal_strlit("overline");
        assert("overline"@.len() == 8 && "overline"@[0] == 'o' && "overline"@[1] == 'v' && "overline"@[2] == 'e' && "overline"@[3] == 'r' && "overline"@[4] == 'l' && "overline"@[5] == 'i' && "overline"@[6] == 'n' && "overline"@[7] == 'e');
        reveal_strlit("line-through");
        assert("line-through"@.len() == 12 && "line-through"@[0] == 'l' && "line-through"@[1] == 'i' && "line-through"@[2] == 'n' && "line-through"@[3] == 'e' && "line-through"@[4] == '-' && "line-through"@[5] == 't' && "line-through"@[6] == 'h' && "line-through"@[7] == 'r' && "line-through"@[8] == 'o' && "line-through"@[9] == 'u' && "line-through"@[10] == 'g' && "line-through"@[11] == 'h');
    }
}

impl Wire for DecorationLine {
    open spec fn decodes_to(v: JsonValue, out: DecorationLine) -> bool {
        v matches JsonValue::Text(s) && DecorationLine::spec_from_name(s@) == Some(out)
    }

    open spec fn decode_failure(v: JsonValue, field: Field) -> Option<Failure> {
        match v {
            JsonValue::Text(s) => if DecorationLine::spec_from_name(s@) is Some {
                None
            } else {
                Some(failure_here(ErrorKind::InvalidValue(field, s)))
            },
            _ => Some(shape_failure(Shape::Text, v)),
        }
    }

    open spec fn encodes_to(self, v: JsonValue) -> bool {
        v matches JsonValue::Text(s) && s@ == self.spec_name()
    }

    open spec fn well_formed(self) -> bool {
        true
    }

    fn decode(v: &JsonValue, field: Field) -> (r: Result<DecorationLine, DecodeError>) {
        match v {
            JsonValue::Text(s) => match DecorationLine::from_name(s.as_str()) {
                Some(x) => Ok(x),
                None => Err(DecodeError::here(ErrorKind::InvalidValue(field, s.clone()))),
            },
            _ => Err(DecodeError::here(ErrorKind::InvalidShape { expected: Shape::Text, actual: v.shape() })),
        }
    }

    fn encode(&self) -> (r: JsonValue) {
        JsonValue::Text(owned(self.name()))
    }

    proof fn lemma_round_trip(self, v: JsonValue, field: Field) {
        self.lemma_name_round_trip();
    }
}

/// How a line over text is drawn.
#[derive(Clone, Copy, Debug, PartialEq, Eq, Structural)]
pub enum TextDecorationStyle {
    Solid,
    Double,
    Dotted,
    Dashed,
    Wavy,
}

impl TextDecorationStyle {
    /// The spelling of this value on the wire.
    pub open spec fn spec_name(self) -> Seq<char> {
        match self {
            TextDecorationStyle::Solid => "solid"@,
            TextDecorationStyle::Double => "double"@,
            TextDecorationStyle::Dotted => "dotted"@,
            TextDecorationStyle::Dashed => "dashed"@,
            TextDecorationStyle::Wavy => "wavy"@,
        }
    }

    /// The value spelled `s`, if any.
    pub open spec fn spec_from_name(s: Seq<char>) -> Option<TextDecorationStyle> {
        if s == "solid"@ {
            Some(TextDecorationStyle::Solid)
        } else if s == "double"@ {
            Some(TextDecorationStyle::Double)
        } else if s == "dotted"@ {
            Some(TextDecorationStyle::Dotted)
        } else if s == "dashed"@ {
            Some(TextDecorationStyle::Dashed)
        } else if s == "wavy"@ {
            Some(TextDecorationStyle::Wavy)
        } else {
            None
        }
    }

    /// The spelling of this value on the wire.
    pub fn name(self) -> (r: &'static str)
        ensures
            r@ == self.spec_name(),
    {
        match self {
            TextDecorationStyle::Solid => "solid",
            TextDecorationStyle::Double => "double",
            TextDecorationStyle::Dotted => "dotted",
            TextDecorationStyle::Dashed => "dashed",
            TextDecorationStyle::Wavy => "wavy",
        }
    }

    /// The value spelled `s`, if any.
    pub fn from_name(s: &str) -> (r: Option<TextDecorationStyle>)
        ensures
            r == Self::spec_from_name(s@),
    {
        if str_equal(s, "solid") {
            Some(TextDecorationStyle::Solid)
        } else if str_equal(s, "double") {
            Some(TextDecorationStyle::Double)
        } else if str_equal(s, "dotted") {
            Some(TextDecorationStyle::Dotted)
        } else if str_equal(s, "dashed") {
            Some(TextDecorationStyle::Dashed)
        } else if str_equal(s, "wavy") {
            Some(TextDecorationStyle::Wavy)
        } else {
            None
        }
    }

    /// Reading back the spelling of a value gives that value.
    pub proof fn lemma_name_round_trip(self)
        ensures
            Self::spec_from_name(self.spec_name()) == Some(self),
    {
        reveal_strlit("solid");
        assert("solid"@.len() == 5 && "solid"@[0] == 's' && "solid"@[1] == 'o' && "solid"@[2] == 'l' && "solid"@[3] == 'i' && "solid"@[4] == 'd');
        reveal_strlit("double");
        assert("double"@.len() == 6 && "double"@[0] == 'd' && "double"@[1] == 'o' && "double"@[2] == 'u' && "double"@[3] == 'b' && "double"@[4] == 'l' && "double"@[5] == 'e');
        reveal_strlit("dotted");
        assert("dotted"@.len() == 6 && "dotted"@[0] == 'd' && "dotted"@[1] == 'o' && "dotted"@[2] == 't' && "dotted"@[3] == 't' && "dotted"@[4] == 'e' && "dotted"@[5] == 'd');
        reveal_strlit("dashed");
        assert("dashed"@.len() == 6 && "dashed"@[0] == 'd' && "dashed"@[1] == 'a' && "dashed"@[2] == 's' && "dashed"@[3] == 'h' && "dashed"@[4] == 'e' && "dashed"@[5] == 'd');
        reveal_strlit("wavy");
        assert("wavy"@.len() == 4 && "wavy"@[0] == 'w' && "wavy"@[1] == 'a' && "wavy"@[2] == 'v' && "wavy"@[3] == 'y');
    }
}

impl Wire for TextDecorationStyle {
    open spec fn decodes_to(v: JsonValue, out: TextDecorationStyle) -> bool {
        v matches JsonValue::Text(s) && TextDecorationStyle::spec_from_name(s@) == Some(out)
    }

    open spec fn decode_failure(v: JsonValue, field: Field) -> Option<Failure> {
        match v {
            JsonValue::Text(s) => if TextDecorationStyle::spec_from_name(s@) is Some {
                None
            } else {
                Some(failure_here(ErrorKind::InvalidValue(field, s)))
            },
            _ => Some(shape_failure(Shape::Text, v)),
        }
    }

    open spec fn encodes_to(self, v: JsonValue) -> bool {
        v matches JsonValue::Text(s) && s@ == self.spec_name()
    }

    open spec fn well_formed(self) -> bool {
        true
    }

    fn decode(v: &JsonValue, field: Field) -> (r: Result<TextDecorationStyle, DecodeError>) {
        match v {
            JsonValue::Text(s) => match TextDecorationStyle::from_name(s.as_str()) {
                Some(x) => Ok(x),
                None => Err(DecodeError::here(ErrorKind::InvalidValue(field, s.clone()))),
            },
            _ => Err(DecodeError::here(ErrorKind::InvalidShape { expected: Shape::Text, actual: v.shape() })),
        }
    }

    fn encode(&self) -> (r: JsonValue) {
        JsonValue::Text(owned(self.name()))
    }

    proof fn lemma_round_trip(self, v: JsonValue, field: Field) {
        self.lemma_name_round_trip();
    }
}

/// Vertical alignment within a line.
#[derive(Clone, Copy, Debug, PartialEq, Eq, Structural)]
pub enum VerticalAlign {
    Baseline,
    Sub,
    Super,
    TextTop,
    TextBottom,
    Middle,
    Top,
    Bottom,
}

impl VerticalAlign {
    /// The spelling of this value on the wire.
    pub open spec fn spec_name(self) -> Seq<char> {
        match self {
            VerticalAlign::Baseline => "baseline"@,
            VerticalAlign::Sub => "sub"@,
            VerticalAlign::Super => "super"@,
            VerticalAlign::TextTop => "text-top"@,
            VerticalAlign::TextBottom => "text-bottom"@,
            VerticalAlign::Middle => "middle"@,
            VerticalAlign::Top => "top"@,
            VerticalAlign::Bottom => "bottom"@,
        }
    }

    /// The value spelled `s`, if any.
    pub open spec fn spec_from_name(s: Seq<char>) -> Option<VerticalAlign> {
        if s == "baseline"@ {
            Some(VerticalAlign::Baseline)
        } else if s == "sub"@ {
            Some(VerticalAlign::Sub)
        } else if s == "super"@ {
            Some(VerticalAlign::Super)
        } else if s == "text-top"@ {
            Some(VerticalAlign::TextTop)
        } else if s == "text-bottom"@ {
            Some(VerticalAlign::TextBottom)
        } else if s == "middle"@ {
            Some(VerticalAlign::Middle)
        } else if s == "top"@ {
            Some(VerticalAlign::Top)
        } else if s == "bottom"@ {
            Some(VerticalAlign::Bottom)
        } else {
            None
        }
    }

    /// The spelling of this value on the wire.
    pub fn name(self) -> (r: &'static str)
        ensures
            r@ == self.spec_name(),
    {
        match self {
            VerticalAlign::Baseline => "baseline",
            VerticalAlign::Sub => "sub",
            VerticalAlign::Super => "super",
            VerticalAlign::TextTop => "text-top",
            VerticalAlign::TextBottom => "text-bottom",
            VerticalAlign::Middle => "middle",
            VerticalAlign::Top => "top",
            VerticalAlign::Bottom => "bottom",
        }
    }

    /// The value spelled `s`, if any.
    pub fn from_name(s: &str) -> (r: Option<VerticalAlign>)
        ensures
            r == Self::spec_from_name(s@),
    {
        if str_equal(s, "baseline") {
            Some(VerticalAlign::Baseline)
        } else if str_equal(s, "sub") {
            Some(VerticalAlign::Sub)
        } else if str_equal(s, "super") {
            Some(VerticalAlign::Super)
        } else if str_equal(s, "text-top") {
            Some(VerticalAlign::TextTop)
        } else if str_equal(s, "text-bottom") {
            Some(VerticalAlign::TextBottom)
        } else if str_equal(s, "middle") {
            Some(VerticalAlign::Middle)
        } else if str_equal(s, "top") {
            Some(VerticalAlign::Top)
        } else if str_equal(s, "bottom") {
            Some(VerticalAlign::Bottom)
        } else {
            None
        }
    }

    /// Reading back the spelling of a value gives that value.
    pub proof fn lemma_name_round_trip(self)
        ensures
            Self::spec_from_name(self.spec_name()) == Some(self),
    {
        reveal_strlit("baseline");
        assert("baseline"@.len() == 8 && "baseline"@[0] == 'b' && "baseline"@[1] == 'a' && "baseline"@[2] == 's' && "baseline"@[3] == 'e' && "baseline"@[4] == 'l' && "baseline"@[5] == 'i' && "baseline"@[6] == 'n' && "baseline"@[7] == 'e');
        reveal_strlit("sub");
        assert("sub"@.len() == 3 && "sub"@[0] == 's' && "sub"@[1] == 'u' && "sub"@[2] == 'b');
        reveal_strlit("super");
        assert("super"@.len() == 5 && "super"@[0] == 's' && "super"@[1] == 'u' && "super"@[2] == 'p' && "super"@[3] == 'e' && "super"@[4] == 'r');
        reveal_strlit("text-top");
        assert("text-top"@.len() == 8 && "text-top"@[0] == 't' && "text-top"@[1] == 'e' && "text-top"@[2] == 'x' && "text-top"@[3] == 't' && "text-top"@[4] == '-' && "text-top"@[5] == 't' && "text-top"@[6] == 'o' && "text-top"@[7] == 'p');
        reveal_strlit("text-bottom");
        assert("text-bottom"@.len() == 11 && "text-bottom"@[0] == 't' && "text-bottom"@[1] == 'e' && "text-bottom"@[2] == 'x' && "text-bottom"@[3] == 't' && "text-bottom"@[4] == '-' && "text-bottom"@[5] == 'b' && "text-bottom"@[6] == 'o' && "text-bottom"@[7] == 't' && "text-bottom"@[8] == 't' && "text-bottom"@[9] == 'o' && "text-bottom"@[10] == 'm');
        reveal_strlit("middle");
        assert("middle"@.len() == 6 && "middle"@[0] == 'm' && "middle"@[1] == 'i' && "middle"@[2] == 'd' && "middle"@[3] == 'd' && "middle"@[4] == 'l' && "middle"@[5] == 'e');
        reveal_strlit("top");
        assert("top"@.len() == 3 && "top"@[0] == 't' && "top"@[1] == 'o' && "top"@[2] == 'p');
        reveal_strlit("bottom");
        assert("bottom"@.len() == 6 && "bottom"@[0] == 'b' && "bottom"@[1] == 'o' && "bottom"@[2] == 't' && "bottom"@[3] == 't' && "bottom"@[4] == 'o' && "bottom"@[5] == 'm');
    }
}

impl Wire for VerticalAlign {
    open spec fn decodes_to(v: JsonValue, out: VerticalAlign) -> bool {
        v matches JsonValue::Text(s) && VerticalAlign::spec_from_name(s@) == Some(out)
    }

    open spec fn decode_failure(v: JsonValue, field: Field) -> Option<Failure> {
        match v {
            JsonValue::Text(s) => if VerticalAlign::spec_from_name(s@) is Some {
                None
            } else {
                Some(failure_here(ErrorKind::InvalidValue(field, s)))
            },
            _ => Some(shape_failure(Shape::Text, v)),
        }
    }

    open spec fn encodes_to(self, v: JsonValue) -> bool {
        v matches JsonValue::Text(s) && s@ == self.spec_name()
    }

    open spec fn well_formed(self) -> bool {
        true
    }

    fn decode(v: &JsonValue, field: Field) -> (r: Result<VerticalAlign, DecodeError>) {
        match v {
            JsonValue::Text(s) => match VerticalAlign::from_name(s.as_str()) {
                Some(x) => Ok(x),
                None => Err(DecodeError::here(ErrorKind::InvalidValue(field, s.clone()))),
            },
            _ => Err(DecodeError::here(ErrorKind::InvalidShape { expected: Shape::Text, actual: v.shape() })),
        }
    }

    fn encode(&self) -> (r: JsonValue) {
        JsonValue::Text(owned(self.name()))
    }

    proof fn lemma_round_trip(self, v: JsonValue, field: Field) {
        self.lemma_name_round_trip();
    }
}

/// Horizontal alignment of text.
#[derive(Clone, Copy, Debug, PartialEq, Eq, Structural)]
pub enum TextAlign {
    Start,
    End,
    Left,
    Right,
    Center,
    Justify,
    JustifyAll,
    MatchParent,
}

impl TextAlign {
    /// The spelling of this value on the wire.
    pub open spec fn spec_name(self) -> Seq<char> {
        match self {
            TextAlign::Start => "start"@,
            TextAlign::End => "end"@,
            TextAlign::Left => "left"@,
            TextAlign::Right => "right"@,
            TextAlign::Center => "center"@,
            TextAlign::Justify => "justify"@,
            TextAlign::JustifyAll => "justify-all"@,
            TextAlign::MatchParent => "match-parent"@,
        }
    }

    /// The value spelled `s`, if any.
    pub open spec fn spec_from_name(s: Seq<char>) -> Option<TextAlign> {
        if s == "start"@ {
            Some(TextAlign::Start)
        } else if s == "end"@ {
            Some(TextAlign::End)
        } else if s == "left"@ {
            Some(TextAlign::Left)
        } else if s == "right"@ {
            Some(TextAlign::Right)
        } else if s == "center"@ {
            Some(TextAlign::Center)
        } else if s == "justify"@ {
            Some(TextAlign::Justify)
        } else if s == "justify-all"@ {
            Some(TextAlign::JustifyAll)
        } else if s == "match-parent"@ {
            Some(TextAlign::MatchParent)
        } else {
            None
        }
    }

    /// The spelling of this value on the wire.
    pub fn name(self) -> (r: &'static str)
        ensures
            r@ == self.spec_name(),
    {
        match self {
            TextAlign::Start => "start",
            TextAlign::End => "end",
            TextAlign::Left => "left",
            TextAlign::Right => "right",
            TextAlign::Center => "center",
            TextAlign::Justify => "justify",
            TextAlign::JustifyAll => "justify-all",
            TextAlign::MatchParent => "match-parent",
        }
    }

    /// The value spelled `s`, if any.
    pub fn from_name(s: &str) -> (r: Option<TextAlign>)
        ensures
            r == Self::spec_from_name(s@),
    {
        if str_equal(s, "start") {
            Some(TextAlign::Start)
        } else if str_equal(s, "end") {
            Some(TextAlign::End)
        } else if str_equal(s, "left") {
            Some(TextAlign::Left)
        } else if str_equal(s, "right") {
            Some(TextAlign::Right)
        } else if str_equal(s, "center") {
            Some(TextAlign::Center)
        } else if str_equal(s, "justify") {
            Some(TextAlign::Justify)
        } else if str_equal(s, "justify-all") {
            Some(TextAlign::JustifyAll)
        } else if str_equal(s, "match-parent") {
            Some(TextAlign::MatchParent)
        } else {
            None
        }
    }

    /// Reading back the spelling of a value gives that value.
    pub proof fn lemma_name_round_trip(self)
        ensures
            Self::spec_from_name(self.spec_name()) == Some(self),
    {
        reveal_strlit("start");
        assert("start"@.len() == 5 && "start"@[0] == 's' && "start"@[1] == 't' && "start"@[2] == 'a' && "start"@[3] == 'r' && "start"@[4] == 't');
        reveal_strlit("end");
        assert("end"@.len() == 3 && "end"@[0] == 'e' && "end"@[1] == 'n' && "end"@[2] == 'd');
        reveal_strlit("left");
        assert("left"@.len() == 4 && "left"@[0] == 'l' && "left"@[1] == 'e' && "left"@[2] == 'f' && "left"@[3] == 't');
        reveal_strlit("right");
        assert("right"@.len() == 5 && "right"@[0] == 'r' && "right"@[1] == 'i' && "right"@[2] == 'g' && "right"@[3] == 'h' && "right"@[4] == 't');
        reveal_strlit("center");
        assert("center"@.len() == 6 && "center"@[0] == 'c' && "center"@[1] == 'e' && "center"@[2] == 'n' && "center"@[3] == 't' && "center"@[4] == 'e' && "center"@[5] == 'r');
        reveal_strlit("justify");
        assert("justify"@.len() == 7 && "justify"@[0] == 'j' && "justify"@[1] == 'u' && "justify"@[2] == 's' && "justify"@[3] == 't' && "justify"@[4] == 'i' && "justify"@[5] == 'f' && "justify"@[6] == 'y');
        reveal_strlit("justify-all");
        assert("justify-all"@.len() == 11 && "justify-all"@[0] == 'j' && "justify-all"@[1] == 'u' && "justify-all"@[2] == 's' && "justify-all"@[3] == 't' && "justify-all"@[4] == 'i' && "justify-all"@[5] == 'f' && "justify-all"@[6] == 'y' && "justify-all"@[7] == '-' && "justify-all"@[8] == 'a' && "justify-all"@[9] == 'l' && "justify-all"@[10] == 'l');
        reveal_strlit("match-parent");
        assert("match-parent"@.len() == 12 && "match-parent"@[0] == 'm' && "match-parent"@[1] == 'a' && "match-parent"@[2] == 't' && "match-parent"@[3] == 'c' && "match-parent"@[4] == 'h' && "match-parent"@[5] == '-' && "match-parent"@[6] == 'p' && "match-parent"@[7] == 'a' && "match-parent"@[8] == 'r' && "match-parent"@[9] == 'e' && "match-parent"@[10] == 'n' && "match-parent"@[11] == 't');
    }
}

impl Wire for TextAlign {
    open spec fn decodes_to(v: JsonValue, out: TextAlign) -> bool {
        v matches JsonValue::Text(s) && TextAlign::spec_from_name(s@) == Some(out)
    }

    open spec fn decode_failure(v: JsonValue, field: Field) -> Option<Failure> {
        match v {
            JsonValue::Text(s) => if TextAlign::spec_from_name(s@) is Some {
                None
            } else {
                Some(failure_here(ErrorKind::InvalidValue(field, s)))
            },
            _ => Some(shape_failure(Shape::Text, v)),
        }
    }

    open spec fn encodes_to(self, v: JsonValue) -> bool {
        v matches JsonValue::Text(s) && s@ == self.spec_name()
    }

    open spec fn well_formed(self) -> bool {
        true
    }

    fn decode(v: &JsonValue, field: Field) -> (r: Result<TextAlign, DecodeError>) {
        match v {
            JsonValue::Text(s) => match TextAlign::from_name(s.as_str()) {
                Some(x) => Ok(x),
                None => Err(DecodeError::here(ErrorKind::InvalidValue(field, s.clone()))),
            },
            _ => Err(DecodeError::here(ErrorKind::InvalidShape { expected: Shape::Text, actual: v.shape() })),
        }
    }

    fn encode(&self) -> (r: JsonValue) {
        JsonValue::Text(owned(self.name()))
    }

    proof fn lemma_round_trip(self, v: JsonValue, field: Field) {
        self.lemma_name_round_trip();
    }
}

/// Where lines may break within words.
#[derive(Clone, Copy, Debug, PartialEq, Eq, Structural)]
pub enum WordBreak {
    Normal,
    BreakAll,
    KeepAll,
}

impl WordBreak {
    /// The spelling of this value on the wire.
    pub open spec fn spec_name(self) -> Seq<char> {
        match self {
            WordBreak::Normal => "normal"@,
            WordBreak::BreakAll => "break-all"@,
            WordBreak::KeepAll => "keep-all"@,
        }
    }

    /// The value spelled `s`, if any.
    pub open spec fn spec_from_name(s: Seq<char>) -> Option<WordBreak> {
        if s == "normal"@ {
            Some(WordBreak::Normal)
        } else if s == "break-all"@ {
            Some(WordBreak::BreakAll)
        } else if s == "keep-all"@ {
            Some(WordBreak::KeepAll)
        } else {
            None
        }
    }

    /// The spelling of this value on the wire.
    pub fn name(self) -> (r: &'static str)
        ensures
            r@ == self.spec_name(),
    {
        match self {
            WordBreak::Normal => "normal",
            WordBreak::BreakAll => "break-all",
            WordBreak::KeepAll => "keep-all",
        }
    }

    /// The value spelled `s`, if any.
    pub fn from_name(s: &str) -> (r: Option<WordBreak>)
        ensures
            r == Self::spec_from_name(s@),
    {
        if str_equal(s, "normal") {
            Some(WordBreak::Normal)
        } else if str_equal(s, "break-all") {
            Some(WordBreak::BreakAll)
        } else if str_equal(s, "keep-all") {
            Some(WordBreak::KeepAll)
        } else {
            None
        }
    }

    /// Reading back the spelling of a value gives that value.
    pub proof fn lemma_name_round_trip(self)
        ensures
            Self::spec_from_name(self.spec_name()) == Some(self),
    {
        reveal_strlit("normal");
        assert("normal"@.len() == 6 && "normal"@[0] == 'n' && "normal"@[1] == 'o' && "normal"@[2] == 'r' && "normal"@[3] == 'm' && "normal"@[4] == 'a' && "normal"@[5] == 'l');
        reveal_strlit("break-all");
        assert("break-all"@.len() == 9 && "break-all"@[0] == 'b' && "break-all"@[1] == 'r' && "break-all"@[2] == 'e' && "break-all"@[3] == 'a' && "break-all"@[4] == 'k' && "break-all"@[5] == '-' && "break-all"@[6] == 'a' && "break-all"@[7] == 'l' && "break-all"@[8] == 'l');
        reveal_strlit("keep-all");
        assert("keep-all"@.len() == 8 && "keep-all"@[0] == 'k' && "keep-all"@[1] == 'e' && "keep-all"@[2] == 'e' && "keep-all"@[3] == 'p' && "keep-all"@[4] == '-' && "keep-all"@[5] == 'a' && "keep-all"@[6] == 'l' && "keep-all"@[7] == 'l');
    }
}

impl Wire for WordBreak {
    open spec fn decodes_to(v: JsonValue, out: WordBreak) -> bool {
        v matches JsonValue::Text(s) && WordBreak::spec_from_name(s@) == Some(out)
    }

    open spec fn decode_failure(v: JsonValue, field: Field) -> Option<Failure> {
        match v {
            JsonValue::Text(s) => if WordBreak::spec_from_name(s@) is Some {
                None
            } else {
                Some(failure_here(ErrorKind::InvalidValue(field, s)))
            },
            _ => Some(shape_failure(Shape::Text, v)),
        }
    }

    open spec fn encodes_to(self, v: JsonValue) -> bool {
        v matches JsonValue::Text(s) && s@ == self.spec_name()
    }

    open spec fn well_formed(self) -> bool {
        true
    }

    fn decode(v: &JsonValue, field: Field) -> (r: Result<WordBreak, DecodeError>) {
        match v {
            JsonValue::Text(s) => match WordBreak::from_name(s.as_str()) {
                Some(x) => Ok(x),
                None => Err(DecodeError::here(ErrorKind::InvalidValue(field, s.clone()))),
            },
            _ => Err(DecodeError::here(ErrorKind::InvalidShape { expected: Shape::Text, actual: v.shape() })),
        }
    }

    fn encode(&self) -> (r: JsonValue) {
        JsonValue::Text(owned(self.name()))
    }

    proof fn lemma_round_trip(self, v: JsonValue, field: Field) {
        self.lemma_name_round_trip();
    }
}

/// How an image is scaled.
#[derive(Clone, Copy, Debug, PartialEq, Eq, Structural)]
pub enum ImageRendering {
    Auto,
    Pixelated,
    CrispEdges,
}

impl ImageRendering {
    /// The spelling of this value on the wire.
    pub open spec fn spec_name(self) -> Seq<char> {
        match self {
            ImageRendering::Auto => "auto"@,
            ImageRendering::Pixelated => "pixelated"@,
            ImageRendering::CrispEdges => "crisp-edges"@,
        }
    }

    /// The value spelled `s`, if any.
    pub open spec fn spec_from_name(s: Seq<char>) -> Option<ImageRendering> {
        if s == "auto"@ {
            Some(ImageRendering::Auto)
        } else if s == "pixelated"@ {
            Some(ImageRendering::Pixelated)
        } else if s == "crisp-edges"@ {
            Some(ImageRendering::CrispEdges)
        } else {
            None
        }
    }

    /// The spelling of this value on the wire.
    pub fn name(self) -> (r: &'static str)
        ensures
            r@ == self.spec_name(),
    {
        match self {
            ImageRendering::Auto => "auto",
            ImageRendering::Pixelated => "pixelated",
            ImageRendering::CrispEdges => "crisp-edges",
        }
    }

    /// The value spelled `s`, if any.
    pub fn from_name(s: &str) -> (r: Option<ImageRendering>)
        ensures
            r == Self::spec_from_name(s@),
    {
        if str_equal(s, "auto") {
            Some(ImageRendering::Auto)
        } else if str_equal(s, "pixelated") {
            Some(ImageRendering::Pixelated)
        } else if str_equal(s, "crisp-edges") {
            Some(ImageRendering::CrispEdges)
        } else {
            None
        }
    }

    /// Reading back the spelling of a value gives that value.
    pub proof fn lemma_name_round_trip(self)
        ensures
            Self::spec_from_name(self.spec_name()) == Some(self),
    {
        reveal_strlit("auto");
        assert("auto"@.len() == 4 && "auto"@[0] == 'a' && "auto"@[1] == 'u' && "auto"@[2] == 't' && "auto"@[3] == 'o');
        reveal_strlit("pixelated");
        assert("pixelated"@.len() == 9 && "pixelated"@[0] == 'p' && "pixelated"@[1] == 'i' && "pixelated"@[2] == 'x' && "pixelated"@[3] == 'e' && "pixelated"@[4] == 'l' && "pixelated"@[5] == 'a' && "pixelated"@[6] == 't' && "pixelated"@[7] == 'e' && "pixelated"@[8] == 'd');
        reveal_strlit("crisp-edges");
        assert("crisp-edges"@.len() == 11 && "crisp-edges"@[0] == 'c' && "crisp-edges"@[1] == 'r' && "crisp-edges"@[2] == 'i' && "crisp-edges"@[3] == 's' && "crisp-edges"@[4] == 'p' && "crisp-edges"@[5] == '-' && "crisp-edges"@[6] == 'e' && "crisp-edges"@[7] == 'd' && "crisp-edges"@[8] == 'g' && "crisp-edges"@[9] == 'e' && "crisp-edges"@[10] == 's');
    }
}

impl Wire for ImageRendering {
    open spec fn decodes_to(v: JsonValue, out: ImageRendering) -> bool {
        v matches JsonValue::Text(s) && ImageRendering::spec_from_name(s@) == Some(out)
    }

    open spec fn decode_failure(v: JsonValue, field: Field) -> Option<Failure> {
        match v {
            JsonValue::Text(s) => if ImageRendering::spec_from_name(s@) is Some {
                None
            } else {
                Some(failure_here(ErrorKind::InvalidValue(field, s)))
            },
            _ => Some(shape_failure(Shape::Text, v)),
        }
    }

    open spec fn encodes_to(self, v: JsonValue) -> bool {
        v matches JsonValue::Text(s) && s@ == self.spec_name()
    }

    open spec fn well_formed(self) -> bool {
        true
    }

    fn decode(v: &JsonValue, field: Field) -> (r: Result<ImageRendering, DecodeError>) {
        match v {
            JsonValue::Text(s) => match ImageRendering::from_name(s.as_str()) {
                Some(x) => Ok(x),
                None => Err(DecodeError::here(ErrorKind::InvalidValue(field, s.clone()))),
            },
            _ => Err(DecodeError::here(ErrorKind::InvalidShape { expected: Shape::Text, actual: v.shape() })),
        }
    }

    fn encode(&self) -> (r: JsonValue) {
        JsonValue::Text(owned(self.name()))
    }

    proof fn lemma_round_trip(self, v: JsonValue, field: Field) {
        self.lemma_name_round_trip();
    }
}

/// How an image is coloured.
#[derive(Clone, Copy, Debug, PartialEq, Eq, Structural)]
pub enum ImageAppearance {
    Auto,
    Monochrome,
}

impl ImageAppearance {
    /// The spelling of this value on the wire.
    pub open spec fn spec_name(self) -> Seq<char> {
        match self {
            ImageAppearance::Auto => "auto"@,
            ImageAppearance::Monochrome => "monochrome"@,
        }
    }

    /// The value spelled `s`, if any.
    pub open spec fn spec_from_name(s: Seq<char>) -> Option<ImageAppearance> {
        if s == "auto"@ {
            Some(ImageAppearance::Auto)
        } else if s == "monochrome"@ {
            Some(ImageAppearance::Monochrome)
        } else {
            None
        }
    }

    /// The spelling of this value on the wire.
    pub fn name(self) -> (r: &'static str)
        ensures
            r@ == self.spec_name(),
    {
        match self {
            ImageAppearance::Auto => "auto",
            ImageAppearance::Monochrome => "monochrome",
        }
    }

    /// The value spelled `s`, if any.
    pub fn from_name(s: &str) -> (r: Option<ImageAppearance>)
        ensures
            r == Self::spec_from_name(s@),
    {
        if str_equal(s, "auto") {
            Some(ImageAppearance::Auto)
        } else if str_equal(s, "monochrome") {
            Some(ImageAppearance::Monochrome)
        } else {
            None
        }
    }

    /// Reading back the spelling of a value gives that value.
    pub proof fn lemma_name_round_trip(self)
        ensures
            Self::spec_from_name(self.spec_name()) == Some(self),
    {
        reveal_strlit("auto");
        assert("auto"@.len() == 4 && "auto"@[0] == 'a' && "auto"@[1] == 'u' && "auto"@[2] == 't' && "auto"@[3] == 'o');
        reveal_strlit("monochrome");
        assert("monochrome"@.len() == 10 && "monochrome"@[0] == 'm' && "monochrome"@[1] == 'o' && "monochrome"@[2] == 'n' && "monochrome"@[3] == 'o' && "monochrome"@[4] == 'c' && "monochrome"@[5] == 'h' && "monochrome"@[6] == 'r' && "monochrome"@[7] == 'o' && "monochrome"@[8] == 'm' && "monochrome"@[9] == 'e');
    }
}

impl Wire for ImageAppearance {
    open spec fn decodes_to(v: JsonValue, out: ImageAppearance) -> bool {
        v matches JsonValue::Text(s) && ImageAppearance::spec_from_name(s@) == Some(out)
    }

    open spec fn decode_failure(v: JsonValue, field: Field) -> Option<Failure> {
        match v {
            JsonValue::Text(s) => if ImageAppearance::spec_from_name(s@) is Some {
                None
            } else {
                Some(failure_here(ErrorKind::InvalidValue(field, s)))
            },
            _ => Some(shape_failure(Shape::Text, v)),
        }
    }

    open spec fn encodes_to(self, v: JsonValue) -> bool {
        v matches JsonValue::Text(s) && s@ == self.spec_name()
    }

    open spec fn well_formed(self) -> bool {
        true
    }

    fn decode(v: &JsonValue, field: Field) -> (r: Result<ImageAppearance, DecodeError>) {
        match v {
            JsonValue::Text(s) => match ImageAppearance::from_name(s.as_str()) {
                Some(x) => Ok(x),
                None => Err(DecodeError::here(ErrorKind::InvalidValue(field, s.clone()))),
            },
            _ => Err(DecodeError::here(ErrorKind::InvalidShape { expected: Shape::Text, actual: v.shape() })),
        }
    }

    fn encode(&self) -> (r: JsonValue) {
        JsonValue::Text(owned(self.name()))
    }

    proof fn lemma_round_trip(self, v: JsonValue, field: Field) {
        self.lemma_name_round_trip();
    }
}

/// The unit of an image's width and height.
#[derive(Clone, Copy, Debug, PartialEq, Eq, Structural)]
pub enum SizeUnit {
    Px,
    Em,
}

impl SizeUnit {
    /// The spelling of this value on the wire.
    pub open spec fn spec_name(self) -> Seq<char> {
        match self {
            SizeUnit::Px => "px"@,
            SizeUnit::Em => "em"@,
        }
    }

    /// The value spelled `s`, if any.
    pub open spec fn spec_from_name(s: Seq<char>) -> Option<SizeUnit> {
        if s == "px"@ {
            Some(SizeUnit::Px)
        } else if s == "em"@ {
            Some(SizeUnit::Em)
        } else {
            None
        }
    }

    /// The spelling of this value on the wire.
    pub fn name(self) -> (r: &'static str)
        ensures
            r@ == self.spec_name(),
    {
        match self {
            SizeUnit::Px => "px",
            SizeUnit::Em => "em",
        }
    }

    /// The value spelled `s`, if any.
    pub fn from_name(s: &str) -> (r: Option<SizeUnit>)
        ensures
            r == Self::spec_from_name(s@),
    {
        if str_equal(s, "px") {
            Some(SizeUnit::Px)
        } else if str_equal(s, "em") {
            Some(SizeUnit::Em)
        } else {
            None
        }
    }

    /// Reading back the spelling of a value gives that value.
    pub proof fn lemma_name_round_trip(self)
        ensures
            Self::spec_from_name(self.spec_name()) == Some(self),
    {
        reveal_strlit("px");
        assert("px"@.len() == 2 && "px"@[0] == 'p' && "px"@[1] == 'x');
        reveal_strlit("em");
        assert("em"@.len() == 2 && "em"@[0] == 'e' && "em"@[1] == 'm');
    }
}

impl Wire for SizeUnit {
    open spec fn decodes_to(v: JsonValue, out: SizeUnit) -> bool {
        v matches JsonValue::Text(s) && SizeUnit::spec_from_name(s@) == Some(out)
    }

    open spec fn decode_failure(v: JsonValue, field: Field) -> Option<Failure> {
        match v {
            JsonValue::Text(s) => if SizeUnit::spec_from_name(s@) is Some {
                None
            } else {
                Some(failure_here(ErrorKind::InvalidValue(field, s)))
            },
            _ => Some(shape_failure(Shape::Text, v)),
        }
    }

    open spec fn encodes_to(self, v: JsonValue) -> bool {
        v matches JsonValue::Text(s) && s@ == self.spec_name()
    }

    open spec fn well_formed(self) -> bool {
        true
    }

    fn decode(v: &JsonValue, field: Field) -> (r: Result<SizeUnit, DecodeError>) {
        match v {
            JsonValue::Text(s) => match SizeUnit::from_name(s.as_str()) {
                Some(x) => Ok(x),
                None => Err(DecodeError::here(ErrorKind::InvalidValue(field, s.clone()))),
            },
            _ => Err(DecodeError::here(ErrorKind::InvalidShape { expected: Shape::Text, actual: v.shape() })),
        }
    }

    fn encode(&self) -> (r: JsonValue) {
        JsonValue::Text(owned(self.name()))
    }

    proof fn lemma_round_trip(self, v: JsonValue, field: Field) {
        self.lemma_name_round_trip();
    }
}

/// The `textDecorationLine` property: one kind of line, or a sequence of
/// them. Which of the two shapes a document used is kept.
#[derive(Clone, Debug, PartialEq)]
pub enum TextDecorationLine {
    Single(DecorationLine),
    Many(Vec<DecorationLine>),
}

/// `vs` decode one by one to `out`.
pub open spec fn lines_decode_to(vs: Seq<JsonValue>, out: Seq<DecorationLine>) -> bool {
    &&& vs.len() == out.len()
    &&& forall|i: int| 0 <= i < vs.len() ==> DecorationLine::decodes_to(#[trigger] vs[i], out[i])
}

/// The first position of `vs` that does not decode to a kind of line.
pub open spec fn first_bad_line(vs: Seq<JsonValue>, i: int) -> Option<int>
    decreases vs.len() - i,
{
    if i < 0 || i >= vs.len() {
        None
    } else if DecorationLine::decode_failure(vs[i], Field::Style(StyleKey::TextDecorationLine)) is Some {
        Some(i)
    } else {
        first_bad_line(vs, i + 1)
    }
}

impl Wire for TextDecorationLine {
    open spec fn decodes_to(v: JsonValue, out: TextDecorationLine) -> bool {
        match (v, out) {
            (JsonValue::Text(_), TextDecorationLine::Single(d)) => DecorationLine::decodes_to(v, d),
            (JsonValue::Array(vs), TextDecorationLine::Many(ds)) => lines_decode_to(vs@, ds@),
            _ => false,
        }
    }

    open spec fn decode_failure(v: JsonValue, field: Field) -> Option<Failure> {
        match v {
            JsonValue::Text(_) => DecorationLine::decode_failure(v, field),
            JsonValue::Array(vs) => match first_bad_line(vs@, 0) {
                None => None,
                Some(i) => match DecorationLine::decode_failure(vs@[i], field) {
                    Some(f) => Some(failure_below(Segment::Index(i as usize), f)),
                    None => None,
                },
            },
            _ => Some(shape_failure(Shape::TextOrArray, v)),
        }
    }

    open spec fn encodes_to(self, v: JsonValue) -> bool {
        match (self, v) {
            (TextDecorationLine::Single(d), JsonValue::Text(_)) => d.encodes_to(v),
            (TextDecorationLine::Many(ds), JsonValue::Array(vs)) => {
                &&& vs@.len() == ds@.len()
                &&& forall|i: int| 0 <= i < vs@.len() ==> (#[trigger] ds@[i]).encodes_to(vs@[i])
            },
            _ => false,
        }
    }

    open spec fn well_formed(self) -> bool {
        true
    }

    fn decode(v: &JsonValue, field: Field) -> (r: Result<TextDecorationLine, DecodeError>) {
        match v {
            JsonValue::Text(_) => match DecorationLine::decode(v, field) {
                Ok(d) => Ok(TextDecorationLine::Single(d)),
                Err(e) => Err(e),
            },
            JsonValue::Array(vs) => {
                let mut out: Vec<DecorationLine> = Vec::new();
                let mut i: usize = 0;
                while i < vs.len()
                    invariant
                        *v == JsonValue::Array(*vs),
                        i <= vs@.len(),
                        first_bad_line(vs@, 0) == first_bad_line(vs@, i as int),
                        lines_decode_to(vs@.take(i as int), out@),
                    decreases vs@.len() - i,
                {
                    match DecorationLine::decode(&vs[i], field) {
                        Ok(d) => {
                            out.push(d);
                        },
                        Err(e) => {
                            proof {
                                DecorationLine::lemma_failure_field(vs@[i as int], field, Field::Style(StyleKey::TextDecorationLine));
                                assert(first_bad_line(vs@, i as int) == Some(i as int));
                                assert(DecorationLine::decode_failure(vs@[i as int], field) == Some(e@));
                            }
                            return Err(e.below(Segment::Index(i)));
                        },
                    }
                    proof {
                        DecorationLine::lemma_failure_field(vs@[i as int], field, Field::Style(StyleKey::TextDecorationLine));
                        assert(vs@.take(i + 1).drop_last() =~= vs@.take(i as int));
                        assert forall|k: int| 0 <= k < i + 1 implies DecorationLine::decodes_to(#[trigger] vs@.take(i + 1)[k], out@[k]) by {
                            if k < i {
                                assert(vs@.take(i + 1)[k] == vs@.take(i as int)[k]);
                            }
                        }
                    }
                    i = i + 1;
                }
                assert(vs@.take(vs@.len() as int) =~= vs@);
                proof {
                    lemma_first_bad_line_none(vs@, vs@.len() as int);
                }
                Ok(TextDecorationLine::Many(out))
            },
            _ => Err(DecodeError::here(ErrorKind::InvalidShape { expected: Shape::TextOrArray, actual: v.shape() })),
        }
    }

    fn encode(&self) -> (r: JsonValue) {
        match self {
            TextDecorationLine::Single(d) => d.encode(),
            TextDecorationLine::Many(ds) => {
                let mut vs: Vec<JsonValue> = Vec::new();
                let mut i: usize = 0;
                while i < ds.len()
                    invariant
                        i <= ds@.len(),
                        vs@.len() == i,
                        forall|k: int| 0 <= k < i ==> (#[trigger] ds@[k]).encodes_to(vs@[k]),
                    decreases ds@.len() - i,
                {
                    vs.push(ds[i].encode());
                    i = i + 1;
                }
                JsonValue::Array(vs)
            },
        }
    }

    proof fn lemma_round_trip(self, v: JsonValue, field: Field) {
        match (self, v) {
            (TextDecorationLine::Single(d), JsonValue::Text(_)) => d.lemma_round_trip(v, field),
            (TextDecorationLine::Many(ds), JsonValue::Array(vs)) => {
                assert forall|i: int| 0 <= i < vs@.len() implies DecorationLine::decodes_to(#[trigger] vs@[i], ds@[i])
                    && DecorationLine::decode_failure(vs@[i], Field::Style(StyleKey::TextDecorationLine)) is None by {
                    ds@[i].lemma_round_trip(vs@[i], Field::Style(StyleKey::TextDecorationLine));
                }
                lemma_first_bad_line_none(vs@, 0);
            },
            _ => {},
        }
    }
}

/// A decoded `textDecorationLine` re-encodes to the shape it was read from:
/// a single value to a string, a sequence to an array of the same length.
pub proof fn lemma_decoration_shape_kept(v: JsonValue, d: TextDecorationLine, w: JsonValue)
    requires
        TextDecorationLine::decodes_to(v, d),
        d.encodes_to(w),
    ensures
        shape_of(w) == shape_of(v),
        v is Array ==> w->Array_0@.len() == v->Array_0@.len(),
{
}

impl DecorationLine {
    /// Whether a value decodes does not depend on the member it stands under.
    pub proof fn lemma_failure_field(v: JsonValue, f: Field, g: Field)
        ensures
            (DecorationLine::decode_failure(v, f) is None) == (DecorationLine::decode_failure(v, g) is None),
    {
    }
}

/// No position from `i` on fails where every one decodes.
proof fn lemma_first_bad_line_none(vs: Seq<JsonValue>, i: int)
    requires
        0 <= i,
        forall|k: int| i <= k < vs.len() ==> DecorationLine::decode_failure(#[trigger] vs[k], Field::Style(StyleKey::TextDecorationLine)) is None,
    ensures
        first_bad_line(vs, i) is None,
    decreases vs.len() - i,
{
    if i < vs.len() {
        lemma_first_bad_line_none(vs, i + 1);
    }
}

/// The optional presentation properties of a styleable element. Each one
/// that is absent is left out of the encoded object.
#[derive(Clone, Debug, PartialEq)]
pub struct StructuredContentStyle {
    pub font_style: Option<FontStyle>,
    pub font_weight: Option<FontWeight>,
    pub font_size: Option<String>,
    pub color: Option<String>,
    pub background: Option<String>,
    pub background_color: Option<String>,
    pub text_decoration_line: Option<TextDecorationLine>,
    pub text_decoration_style: Option<TextDecorationStyle>,
    pub text_decoration_color: Option<String>,
    pub border_color: Option<String>,
    pub border_style: Option<String>,
    pub border_radius: Option<String>,
    pub border_width: Option<String>,
    pub clip_path: Option<String>,
    pub vertical_align: Option<VerticalAlign>,
    pub text_align: Option<TextAlign>,
    pub text_emphasis: Option<String>,
    pub text_shadow: Option<String>,
    pub margin: Option<String>,
    pub margin_top: Option<String>,
    pub margin_left: Option<String>,
    pub margin_right: Option<String>,
    pub margin_bottom: Option<String>,
    pub padding: Option<String>,
    pub padding_top: Option<String>,
    pub padding_left: Option<String>,
    pub padding_right: Option<String>,
    pub padding_bottom: Option<String>,
    pub word_break: Option<WordBreak>,
    pub white_space: Option<String>,
    pub cursor: Option<String>,
    pub list_style_type: Option<String>,
}

impl StructuredContentStyle {
    /// A style with no property set.
    pub fn blank() -> (r: StructuredContentStyle)
        ensures
            forall|f: Field| !r.has(f),
    {
        StructuredContentStyle {
            font_style: None,
            font_weight: None,
            font_size: None,
            color: None,
            background: None,
            background_color: None,
            text_decoration_line: None,
            text_decoration_style: None,
            text_decoration_color: None,
            border_color: None,
            border_style: None,
            border_radius: None,
            border_width: None,
            clip_path: None,
            vertical_align: None,
            text_align: None,
            text_emphasis: None,
            text_shadow: None,
            margin: None,
            margin_top: None,
            margin_left: None,
            margin_right: None,
            margin_bottom: None,
            padding: None,
            padding_top: None,
            padding_left: None,
            padding_right: None,
            padding_bottom: None,
            word_break: None,
            white_space: None,
            cursor: None,
            list_style_type: None,
        }
    }
}

/// The member at position `i` of the canonical order of `StructuredContentStyle`.
pub open spec fn style_member_at(i: int) -> Field {
    if i == 0 {
        Field::Style(StyleKey::FontStyle)
    } else if i == 1 {
        Field::Style(StyleKey::FontWeight)
    } else if i == 2 {
        Field::Style(StyleKey::FontSize)
    } else if i == 3 {
        Field::Style(StyleKey::Color)
    } else if i == 4 {
        Field::Style(StyleKey::Background)
    } else if i == 5 {
        Field::Style(StyleKey::BackgroundColor)
    } else if i == 6 {
        Field::Style(StyleKey::TextDecorationLine)
    } else if i == 7 {
        Field::Style(StyleKey::TextDecorationStyle)
    } else if i == 8 {
        Field::Style(StyleKey::TextDecorationColor)
    } else if i == 9 {
        Field::Style(StyleKey::BorderColor)
    } else if i == 10 {
        Field::Style(StyleKey::BorderStyle)
    } else if i == 11 {
        Field::Style(StyleKey::BorderRadius)
    } else if i == 12 {
        Field::Style(StyleKey::BorderWidth)
    } else if i == 13 {
        Field::Style(StyleKey::ClipPath)
    } else if i == 14 {
        Field::Style(StyleKey::VerticalAlign)
    } else if i == 15 {
        Field::Style(StyleKey::TextAlign)
    } else if i == 16 {
        Field::Style(StyleKey::TextEmphasis)
    } else if i == 17 {
        Field::Style(StyleKey::TextShadow)
    } else if i == 18 {
        Field::Style(StyleKey::Margin)
    } else if i == 19 {
        Field::Style(StyleKey::MarginTop)
    } else if i == 20 {
        Field::Style(StyleKey::MarginLeft)
    } else if i == 21 {
        Field::Style(StyleKey::MarginRight)
    } else if i == 22 {
        Field::Style(StyleKey::MarginBottom)
    } else if i == 23 {
        Field::Style(StyleKey::Padding)
    } else if i == 24 {
        Field::Style(StyleKey::PaddingTop)
    } else if i == 25 {
        Field::Style(StyleKey::PaddingLeft)
    } else if i == 26 {
        Field::Style(StyleKey::PaddingRight)
    } else if i == 27 {
        Field::Style(StyleKey::PaddingBottom)
    } else if i == 28 {
        Field::Style(StyleKey::WordBreak)
    } else if i == 29 {
        Field::Style(StyleKey::WhiteSpace)
    } else if i == 30 {
        Field::Style(StyleKey::Cursor)
    } else if i == 31 {
        Field::Style(StyleKey::ListStyleType)
    } else {
        Field::Style(StyleKey::FontStyle)
    }
}

/// The position of `f` in the canonical order of `StructuredContentStyle`.
pub open spec fn style_member_index(f: Field) -> int {
    match f {
        Field::Style(StyleKey::FontStyle) => 0,
        Field::Style(StyleKey::FontWeight) => 1,
        Field::Style(StyleKey::FontSize) => 2,
        Field::Style(StyleKey::Color) => 3,
        Field::Style(StyleKey::Background) => 4,
        Field::Style(StyleKey::BackgroundColor) => 5,
        Field::Style(StyleKey::TextDecorationLine) => 6,
        Field::Style(StyleKey::TextDecorationStyle) => 7,
        Field::Style(StyleKey::TextDecorationColor) => 8,
        Field::Style(StyleKey::BorderColor) => 9,
        Field::Style(StyleKey::BorderStyle) => 10,
        Field::Style(StyleKey::BorderRadius) => 11,
        Field::Style(StyleKey::BorderWidth) => 12,
        Field::Style(StyleKey::ClipPath) => 13,
        Field::Style(StyleKey::VerticalAlign) => 14,
        Field::Style(StyleKey::TextAlign) => 15,
        Field::Style(StyleKey::TextEmphasis) => 16,
        Field::Style(StyleKey::TextShadow) => 17,
        Field::Style(StyleKey::Margin) => 18,
        Field::Style(StyleKey::MarginTop) => 19,
        Field::Style(StyleKey::MarginLeft) => 20,
        Field::Style(StyleKey::MarginRight) => 21,
        Field::Style(StyleKey::MarginBottom) => 22,
        Field::Style(StyleKey::Padding) => 23,
        Field::Style(StyleKey::PaddingTop) => 24,
        Field::Style(StyleKey::PaddingLeft) => 25,
        Field::Style(StyleKey::PaddingRight) => 26,
        Field::Style(StyleKey::PaddingBottom) => 27,
        Field::Style(StyleKey::WordBreak) => 28,
        Field::Style(StyleKey::WhiteSpace) => 29,
        Field::Style(StyleKey::Cursor) => 30,
        Field::Style(StyleKey::ListStyleType) => 31,
        _ => 32,
    }
}

fn style_member_at_exec(i: usize) -> (r: Field)
    ensures
        r == style_member_at(i as int),
{
    match i {
        0 => Field::Style(StyleKey::FontStyle),
        1 => Field::Style(StyleKey::FontWeight),
        2 => Field::Style(StyleKey::FontSize),
        3 => Field::Style(StyleKey::Color),
        4 => Field::Style(StyleKey::Background),
        5 => Field::Style(StyleKey::BackgroundColor),
        6 => Field::Style(StyleKey::TextDecorationLine),
        7 => Field::Style(StyleKey::TextDecorationStyle),
        8 => Field::Style(StyleKey::TextDecorationColor),
        9 => Field::Style(StyleKey::BorderColor),
        10 => Field::Style(StyleKey::BorderStyle),
        11 => Field::Style(StyleKey::BorderRadius),
        12 => Field::Style(StyleKey::BorderWidth),
        13 => Field::Style(StyleKey::ClipPath),
        14 => Field::Style(StyleKey::VerticalAlign),
        15 => Field::Style(StyleKey::TextAlign),
        16 => Field::Style(StyleKey::TextEmphasis),
        17 => Field::Style(StyleKey::TextShadow),
        18 => Field::Style(StyleKey::Margin),
        19 => Field::Style(StyleKey::MarginTop),
        20 => Field::Style(StyleKey::MarginLeft),
        21 => Field::Style(StyleKey::MarginRight),
        22 => Field::Style(StyleKey::MarginBottom),
        23 => Field::Style(StyleKey::Padding),
        24 => Field::Style(StyleKey::PaddingTop),
        25 => Field::Style(StyleKey::PaddingLeft),
        26 => Field::Style(StyleKey::PaddingRight),
        27 => Field::Style(StyleKey::PaddingBottom),
        28 => Field::Style(StyleKey::WordBreak),
        29 => Field::Style(StyleKey::WhiteSpace),
        30 => Field::Style(StyleKey::Cursor),
        31 => Field::Style(StyleKey::ListStyleType),
        _ => Field::Style(StyleKey::FontStyle),
    }
}

proof fn lemma_style_member_index(i: int)
    requires
        0 <= i < 32,
    ensures
        style_member_index(style_member_at(i)) == i,
{
}

impl Members for StructuredContentStyle {
    open spec fn members() -> Seq<Field> {
        Seq::new(32, |i: int| style_member_at(i))
    }

    open spec fn has(self, f: Field) -> bool {
        match f {
            Field::Style(StyleKey::FontStyle) => self.font_style is Some,
            Field::Style(StyleKey::FontWeight) => self.font_weight is Some,
            Field::Style(StyleKey::FontSize) => self.font_size is Some,
            Field::Style(StyleKey::Color) => self.color is Some,
            Field::Style(StyleKey::Background) => self.background is Some,
            Field::Style(StyleKey::BackgroundColor) => self.background_color is Some,
            Field::Style(StyleKey::TextDecorationLine) => self.text_decoration_line is Some,
            Field::Style(StyleKey::TextDecorationStyle) => self.text_decoration_style is Some,
            Field::Style(StyleKey::TextDecorationColor) => self.text_decoration_color is Some,
            Field::Style(StyleKey::BorderColor) => self.border_color is Some,
            Field::Style(StyleKey::BorderStyle) => self.border_style is Some,
            Field::Style(StyleKey::BorderRadius) => self.border_radius is Some,
            Field::Style(StyleKey::BorderWidth) => self.border_width is Some,
            Field::Style(StyleKey::ClipPath) => self.clip_path is Some,
            Field::Style(StyleKey::VerticalAlign) => self.vertical_align is Some,
            Field::Style(StyleKey::TextAlign) => self.text_align is Some,
            Field::Style(StyleKey::TextEmphasis) => self.text_emphasis is Some,
            Field::Style(StyleKey::TextShadow) => self.text_shadow is Some,
            Field::Style(StyleKey::Margin) => self.margin is Some,
            Field::Style(StyleKey::MarginTop) => self.margin_top is Some,
            Field::Style(StyleKey::MarginLeft) => self.margin_left is Some,
            Field::Style(StyleKey::MarginRight) => self.margin_right is Some,
            Field::Style(StyleKey::MarginBottom) => self.margin_bottom is Some,
            Field::Style(StyleKey::Padding) => self.padding is Some,
            Field::Style(StyleKey::PaddingTop) => self.padding_top is Some,
            Field::Style(StyleKey::PaddingLeft) => self.padding_left is Some,
            Field::Style(StyleKey::PaddingRight) => self.padding_right is Some,
            Field::Style(StyleKey::PaddingBottom) => self.padding_bottom is Some,
            Field::Style(StyleKey::WordBreak) => self.word_break is Some,
            Field::Style(StyleKey::WhiteSpace) => self.white_space is Some,
            Field::Style(StyleKey::Cursor) => self.cursor is Some,
            Field::Style(StyleKey::ListStyleType) => self.list_style_type is Some,
            _ => false,
        }
    }

    open spec fn member_encodes(self, f: Field, v: JsonValue) -> bool {
        match f {
            Field::Style(StyleKey::FontStyle) => self.font_style matches Some(x) && x.encodes_to(v),
            Field::Style(StyleKey::FontWeight) => self.font_weight matches Some(x) && x.encodes_to(v),
            Field::Style(StyleKey::FontSize) => self.font_size matches Some(x) && x.encodes_to(v),
            Field::Style(StyleKey::Color) => self.color matches Some(x) && x.encodes_to(v),
            Field::Style(StyleKey::Background) => self.background matches Some(x) && x.encodes_to(v),
            Field::Style(StyleKey::BackgroundColor) => self.background_color matches Some(x) && x.encodes_to(v),
            Field::Style(StyleKey::TextDecorationLine) => self.text_decoration_line matches Some(x) && x.encodes_to(v),
            Field::Style(StyleKey::TextDecorationStyle) => self.text_decoration_style matches Some(x) && x.encodes_to(v),
            Field::Style(StyleKey::TextDecorationColor) => self.text_decoration_color matches Some(x) && x.encodes_to(v),
            Field::Style(StyleKey::BorderColor) => self.border_color matches Some(x) && x.encodes_to(v),
            Field::Style(StyleKey::BorderStyle) => self.border_style matches Some(x) && x.encodes_to(v),
            Field::Style(StyleKey::BorderRadius) => self.border_radius matches Some(x) && x.encodes_to(v),
            Field::Style(StyleKey::BorderWidth) => self.border_width matches Some(x) && x.encodes_to(v),
            Field::Style(StyleKey::ClipPath) => self.clip_path matches Some(x) && x.encodes_to(v),
            Field::Style(StyleKey::VerticalAlign) => self.vertical_align matches Some(x) && x.encodes_to(v),
            Field::Style(StyleKey::TextAlign) => self.text_align matches Some(x) && x.encodes_to(v),
            Field::Style(StyleKey::TextEmphasis) => self.text_emphasis matches Some(x) && x.encodes_to(v),
            Field::Style(StyleKey::TextShadow) => self.text_shadow matches Some(x) && x.encodes_to(v),
            Field::Style(StyleKey::Margin) => self.margin matches Some(x) && x.encodes_to(v),
            Field::Style(StyleKey::MarginTop) => self.margin_top matches Some(x) && x.encodes_to(v),
            Field::Style(StyleKey::MarginLeft) => self.margin_left matches Some(x) && x.encodes_to(v),
            Field::Style(StyleKey::MarginRight) => self.margin_right matches Some(x) && x.encodes_to(v),
            Field::Style(StyleKey::MarginBottom) => self.margin_bottom matches Some(x) && x.encodes_to(v),
            Field::Style(StyleKey::Padding) => self.padding matches Some(x) && x.encodes_to(v),
            Field::Style(StyleKey::PaddingTop) => self.padding_top matches Some(x) && x.encodes_to(v),
            Field::Style(StyleKey::PaddingLeft) => self.padding_left matches Some(x) && x.encodes_to(v),
            Field::Style(StyleKey::PaddingRight) => self.padding_right matches Some(x) && x.encodes_to(v),
            Field::Style(StyleKey::PaddingBottom) => self.padding_bottom matches Some(x) && x.encodes_to(v),
            Field::Style(StyleKey::WordBreak) => self.word_break matches Some(x) && x.encodes_to(v),
            Field::Style(StyleKey::WhiteSpace) => self.white_space matches Some(x) && x.encodes_to(v),
            Field::Style(StyleKey::Cursor) => self.cursor matches Some(x) && x.encodes_to(v),
            Field::Style(StyleKey::ListStyleType) => self.list_style_type matches Some(x) && x.encodes_to(v),
            _ => false,
        }
    }

    open spec fn member_decodes(self, es: Seq<(String, JsonValue)>, f: Field) -> bool {
        match f {
            Field::Style(StyleKey::FontStyle) => member_decodes_to(es, f, self.font_style),
            Field::Style(StyleKey::FontWeight) => member_decodes_to(es, f, self.font_weight),
            Field::Style(StyleKey::FontSize) => member_decodes_to(es, f, self.font_size),
            Field::Style(StyleKey::Color) => member_decodes_to(es, f, self.color),
            Field::Style(StyleKey::Background) => member_decodes_to(es, f, self.background),
            Field::Style(StyleKey::BackgroundColor) => member_decodes_to(es, f, self.background_color),
            Field::Style(StyleKey::TextDecorationLine) => member_decodes_to(es, f, self.text_decoration_line),
            Field::Style(StyleKey::TextDecorationStyle) => member_decodes_to(es, f, self.text_decoration_style),
            Field::Style(StyleKey::TextDecorationColor) => member_decodes_to(es, f, self.text_decoration_color),
            Field::Style(StyleKey::BorderColor) => member_decodes_to(es, f, self.border_color),
            Field::Style(StyleKey::BorderStyle) => member_decodes_to(es, f, self.border_style),
            Field::Style(StyleKey::BorderRadius) => member_decodes_to(es, f, self.border_radius),
            Field::Style(StyleKey::BorderWidth) => member_decodes_to(es, f, self.border_width),
            Field::Style(StyleKey::ClipPath) => member_decodes_to(es, f, self.clip_path),
            Field::Style(StyleKey::VerticalAlign) => member_decodes_to(es, f, self.vertical_align),
            Field::Style(StyleKey::TextAlign) => member_decodes_to(es, f, self.text_align),
            Field::Style(StyleKey::TextEmphasis) => member_decodes_to(es, f, self.text_emphasis),
            Field::Style(StyleKey::TextShadow) => member_decodes_to(es, f, self.text_shadow),
            Field::Style(StyleKey::Margin) => member_decodes_to(es, f, self.margin),
            Field::Style(StyleKey::MarginTop) => member_decodes_to(es, f, self.margin_top),
            Field::Style(StyleKey::MarginLeft) => member_decodes_to(es, f, self.margin_left),
            Field::Style(StyleKey::MarginRight) => member_decodes_to(es, f, self.margin_right),
            Field::Style(StyleKey::MarginBottom) => member_decodes_to(es, f, self.margin_bottom),
            Field::Style(StyleKey::Padding) => member_decodes_to(es, f, self.padding),
            Field::Style(StyleKey::PaddingTop) => member_decodes_to(es, f, self.padding_top),
            Field::Style(StyleKey::PaddingLeft) => member_decodes_to(es, f, self.padding_left),
            Field::Style(StyleKey::PaddingRight) => member_decodes_to(es, f, self.padding_right),
            Field::Style(StyleKey::PaddingBottom) => member_decodes_to(es, f, self.padding_bottom),
            Field::Style(StyleKey::WordBreak) => member_decodes_to(es, f, self.word_break),
            Field::Style(StyleKey::WhiteSpace) => member_decodes_to(es, f, self.white_space),
            Field::Style(StyleKey::Cursor) => member_decodes_to(es, f, self.cursor),
            Field::Style(StyleKey::ListStyleType) => member_decodes_to(es, f, self.list_style_type),
            _ => true,
        }
    }

    open spec fn member_failure(es: Seq<(String, JsonValue)>, f: Field) -> Option<Failure> {
        match f {
            Field::Style(StyleKey::FontStyle) => member_failure::<FontStyle>(es, f),
            Field::Style(StyleKey::FontWeight) => member_failure::<FontWeight>(es, f),
            Field::Style(StyleKey::FontSize) => member_failure::<String>(es, f),
            Field::Style(StyleKey::Color) => member_failure::<String>(es, f),
            Field::Style(StyleKey::Background) => member_failure::<String>(es, f),
            Field::Style(StyleKey::BackgroundColor) => member_failure::<String>(es, f),
            Field::Style(StyleKey::TextDecorationLine) => member_failure::<TextDecorationLine>(es, f),
            Field::Style(StyleKey::TextDecorationStyle) => member_failure::<TextDecorationStyle>(es, f),
            Field::Style(StyleKey::TextDecorationColor) => member_failure::<String>(es, f),
            Field::Style(StyleKey::BorderColor) => member_failure::<String>(es, f),
            Field::Style(StyleKey::BorderStyle) => member_failure::<String>(es, f),
            Field::Style(StyleKey::BorderRadius) => member_failure::<String>(es, f),
            Field::Style(StyleKey::BorderWidth) => member_failure::<String>(es, f),
            Field::Style(StyleKey::ClipPath) => member_failure::<String>(es, f),
            Field::Style(StyleKey::VerticalAlign) => member_failure::<VerticalAlign>(es, f),
            Field::Style(StyleKey::TextAlign) => member_failure::<TextAlign>(es, f),
            Field::Style(StyleKey::TextEmphasis) => member_failure::<String>(es, f),
            Field::Style(StyleKey::TextShadow) => member_failure::<String>(es, f),
            Field::Style(StyleKey::Margin) => member_failure::<String>(es, f),
            Field::Style(StyleKey::MarginTop) => member_failure::<String>(es, f),
            Field::Style(StyleKey::MarginLeft) => member_failure::<String>(es, f),
            Field::Style(StyleKey::MarginRight) => member_failure::<String>(es, f),
            Field::Style(StyleKey::MarginBottom) => member_failure::<String>(es, f),
            Field::Style(StyleKey::Padding) => member_failure::<String>(es, f),
            Field::Style(StyleKey::PaddingTop) => member_failure::<String>(es, f),
            Field::Style(StyleKey::PaddingLeft) => member_failure::<String>(es, f),
            Field::Style(StyleKey::PaddingRight) => member_failure::<String>(es, f),
            Field::Style(StyleKey::PaddingBottom) => member_failure::<String>(es, f),
            Field::Style(StyleKey::WordBreak) => member_failure::<WordBreak>(es, f),
            Field::Style(StyleKey::WhiteSpace) => member_failure::<String>(es, f),
            Field::Style(StyleKey::Cursor) => member_failure::<String>(es, f),
            Field::Style(StyleKey::ListStyleType) => member_failure::<String>(es, f),
            _ => None,
        }
    }

    proof fn lemma_member_round_trip(self, es: Seq<(String, JsonValue)>, f: Field) {
        if self.has(f) {
            let j = choose|j: int| 0 <= j < es.len() && find_key(es, f.spec_name()) == Some(j) && self.member_encodes(f, #[trigger] es[j].1);
            match f {
                Field::Style(StyleKey::FontStyle) => self.font_style.unwrap().lemma_round_trip(es[j].1, f),
                Field::Style(StyleKey::FontWeight) => self.font_weight.unwrap().lemma_round_trip(es[j].1, f),
                Field::Style(StyleKey::FontSize) => self.font_size.unwrap().lemma_round_trip(es[j].1, f),
                Field::Style(StyleKey::Color) => self.color.unwrap().lemma_round_trip(es[j].1, f),
                Field::Style(StyleKey::Background) => self.background.unwrap().lemma_round_trip(es[j].1, f),
                Field::Style(StyleKey::BackgroundColor) => self.background_color.unwrap().lemma_round_trip(es[j].1, f),
                Field::Style(StyleKey::TextDecorationLine) => self.text_decoration_line.unwrap().lemma_round_trip(es[j].1, f),
                Field::Style(StyleKey::TextDecorationStyle) => self.text_decoration_style.unwrap().lemma_round_trip(es[j].1, f),
                Field::Style(StyleKey::TextDecorationColor) => self.text_decoration_color.unwrap().lemma_round_trip(es[j].1, f),
                Field::Style(StyleKey::BorderColor) => self.border_color.unwrap().lemma_round_trip(es[j].1, f),
                Field::Style(StyleKey::BorderStyle) => self.border_style.unwrap().lemma_round_trip(es[j].1, f),
                Field::Style(StyleKey::BorderRadius) => self.border_radius.unwrap().lemma_round_trip(es[j].1, f),
                Field::Style(StyleKey::BorderWidth) => self.border_width.unwrap().lemma_round_trip(es[j].1, f),
                Field::Style(StyleKey::ClipPath) => self.clip_path.unwrap().lemma_round_trip(es[j].1, f),
                Field::Style(StyleKey::VerticalAlign) => self.vertical_align.unwrap().lemma_round_trip(es[j].1, f),
                Field::Style(StyleKey::TextAlign) => self.text_align.unwrap().lemma_round_trip(es[j].1, f),
                Field::Style(StyleKey::TextEmphasis) => self.text_emphasis.unwrap().lemma_round_trip(es[j].1, f),
                Field::Style(StyleKey::TextShadow) => self.text_shadow.unwrap().lemma_round_trip(es[j].1, f),
                Field::Style(StyleKey::Margin) => self.margin.unwrap().lemma_round_trip(es[j].1, f),
                Field::Style(StyleKey::MarginTop) => self.margin_top.unwrap().lemma_round_trip(es[j].1, f),
                Field::Style(StyleKey::MarginLeft) => self.margin_left.unwrap().lemma_round_trip(es[j].1, f),
                Field::Style(StyleKey::MarginRight) => self.margin_right.unwrap().lemma_round_trip(es[j].1, f),
                Field::Style(StyleKey::MarginBottom) => self.margin_bottom.unwrap().lemma_round_trip(es[j].1, f),
                Field::Style(StyleKey::Padding) => self.padding.unwrap().lemma_round_trip(es[j].1, f),
                Field::Style(StyleKey::PaddingTop) => self.padding_top.unwrap().lemma_round_trip(es[j].1, f),
                Field::Style(StyleKey::PaddingLeft) => self.padding_left.unwrap().lemma_round_trip(es[j].1, f),
                Field::Style(StyleKey::PaddingRight) => self.padding_right.unwrap().lemma_round_trip(es[j].1, f),
                Field::Style(StyleKey::PaddingBottom) => self.padding_bottom.unwrap().lemma_round_trip(es[j].1, f),
                Field::Style(StyleKey::WordBreak) => self.word_break.unwrap().lemma_round_trip(es[j].1, f),
                Field::Style(StyleKey::WhiteSpace) => self.white_space.unwrap().lemma_round_trip(es[j].1, f),
                Field::Style(StyleKey::Cursor) => self.cursor.unwrap().lemma_round_trip(es[j].1, f),
                Field::Style(StyleKey::ListStyleType) => self.list_style_type.unwrap().lemma_round_trip(es[j].1, f),
                _ => {},
            }
        }
    }
}

/// No two members of `StructuredContentStyle` are spelled alike.
pub proof fn lemma_style_names_distinct()
    ensures
        distinct_names(StructuredContentStyle::members()),
{
    let m = StructuredContentStyle::members();
    assert forall|i: int, j: int| 0 <= i < j < m.len() implies (#[trigger] m[i]).spec_name() != (#[trigger] m[j]).spec_name() by {
        lemma_style_member_index(i);
        lemma_style_member_index(j);
        lemma_field_names_injective(m[i], m[j]);
    }
}

/// Decodes the members of a `StructuredContentStyle` from the members `es` of an object.
fn decode_style_members(es: &Vec<(String, JsonValue)>) -> (r: Result<StructuredContentStyle, DecodeError>)
    ensures
        match r {
            Ok(x) => failure_from::<StructuredContentStyle>(es@, StructuredContentStyle::members(), 0) is None && decodes_members(x, es@),
            Err(e) => failure_from::<StructuredContentStyle>(es@, StructuredContentStyle::members(), 0) == Some(e@),
        },
{
    let mut out = StructuredContentStyle::blank();
    let mut i: usize = 0;
    while i < 32
        invariant
            i <= 32,
            failure_from::<StructuredContentStyle>(es@, StructuredContentStyle::members(), 0) == failure_from::<StructuredContentStyle>(es@, StructuredContentStyle::members(), i as int),
            forall|j: int| 0 <= j < i ==> #[trigger] out.member_decodes(es@, style_member_at(j)),
        decreases 32 - i,
    {
        let f = style_member_at_exec(i);
        assert(StructuredContentStyle::members()[i as int] == f);
        let ghost before = out;
        match i {
            0 => {
                out.font_style = match decode_member::<FontStyle>(es, f) {
                    Ok(x) => x,
                    Err(e) => return Err(e),
                };
            },
            1 => {
                out.font_weight = match decode_member::<FontWeight>(es, f) {
                    Ok(x) => x,
                    Err(e) => return Err(e),
                };
            },
            2 => {
                out.font_size = match decode_member::<String>(es, f) {
                    Ok(x) => x,
                    Err(e) => return Err(e),
                };
            },
            3 => {
                out.color = match decode_member::<String>(es, f) {
                    Ok(x) => x,
                    Err(e) => return Err(e),
                };
            },
            4 => {
                out.background = match decode_member::<String>(es, f) {
                    Ok(x) => x,
                    Err(e) => return Err(e),
                };
            },
            5 => {
                out.background_color = match decode_member::<String>(es, f) {
                    Ok(x) => x,
                    Err(e) => return Err(e),
                };
            },
            6 => {
                out.text_decoration_line = match decode_member::<TextDecorationLine>(es, f) {
                    Ok(x) => x,
                    Err(e) => return Err(e),
                };
            },
            7 => {
                out.text_decoration_style = match decode_member::<TextDecorationStyle>(es, f) {
                    Ok(x) => x,
                    Err(e) => return Err(e),
                };
            },
            8 => {
                out.text_decoration_color = match decode_member::<String>(es, f) {
                    Ok(x) => x,
                    Err(e) => return Err(e),
                };
            },
            9 => {
                out.border_color = match decode_member::<String>(es, f) {
                    Ok(x) => x,
                    Err(e) => return Err(e),
                };
            },
            10 => {
                out.border_style = match decode_member::<String>(es, f) {
                    Ok(x) => x,
                    Err(e) => return Err(e),
                };
            },
            11 => {
                out.border_radius = match decode_member::<String>(es, f) {
                    Ok(x) => x,
                    Err(e) => return Err(e),
                };
            },
            12 => {
                out.border_width = match decode_member::<String>(es, f) {
                    Ok(x) => x,
                    Err(e) => return Err(e),
                };
            },
            13 => {
                out.clip_path = match decode_member::<String>(es, f) {
                    Ok(x) => x,
                    Err(e) => return Err(e),
                };
            },
            14 => {
                out.vertical_align = match decode_member::<VerticalAlign>(es, f) {
                    Ok(x) => x,
                    Err(e) => return Err(e),
                };
            },
            15 => {
                out.text_align = match decode_member::<TextAlign>(es, f) {
                    Ok(x) => x,
                    Err(e) => return Err(e),
                };
            },
            16 => {
                out.text_emphasis = match decode_member::<String>(es, f) {
                    Ok(x) => x,
                    Err(e) => return Err(e),
                };
            },
            17 => {
                out.text_shadow = match decode_member::<String>(es, f) {
                    Ok(x) => x,
                    Err(e) => return Err(e),
                };
            },
            18 => {
                out.margin = match decode_member::<String>(es, f) {
                    Ok(x) => x,
                    Err(e) => return Err(e),
                };
            },
            19 => {
                out.margin_top = match decode_member::<String>(es, f) {
                    Ok(x) => x,
                    Err(e) => return Err(e),
                };
            },
            20 => {
                out.margin_left = match decode_member::<String>(es, f) {
                    Ok(x) => x,
                    Err(e) => return Err(e),
                };
            },
            21 => {
                out.margin_right = match decode_member::<String>(es, f) {
                    Ok(x) => x,
                    Err(e) => return Err(e),
                };
            },
            22 => {
                out.margin_bottom = match decode_member::<String>(es, f) {
                    Ok(x) => x,
                    Err(e) => return Err(e),
                };
            },
            23 => {
                out.padding = match decode_member::<String>(es, f) {
                    Ok(x) => x,
                    Err(e) => return Err(e),
                };
            },
            24 => {
                out.padding_top = match decode_member::<String>(es, f) {
                    Ok(x) => x,
                    Err(e) => return Err(e),
                };
            },
            25 => {
                out.padding_left = match decode_member::<String>(es, f) {
                    Ok(x) => x,
                    Err(e) => return Err(e),
                };
            },
            26 => {
                out.padding_right = match decode_member::<String>(es, f) {
                    Ok(x) => x,
                    Err(e) => return Err(e),
                };
            },
            27 => {
                out.padding_bottom = match decode_member::<String>(es, f) {
                    Ok(x) => x,
                    Err(e) => return Err(e),
                };
            },
            28 => {
                out.word_break = match decode_member::<WordBreak>(es, f) {
                    Ok(x) => x,
                    Err(e) => return Err(e),
                };
            },
            29 => {
                out.white_space = match decode_member::<String>(es, f) {
                    Ok(x) => x,
                    Err(e) => return Err(e),
                };
            },
            30 => {
                out.cursor = match decode_member::<String>(es, f) {
                    Ok(x) => x,
                    Err(e) => return Err(e),
                };
            },
            31 => {
                out.list_style_type = match decode_member::<String>(es, f) {
                    Ok(x) => x,
                    Err(e) => return Err(e),
                };
            },
            _ => {},
        }
        assert forall|j: int| 0 <= j < i + 1 implies #[trigger] out.member_decodes(es@, style_member_at(j)) by {
            if j < i {
                lemma_style_member_index(j);
                lemma_style_member_index(i as int);
                assert(before.member_decodes(es@, style_member_at(j)));
            }
        }
        i = i + 1;
    }
    assert forall|f: Field| StructuredContentStyle::members().contains(f) implies #[trigger] out.member_decodes(es@, f) by {
        let j = choose|j: int| 0 <= j < 32 && StructuredContentStyle::members()[j] == f;
    }
    Ok(out)
}

/// Encodes the members of a `StructuredContentStyle`, in canonical order.
fn encode_style_members(x: &StructuredContentStyle, es: &mut Vec<(String, JsonValue)>)
    requires
        old(es)@.len() == 0,
    ensures
        encodes_members(*x, final(es)@),
{
    let mut i: usize = 0;
    while i < 32
        invariant
            i <= 32,
            encodes_members_prefix(*x, es@, StructuredContentStyle::members(), i as int),
        decreases 32 - i,
    {
        let f = style_member_at_exec(i);
        assert(StructuredContentStyle::members()[i as int] == f);
        proof { lemma_present_step(*x, StructuredContentStyle::members(), i as int); }
        let ghost before = es@;
        match i {
            0 => push_member(es, f, &x.font_style),
            1 => push_member(es, f, &x.font_weight),
            2 => push_member(es, f, &x.font_size),
            3 => push_member(es, f, &x.color),
            4 => push_member(es, f, &x.background),
            5 => push_member(es, f, &x.background_color),
            6 => push_member(es, f, &x.text_decoration_line),
            7 => push_member(es, f, &x.text_decoration_style),
            8 => push_member(es, f, &x.text_decoration_color),
            9 => push_member(es, f, &x.border_color),
            10 => push_member(es, f, &x.border_style),
            11 => push_member(es, f, &x.border_radius),
            12 => push_member(es, f, &x.border_width),
            13 => push_member(es, f, &x.clip_path),
            14 => push_member(es, f, &x.vertical_align),
            15 => push_member(es, f, &x.text_align),
            16 => push_member(es, f, &x.text_emphasis),
            17 => push_member(es, f, &x.text_shadow),
            18 => push_member(es, f, &x.margin),
            19 => push_member(es, f, &x.margin_top),
            20 => push_member(es, f, &x.margin_left),
            21 => push_member(es, f, &x.margin_right),
            22 => push_member(es, f, &x.margin_bottom),
            23 => push_member(es, f, &x.padding),
            24 => push_member(es, f, &x.padding_top),
            25 => push_member(es, f, &x.padding_left),
            26 => push_member(es, f, &x.padding_right),
            27 => push_member(es, f, &x.padding_bottom),
            28 => push_member(es, f, &x.word_break),
            29 => push_member(es, f, &x.white_space),
            30 => push_member(es, f, &x.cursor),
            31 => push_member(es, f, &x.list_style_type),
            _ => {},
        }
        proof { lemma_prefix_extend(*x, before, es@, StructuredContentStyle::members(), i as int); }
        i = i + 1;
    }
    proof { lemma_prefix_complete(*x, es@, StructuredContentStyle::members()); }
}

impl Wire for StructuredContentStyle {
    open spec fn decodes_to(v: JsonValue, out: StructuredContentStyle) -> bool {
        v matches JsonValue::Object(es) && decodes_members(out, es@)
    }

    open spec fn decode_failure(v: JsonValue, field: Field) -> Option<Failure> {
        match v {
            JsonValue::Object(es) => failure_from::<StructuredContentStyle>(es@, StructuredContentStyle::members(), 0),
            _ => Some(shape_failure(Shape::Object, v)),
        }
    }

    open spec fn encodes_to(self, v: JsonValue) -> bool {
        v matches JsonValue::Object(es) && encodes_members(self, es@)
    }

    open spec fn well_formed(self) -> bool {
        true
    }

    fn decode(v: &JsonValue, field: Field) -> (r: Result<StructuredContentStyle, DecodeError>) {
        match v {
            JsonValue::Object(es) => decode_style_members(es),
            _ => Err(DecodeError::here(ErrorKind::InvalidShape { expected: Shape::Object, actual: v.shape() })),
        }
    }

    fn encode(&self) -> (r: JsonValue) {
        let mut es: Vec<(String, JsonValue)> = Vec::new();
        encode_style_members(self, &mut es);
        JsonValue::Object(es)
    }

    proof fn lemma_round_trip(self, v: JsonValue, field: Field) {
        lemma_style_names_distinct();
        let es = v->Object_0@;
        lemma_encoded_lookups(self, es);
        lemma_members_round_trip(self, es);
    }
}

} // verus!
