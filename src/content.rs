//! Structured content: the recursive rich-text tree embedded in term glosses,
//! its element categories, and its codec.

use vstd::prelude::*;
use crate::error::{DecodeError, ErrorKind, Failure, Field, Segment, either, failure_below, failure_here, lemma_field_names_injective};
use crate::json::{JsonValue, Shape, find_key, find_member, lemma_find_key_bounds, lemma_find_key_only};
use crate::keys::Key;
use crate::members::{Members, decodes_members, distinct_names, encodes_members, encodes_members_prefix, failure_from, lemma_encoded_lookups, lemma_find_key_absent, lemma_lookups_frame, lemma_members_round_trip, lemma_prefix_complete, lemma_prefix_extend, lemma_present_in, lemma_present_step, lookups_match, present_in};
use crate::style::{ImageAppearance, ImageRendering, SizeUnit, StructuredContentStyle, VerticalAlign};
use crate::text::{char_matches_folded, matches_folded, owned, str_matches_folded};
use crate::wire::{Wire, decode_member, decode_required, member_decodes_to, member_failure, push_member, push_required, required_decodes_to, required_failure, shape_failure};

verus! {

/// The deepest nesting of structured content that the decoder accepts; each
/// node, text or element or list, takes one level.
pub const MAX_DEPTH: usize = 64;

/// A free-form map of custom data attributes, in document order.
pub type StructuredContentData = Vec<(String, String)>;

/// The first member of `es` from position `i` on whose value is not a string.
pub open spec fn first_non_text(es: Seq<(String, JsonValue)>, i: int) -> Option<int>
    decreases es.len() - i,
{
    if i < 0 || i >= es.len() {
        None
    } else if !(es[i].1 is Text) {
        Some(i)
    } else {
        first_non_text(es, i + 1)
    }
}

proof fn lemma_first_non_text_none(es: Seq<(String, JsonValue)>, i: int)
    requires
        0 <= i,
        forall|k: int| i <= k < es.len() ==> (#[trigger] es[k]).1 is Text,
    ensures
        first_non_text(es, i) is None,
    decreases es.len() - i,
{
    if i < es.len() {
        lemma_first_non_text_none(es, i + 1);
    }
}

impl Wire for Vec<(String, String)> {
    open spec fn decodes_to(v: JsonValue, out: Vec<(String, String)>) -> bool {
        v matches JsonValue::Object(es) && out@.len() == es@.len() && forall|i: int|
            0 <= i < es@.len() ==> (#[trigger] out@[i]).0 == es@[i].0 && es@[i].1 == JsonValue::Text(out@[i].1)
    }

    open spec fn decode_failure(v: JsonValue, field: Field) -> Option<Failure> {
        match v {
            JsonValue::Object(es) => match first_non_text(es@, 0) {
                None => None,
                Some(k) => Some(failure_below(Segment::Entry(es@[k].0), shape_failure(Shape::Text, es@[k].1))),
            },
            _ => Some(shape_failure(Shape::Object, v)),
        }
    }

    open spec fn encodes_to(self, v: JsonValue) -> bool {
        Self::decodes_to(v, self)
    }

    open spec fn well_formed(self) -> bool {
        true
    }

    fn decode(v: &JsonValue, field: Field) -> (r: Result<Vec<(String, String)>, DecodeError>) {
        match v {
            JsonValue::Object(es) => {
                let mut out: Vec<(String, String)> = Vec::new();
                let mut i: usize = 0;
                while i < es.len()
                    invariant
                        *v == JsonValue::Object(*es),
                        i <= es@.len(),
                        out@.len() == i,
                        first_non_text(es@, 0) == first_non_text(es@, i as int),
                        forall|k: int| 0 <= k < i ==> (#[trigger] out@[k]).0 == es@[k].0 && es@[k].1 == JsonValue::Text(out@[k].1),
                    decreases es@.len() - i,
                {
                    match &es[i].1 {
                        JsonValue::Text(s) => {
                            out.push((es[i].0.clone(), s.clone()));
                        },
                        other => {
                            let e = DecodeError::here(ErrorKind::InvalidShape { expected: Shape::Text, actual: other.shape() });
                            return Err(e.below(Segment::Entry(es[i].0.clone())));
                        },
                    }
                    i = i + 1;
                }
                Ok(out)
            },
            _ => Err(DecodeError::here(ErrorKind::InvalidShape { expected: Shape::Object, actual: v.shape() })),
        }
    }

    fn encode(&self) -> (r: JsonValue) {
        let mut es: Vec<(String, JsonValue)> = Vec::new();
        let mut i: usize = 0;
        while i < self.len()
            invariant
                i <= self@.len(),
                es@.len() == i,
                forall|k: int| 0 <= k < i ==> (#[trigger] self@[k]).0 == es@[k].0 && es@[k].1 == JsonValue::Text(self@[k].1),
            decreases self@.len() - i,
        {
            es.push((self[i].0.clone(), JsonValue::Text(self[i].1.clone())));
            i = i + 1;
        }
        JsonValue::Object(es)
    }

    proof fn lemma_round_trip(self, v: JsonValue, field: Field) {
        let es = v->Object_0@;
        assert forall|k: int| 0 <= k < es.len() implies (#[trigger] es[k]).1 is Text by {
            assert(self@[k].0 == es[k].0);
        }
        lemma_first_non_text_none(es, 0);
    }
}

/// The tags of the line-break category.
#[derive(Clone, Copy, Debug, PartialEq, Eq, Structural)]
pub enum LineBreakElementTag {
    Br,
}

impl LineBreakElementTag {
    /// The spelling of this value on the wire.
    pub open spec fn spec_name(self) -> Seq<char> {
        match self {
            LineBreakElementTag::Br => "br"@,
        }
    }

    /// The value spelled `s`, ignoring the case of ASCII letters.
    pub open spec fn spec_from_name(s: Seq<char>) -> Option<LineBreakElementTag> {
        if matches_folded(s, "br"@) {
            Some(LineBreakElementTag::Br)
        } else {
            None
        }
    }

    /// The spelling of this value on the wire.
    pub fn name(self) -> (r: &'static str)
        ensures
            r@ == self.spec_name(),
    {
        match self {
            LineBreakElementTag::Br => "br",
        }
    }

    /// The value spelled `s`, ignoring the case of ASCII letters.
    pub fn from_name(s: &str) -> (r: Option<LineBreakElementTag>)
        ensures
            r == Self::spec_from_name(s@),
    {
        if str_matches_folded(s, "br") {
            Some(LineBreakElementTag::Br)
        } else {
            None
        }
    }

    /// Reading back the spelling of a value gives that value.
    pub proof fn lemma_name_round_trip(self)
        ensures
            Self::spec_from_name(self.spec_name()) == Some(self),
    {
        reveal_strlit("br");
        assert("br"@.len() == 2 && "br"@[0] == 'b' && "br"@[1] == 'r');
        let n = self.spec_name();
        assert(forall|i: int| 0 <= i < n.len() ==> char_matches_folded(#[trigger] n[i], n[i]));
    }
}

/// The tags of the unstyled category.
#[derive(Clone, Copy, Debug, PartialEq, Eq, Structural)]
pub enum UnstyledElementTag {
    Ruby,
    Rt,
    Rp,
    Table,
    Thead,
    Tbody,
    Tfoot,
    Tr,
}

impl UnstyledElementTag {
    /// The spelling of this value on the wire.
    pub open spec fn spec_name(self) -> Seq<char> {
        match self {
            UnstyledElementTag::Ruby => "ruby"@,
            UnstyledElementTag::Rt => "rt"@,
            UnstyledElementTag::Rp => "rp"@,
            UnstyledElementTag::Table => "table"@,
            UnstyledElementTag::Thead => "thead"@,
            UnstyledElementTag::Tbody => "tbody"@,
            UnstyledElementTag::Tfoot => "tfoot"@,
            UnstyledElementTag::Tr => "tr"@,
        }
    }

    /// The value spelled `s`, ignoring the case of ASCII letters.
    pub open spec fn spec_from_name(s: Seq<char>) -> Option<UnstyledElementTag> {
        if matches_folded(s, "ruby"@) {
            Some(UnstyledElementTag::Ruby)
        } else if matches_folded(s, "rt"@) {
            Some(UnstyledElementTag::Rt)
        } else if matches_folded(s, "rp"@) {
            Some(UnstyledElementTag::Rp)
        } else if matches_folded(s, "table"@) {
            Some(UnstyledElementTag::Table)
        } else if matches_folded(s, "thead"@) {
            Some(UnstyledElementTag::Thead)
        } else if matches_folded(s, "tbody"@) {
            Some(UnstyledElementTag::Tbody)
        } else if matches_folded(s, "tfoot"@) {
            Some(UnstyledElementTag::Tfoot)
        } else if matches_folded(s, "tr"@) {
            Some(UnstyledElementTag::Tr)
        } else {
            None
        }
    }

    /// The spelling of this value on the wire.
    pub fn name(self) -> (r: &'static str)
        ensures
            r@ == self.spec_name(),
    {
        match self {
            UnstyledElementTag::Ruby => "ruby",
            UnstyledElementTag::Rt => "rt",
            UnstyledElementTag::Rp => "rp",
            UnstyledElementTag::Table => "table",
            UnstyledElementTag::Thead => "thead",
            UnstyledElementTag::Tbody => "tbody",
            UnstyledElementTag::Tfoot => "tfoot",
            UnstyledElementTag::Tr => "tr",
        }
    }

    /// The value spelled `s`, ignoring the case of ASCII letters.
    pub fn from_name(s: &str) -> (r: Option<UnstyledElementTag>)
        ensures
            r == Self::spec_from_name(s@),
    {
        if str_matches_folded(s, "ruby") {
            Some(UnstyledElementTag::Ruby)
        } else if str_matches_folded(s, "rt") {
            Some(UnstyledElementTag::Rt)
        } else if str_matches_folded(s, "rp") {
            Some(UnstyledElementTag::Rp)
        } else if str_matches_folded(s, "table") {
            Some(UnstyledElementTag::Table)
        } else if str_matches_folded(s, "thead") {
            Some(UnstyledElementTag::Thead)
        } else if str_matches_folded(s, "tbody") {
            Some(UnstyledElementTag::Tbody)
        } else if str_matches_folded(s, "tfoot") {
            Some(UnstyledElementTag::Tfoot)
        } else if str_matches_folded(s, "tr") {
            Some(UnstyledElementTag::Tr)
        } else {
            None
        }
    }

    /// Reading back the spelling of a value gives that value.
    pub proof fn lemma_name_round_trip(self)
        ensures
            Self::spec_from_name(self.spec_name()) == Some(self),
    {
        reveal_strlit("ruby");
        assert("ruby"@.len() == 4 && "ruby"@[0] == 'r' && "ruby"@[1] == 'u' && "ruby"@[2] == 'b' && "ruby"@[3] == 'y');
        reveal_strlit("rt");
        assert("rt"@.len() == 2 && "rt"@[0] == 'r' && "rt"@[1] == 't');
        reveal_strlit("rp");
        assert("rp"@.len() == 2 && "rp"@[0] == 'r' && "rp"@[1] == 'p');
        reveal_strlit("table");
        assert("table"@.len() == 5 && "table"@[0] == 't' && "table"@[1] == 'a' && "table"@[2] == 'b' && "table"@[3] == 'l' && "table"@[4] == 'e');
        reveal_strlit("thead");
        assert("thead"@.len() == 5 && "thead"@[0] == 't' && "thead"@[1] == 'h' && "thead"@[2] == 'e' && "thead"@[3] == 'a' && "thead"@[4] == 'd');
        reveal_strlit("tbody");
        assert("tbody"@.len() == 5 && "tbody"@[0] == 't' && "tbody"@[1] == 'b' && "tbody"@[2] == 'o' && "tbody"@[3] == 'd' && "tbody"@[4] == 'y');
        reveal_strlit("tfoot");
        assert("tfoot"@.len() == 5 && "tfoot"@[0] == 't' && "tfoot"@[1] == 'f' && "tfoot"@[2] == 'o' && "tfoot"@[3] == 'o' && "tfoot"@[4] == 't');
        reveal_strlit("tr");
        assert("tr"@.len() == 2 && "tr"@[0] == 't' && "tr"@[1] == 'r');
        let n = self.spec_name();
        assert(forall|i: int| 0 <= i < n.len() ==> char_matches_folded(#[trigger] n[i], n[i]));
    }
}

/// The tags of the table-cell category.
#[derive(Clone, Copy, Debug, PartialEq, Eq, Structural)]
pub enum TableElementTag {
    Td,
    Th,
}

impl TableElementTag {
    /// The spelling of this value on the wire.
    pub open spec fn spec_name(self) -> Seq<char> {
        match self {
            TableElementTag::Td => "td"@,
            TableElementTag::Th => "th"@,
        }
    }

    /// The value spelled `s`, ignoring the case of ASCII letters.
    pub open spec fn spec_from_name(s: Seq<char>) -> Option<TableElementTag> {
        if matches_folded(s, "td"@) {
            Some(TableElementTag::Td)
        } else if matches_folded(s, "th"@) {
            Some(TableElementTag::Th)
        } else {
            None
        }
    }

    /// The spelling of this value on the wire.
    pub fn name(self) -> (r: &'static str)
        ensures
            r@ == self.spec_name(),
    {
        match self {
            TableElementTag::Td => "td",
            TableElementTag::Th => "th",
        }
    }

    /// The value spelled `s`, ignoring the case of ASCII letters.
    pub fn from_name(s: &str) -> (r: Option<TableElementTag>)
        ensures
            r == Self::spec_from_name(s@),
    {
        if str_matches_folded(s, "td") {
            Some(TableElementTag::Td)
        } else if str_matches_folded(s, "th") {
            Some(TableElementTag::Th)
        } else {
            None
        }
    }

    /// Reading back the spelling of a value gives that value.
    pub proof fn lemma_name_round_trip(self)
        ensures
            Self::spec_from_name(self.spec_name()) == Some(self),
    {
        reveal_strlit("td");
        assert("td"@.len() == 2 && "td"@[0] == 't' && "td"@[1] == 'd');
        reveal_strlit("th");
        assert("th"@.len() == 2 && "th"@[0] == 't' && "th"@[1] == 'h');
        let n = self.spec_name();
        assert(forall|i: int| 0 <= i < n.len() ==> char_matches_folded(#[trigger] n[i], n[i]));
    }
}

/// The tags of the styled category.
#[derive(Clone, Copy, Debug, PartialEq, Eq, Structural)]
pub enum StyledElementTag {
    Span,
    Div,
    Ol,
    Ul,
    Li,
    Details,
    Summary,
}

impl StyledElementTag {
    /// The spelling of this value on the wire.
    pub open spec fn spec_name(self) -> Seq<char> {
        match self {
            StyledElementTag::Span => "span"@,
            StyledElementTag::Div => "div"@,
            StyledElementTag::Ol => "ol"@,
            StyledElementTag::Ul => "ul"@,
            StyledElementTag::Li => "li"@,
            StyledElementTag::Details => "details"@,
            StyledElementTag::Summary => "summary"@,
        }
    }

    /// The value spelled `s`, ignoring the case of ASCII letters.
    pub open spec fn spec_from_name(s: Seq<char>) -> Option<StyledElementTag> {
        if matches_folded(s, "span"@) {
            Some(StyledElementTag::Span)
        } else if matches_folded(s, "div"@) {
            Some(StyledElementTag::Div)
        } else if matches_folded(s, "ol"@) {
            Some(StyledElementTag::Ol)
        } else if matches_folded(s, "ul"@) {
            Some(StyledElementTag::Ul)
        } else if matches_folded(s, "li"@) {
            Some(StyledElementTag::Li)
        } else if matches_folded(s, "details"@) {
            Some(StyledElementTag::Details)
        } else if matches_folded(s, "summary"@) {
            Some(StyledElementTag::Summary)
        } else {
            None
        }
    }

    /// The spelling of this value on the wire.
    pub fn name(self) -> (r: &'static str)
        ensures
            r@ == self.spec_name(),
    {
        match self {
            StyledElementTag::Span => "span",
            StyledElementTag::Div => "div",
            StyledElementTag::Ol => "ol",
            StyledElementTag::Ul => "ul",
            StyledElementTag::Li => "li",
            StyledElementTag::Details => "details",
            StyledElementTag::Summary => "summary",
        }
    }

    /// The value spelled `s`, ignoring the case of ASCII letters.
    pub fn from_name(s: &str) -> (r: Option<StyledElementTag>)
        ensures
            r == Self::spec_from_name(s@),
    {
        if str_matches_folded(s, "span") {
            Some(StyledElementTag::Span)
        } else if str_matches_folded(s, "div") {
            Some(StyledElementTag::Div)
        } else if str_matches_folded(s, "ol") {
            Some(StyledElementTag::Ol)
        } else if str_matches_folded(s, "ul") {
            Some(StyledElementTag::Ul)
        } else if str_matches_folded(s, "li") {
            Some(StyledElementTag::Li)
        } else if str_matches_folded(s, "details") {
            Some(StyledElementTag::Details)
        } else if str_matches_folded(s, "summary") {
            Some(StyledElementTag::Summary)
        } else {
            None
        }
    }

    /// Reading back the spelling of a value gives that value.
    pub proof fn lemma_name_round_trip(self)
        ensures
            Self::spec_from_name(self.spec_name()) == Some(self),
    {
        reveal_strlit("span");
        assert("span"@.len() == 4 && "span"@[0] == 's' && "span"@[1] == 'p' && "span"@[2] == 'a' && "span"@[3] == 'n');
        reveal_strlit("div");
        assert("div"@.len() == 3 && "div"@[0] == 'd' && "div"@[1] == 'i' && "div"@[2] == 'v');
        reveal_strlit("ol");
        assert("ol"@.len() == 2 && "ol"@[0] == 'o' && "ol"@[1] == 'l');
        reveal_strlit("ul");
        assert("ul"@.len() == 2 && "ul"@[0] == 'u' && "ul"@[1] == 'l');
        reveal_strlit("li");
        assert("li"@.len() == 2 && "li"@[0] == 'l' && "li"@[1] == 'i');
        reveal_strlit("details");
        assert("details"@.len() == 7 && "details"@[0] == 'd' && "details"@[1] == 'e' && "details"@[2] == 't' && "details"@[3] == 'a' && "details"@[4] == 'i' && "details"@[5] == 'l' && "details"@[6] == 's');
        reveal_strlit("summary");
        assert("summary"@.len() == 7 && "summary"@[0] == 's' && "summary"@[1] == 'u' && "summary"@[2] == 'm' && "summary"@[3] == 'm' && "summary"@[4] == 'a' && "summary"@[5] == 'r' && "summary"@[6] == 'y');
        let n = self.spec_name();
        assert(forall|i: int| 0 <= i < n.len() ==> char_matches_folded(#[trigger] n[i], n[i]));
    }
}

/// The tags of the image category.
#[derive(Clone, Copy, Debug, PartialEq, Eq, Structural)]
pub enum ImageElementTag {
    Img,
}

impl ImageElementTag {
    /// The spelling of this value on the wire.
    pub open spec fn spec_name(self) -> Seq<char> {
        match self {
            ImageElementTag::Img => "img"@,
        }
    }

    /// The value spelled `s`, ignoring the case of ASCII letters.
    pub open spec fn spec_from_name(s: Seq<char>) -> Option<ImageElementTag> {
        if matches_folded(s, "img"@) {
            Some(ImageElementTag::Img)
        } else {
            None
        }
    }

    /// The spelling of this value on the wire.
    pub fn name(self) -> (r: &'static str)
        ensures
            r@ == self.spec_name(),
    {
        match self {
            ImageElementTag::Img => "img",
        }
    }

    /// The value spelled `s`, ignoring the case of ASCII letters.
    pub fn from_name(s: &str) -> (r: Option<ImageElementTag>)
        ensures
            r == Self::spec_from_name(s@),
    {
        if str_matches_folded(s, "img") {
            Some(ImageElementTag::Img)
        } else {
            None
        }
    }

    /// Reading back the spelling of a value gives that value.
    pub proof fn lemma_name_round_trip(self)
        ensures
            Self::spec_from_name(self.spec_name()) == Some(self),
    {
        reveal_strlit("img");
        assert("img"@.len() == 3 && "img"@[0] == 'i' && "img"@[1] == 'm' && "img"@[2] == 'g');
        let n = self.spec_name();
        assert(forall|i: int| 0 <= i < n.len() ==> char_matches_folded(#[trigger] n[i], n[i]));
    }
}

/// The tags of the link category.
#[derive(Clone, Copy, Debug, PartialEq, Eq, Structural)]
pub enum LinkElementTag {
    A,
}

impl LinkElementTag {
    /// The spelling of this value on the wire.
    pub open spec fn spec_name(self) -> Seq<char> {
        match self {
            LinkElementTag::A => "a"@,
        }
    }

    /// The value spelled `s`, ignoring the case of ASCII letters.
    pub open spec fn spec_from_name(s: Seq<char>) -> Option<LinkElementTag> {
        if matches_folded(s, "a"@) {
            Some(LinkElementTag::A)
        } else {
            None
        }
    }

    /// The spelling of this value on the wire.
    pub fn name(self) -> (r: &'static str)
        ensures
            r@ == self.spec_name(),
    {
        match self {
            LinkElementTag::A => "a",
        }
    }

    /// The value spelled `s`, ignoring the case of ASCII letters.
    pub fn from_name(s: &str) -> (r: Option<LinkElementTag>)
        ensures
            r == Self::spec_from_name(s@),
    {
        if str_matches_folded(s, "a") {
            Some(LinkElementTag::A)
        } else {
            None
        }
    }

    /// Reading back the spelling of a value gives that value.
    pub proof fn lemma_name_round_trip(self)
        ensures
            Self::spec_from_name(self.spec_name()) == Some(self),
    {
        reveal_strlit("a");
        assert("a"@.len() == 1 && "a"@[0] == 'a');
        let n = self.spec_name();
        assert(forall|i: int| 0 <= i < n.len() ==> char_matches_folded(#[trigger] n[i], n[i]));
    }
}

/// The six element categories, each with its own set of members.
#[derive(Clone, Copy, Debug, PartialEq, Eq, Structural)]
pub enum ElementCategory {
    LineBreak,
    Unstyled,
    Table,
    Styled,
    Image,
    Link,
}

/// An element tag, with the category it belongs to.
#[derive(Clone, Copy, Debug, PartialEq, Eq, Structural)]
pub enum ElementTag {
    LineBreak(LineBreakElementTag),
    Unstyled(UnstyledElementTag),
    Table(TableElementTag),
    Styled(StyledElementTag),
    Image(ImageElementTag),
    Link(LinkElementTag),
}

impl ElementTag {
    /// The category of this tag.
    pub open spec fn spec_category(self) -> ElementCategory {
        match self {
            ElementTag::LineBreak(_) => ElementCategory::LineBreak,
            ElementTag::Unstyled(_) => ElementCategory::Unstyled,
            ElementTag::Table(_) => ElementCategory::Table,
            ElementTag::Styled(_) => ElementCategory::Styled,
            ElementTag::Image(_) => ElementCategory::Image,
            ElementTag::Link(_) => ElementCategory::Link,
        }
    }

    /// The category of this tag.
    pub fn category(self) -> (r: ElementCategory)
        ensures
            r == self.spec_category(),
    {
        match self {
            ElementTag::LineBreak(_) => ElementCategory::LineBreak,
            ElementTag::Unstyled(_) => ElementCategory::Unstyled,
            ElementTag::Table(_) => ElementCategory::Table,
            ElementTag::Styled(_) => ElementCategory::Styled,
            ElementTag::Image(_) => ElementCategory::Image,
            ElementTag::Link(_) => ElementCategory::Link,
        }
    }

    /// The canonical, lower-case spelling of this tag.
    pub open spec fn spec_name(self) -> Seq<char> {
        match self {
            ElementTag::LineBreak(t) => t.spec_name(),
            ElementTag::Unstyled(t) => t.spec_name(),
            ElementTag::Table(t) => t.spec_name(),
            ElementTag::Styled(t) => t.spec_name(),
            ElementTag::Image(t) => t.spec_name(),
            ElementTag::Link(t) => t.spec_name(),
        }
    }

    /// The canonical, lower-case spelling of this tag.
    pub fn name(self) -> (r: &'static str)
        ensures
            r@ == self.spec_name(),
    {
        match self {
            ElementTag::LineBreak(t) => t.name(),
            ElementTag::Unstyled(t) => t.name(),
            ElementTag::Table(t) => t.name(),
            ElementTag::Styled(t) => t.name(),
            ElementTag::Image(t) => t.name(),
            ElementTag::Link(t) => t.name(),
        }
    }

    /// The tag spelled `s`, ignoring the case of ASCII letters.
    pub open spec fn spec_from_name(s: Seq<char>) -> Option<ElementTag> {
        if LineBreakElementTag::spec_from_name(s) is Some {
            Some(ElementTag::LineBreak(LineBreakElementTag::spec_from_name(s)->Some_0))
        } else if UnstyledElementTag::spec_from_name(s) is Some {
            Some(ElementTag::Unstyled(UnstyledElementTag::spec_from_name(s)->Some_0))
        } else if TableElementTag::spec_from_name(s) is Some {
            Some(ElementTag::Table(TableElementTag::spec_from_name(s)->Some_0))
        } else if StyledElementTag::spec_from_name(s) is Some {
            Some(ElementTag::Styled(StyledElementTag::spec_from_name(s)->Some_0))
        } else if ImageElementTag::spec_from_name(s) is Some {
            Some(ElementTag::Image(ImageElementTag::spec_from_name(s)->Some_0))
        } else if LinkElementTag::spec_from_name(s) is Some {
            Some(ElementTag::Link(LinkElementTag::spec_from_name(s)->Some_0))
        } else {
            None
        }
    }

    /// The tag spelled `s`, ignoring the case of ASCII letters.
    pub fn from_name(s: &str) -> (r: Option<ElementTag>)
        ensures
            r == Self::spec_from_name(s@),
    {
        if let Some(t) = LineBreakElementTag::from_name(s) {
            return Some(ElementTag::LineBreak(t));
        }
        if let Some(t) = UnstyledElementTag::from_name(s) {
            return Some(ElementTag::Unstyled(t));
        }
        if let Some(t) = TableElementTag::from_name(s) {
            return Some(ElementTag::Table(t));
        }
        if let Some(t) = StyledElementTag::from_name(s) {
            return Some(ElementTag::Styled(t));
        }
        if let Some(t) = ImageElementTag::from_name(s) {
            return Some(ElementTag::Image(t));
        }
        if let Some(t) = LinkElementTag::from_name(s) {
            return Some(ElementTag::Link(t));
        }
        None
    }

    /// Reading back the spelling of a tag gives that tag.
    pub proof fn lemma_name_round_trip(self)
        ensures
            Self::spec_from_name(self.spec_name()) == Some(self),
    {
        reveal_strlit("br");
        assert("br"@.len() == 2 && "br"@[0] == 'b' && "br"@[1] == 'r');
        reveal_strlit("ruby");
        assert("ruby"@.len() == 4 && "ruby"@[0] == 'r' && "ruby"@[1] == 'u' && "ruby"@[2] == 'b' && "ruby"@[3] == 'y');
        reveal_strlit("rt");
        assert("rt"@.len() == 2 && "rt"@[0] == 'r' && "rt"@[1] == 't');
        reveal_strlit("rp");
        assert("rp"@.len() == 2 && "rp"@[0] == 'r' && "rp"@[1] == 'p');
        reveal_strlit("table");
        assert("table"@.len() == 5 && "table"@[0] == 't' && "table"@[1] == 'a' && "table"@[2] == 'b' && "table"@[3] == 'l' && "table"@[4] == 'e');
        reveal_strlit("thead");
        assert("thead"@.len() == 5 && "thead"@[0] == 't' && "thead"@[1] == 'h' && "thead"@[2] == 'e' && "thead"@[3] == 'a' && "thead"@[4] == 'd');
        reveal_strlit("tbody");
        assert("tbody"@.len() == 5 && "tbody"@[0] == 't' && "tbody"@[1] == 'b' && "tbody"@[2] == 'o' && "tbody"@[3] == 'd' && "tbody"@[4] == 'y');
        reveal_strlit("tfoot");
        assert("tfoot"@.len() == 5 && "tfoot"@[0] == 't' && "tfoot"@[1] == 'f' && "tfoot"@[2] == 'o' && "tfoot"@[3] == 'o' && "tfoot"@[4] == 't');
        reveal_strlit("tr");
        assert("tr"@.len() == 2 && "tr"@[0] == 't' && "tr"@[1] == 'r');
        reveal_strlit("td");
        assert("td"@.len() == 2 && "td"@[0] == 't' && "td"@[1] == 'd');
        reveal_strlit("th");
        assert("th"@.len() == 2 && "th"@[0] == 't' && "th"@[1] == 'h');
        reveal_strlit("span");
        assert("span"@.len() == 4 && "span"@[0] == 's' && "span"@[1] == 'p' && "span"@[2] == 'a' && "span"@[3] == 'n');
        reveal_strlit("div");
        assert("div"@.len() == 3 && "div"@[0] == 'd' && "div"@[1] == 'i' && "div"@[2] == 'v');
        reveal_strlit("ol");
        assert("ol"@.len() == 2 && "ol"@[0] == 'o' && "ol"@[1] == 'l');
        reveal_strlit("ul");
        assert("ul"@.len() == 2 && "ul"@[0] == 'u' && "ul"@[1] == 'l');
        reveal_strlit("li");
        assert("li"@.len() == 2 && "li"@[0] == 'l' && "li"@[1] == 'i');
        reveal_strlit("details");
        assert("details"@.len() == 7 && "details"@[0] == 'd' && "details"@[1] == 'e' && "details"@[2] == 't' && "details"@[3] == 'a' && "details"@[4] == 'i' && "details"@[5] == 'l' && "details"@[6] == 's');
        reveal_strlit("summary");
        assert("summary"@.len() == 7 && "summary"@[0] == 's' && "summary"@[1] == 'u' && "summary"@[2] == 'm' && "summary"@[3] == 'm' && "summary"@[4] == 'a' && "summary"@[5] == 'r' && "summary"@[6] == 'y');
        reveal_strlit("img");
        assert("img"@.len() == 3 && "img"@[0] == 'i' && "img"@[1] == 'm' && "img"@[2] == 'g');
        reveal_strlit("a");
        assert("a"@.len() == 1 && "a"@[0] == 'a');
        let n = self.spec_name();
        assert(forall|i: int| 0 <= i < n.len() ==> char_matches_folded(#[trigger] n[i], n[i]));
    }
}

/// A line break.
#[derive(Clone, Debug, PartialEq)]
pub struct LineBreakElement {
    pub tag: LineBreakElementTag,
    pub data: Option<StructuredContentData>,
}

impl LineBreakElement {
    /// An element of the given tag with no member set.
    pub fn blank(tag: LineBreakElementTag) -> (r: LineBreakElement)
        ensures
            r.tag == tag,
    {
        LineBreakElement {
            tag,
            data: None,
        }
    }
}

/// The member at position `i` of the canonical order of `LineBreakElement`.
pub open spec fn line_break_member_at(i: int) -> Field {
    if i == 0 {
        Field::Member(Key::Data)
    } else {
        Field::Member(Key::Data)
    }
}

/// The position of `f` in the canonical order of `LineBreakElement`.
pub open spec fn line_break_member_index(f: Field) -> int {
    match f {
        Field::Member(Key::Data) => 0,
        _ => 1,
    }
}

fn line_break_member_at_exec(i: usize) -> (r: Field)
    ensures
        r == line_break_member_at(i as int),
{
    match i {
        0 => Field::Member(Key::Data),
        _ => Field::Member(Key::Data),
    }
}

proof fn lemma_line_break_member_index(i: int)
    requires
        0 <= i < 1,
    ensures
        line_break_member_index(line_break_member_at(i)) == i,
{
}

impl Members for LineBreakElement {
    open spec fn members() -> Seq<Field> {
        Seq::new(1, |i: int| line_break_member_at(i))
    }

    open spec fn has(self, f: Field) -> bool {
        match f {
            Field::Member(Key::Data) => self.data is Some,
            _ => false,
        }
    }

    open spec fn member_encodes(self, f: Field, v: JsonValue) -> bool {
        match f {
            Field::Member(Key::Data) => self.data matches Some(x) && x.encodes_to(v),
            _ => false,
        }
    }

    open spec fn member_decodes(self, es: Seq<(String, JsonValue)>, f: Field) -> bool {
        match f {
            Field::Member(Key::Data) => member_decodes_to(es, f, self.data),
            _ => true,
        }
    }

    open spec fn member_failure(es: Seq<(String, JsonValue)>, f: Field) -> Option<Failure> {
        match f {
            Field::Member(Key::Data) => member_failure::<StructuredContentData>(es, f),
            _ => None,
        }
    }

    proof fn lemma_member_round_trip(self, es: Seq<(String, JsonValue)>, f: Field) {
        if self.has(f) {
            let j = choose|j: int| 0 <= j < es.len() && find_key(es, f.spec_name()) == Some(j) && self.member_encodes(f, #[trigger] es[j].1);
            match f {
                Field::Member(Key::Data) => self.data.unwrap().lemma_round_trip(es[j].1, f),
                _ => {},
            }
        }
    }
}

/// No two members of `LineBreakElement` are spelled alike.
pub proof fn lemma_line_break_names_distinct()
    ensures
        distinct_names(LineBreakElement::members()),
{
    let m = LineBreakElement::members();
    assert forall|i: int, j: int| 0 <= i < j < m.len() implies (#[trigger] m[i]).spec_name() != (#[trigger] m[j]).spec_name() by {
        lemma_line_break_member_index(i);
        lemma_line_break_member_index(j);
        lemma_field_names_injective(m[i], m[j]);
    }
}

/// Decodes the members of a `LineBreakElement` from the members `es` of an object.
fn decode_line_break_members(es: &Vec<(String, JsonValue)>, tag: LineBreakElementTag) -> (r: Result<LineBreakElement, DecodeError>)
    ensures
        match r {
            Ok(x) => failure_from::<LineBreakElement>(es@, LineBreakElement::members(), 0) is None && decodes_members(x, es@) && x.tag == tag,
            Err(e) => failure_from::<LineBreakElement>(es@, LineBreakElement::members(), 0) == Some(e@),
        },
{
    let mut out = LineBreakElement::blank(tag);
    let mut i: usize = 0;
    while i < 1
        invariant
            i <= 1,
            out.tag == tag,
            failure_from::<LineBreakElement>(es@, LineBreakElement::members(), 0) == failure_from::<LineBreakElement>(es@, LineBreakElement::members(), i as int),
            forall|j: int| 0 <= j < i ==> #[trigger] out.member_decodes(es@, line_break_member_at(j)),
        decreases 1 - i,
    {
        let f = line_break_member_at_exec(i);
        assert(LineBreakElement::members()[i as int] == f);
        let ghost before = out;
        match i {
            0 => {
                out.data = match decode_member::<StructuredContentData>(es, f) {
                    Ok(x) => x,
                    Err(e) => return Err(e),
                };
            },
            _ => {},
        }
        assert forall|j: int| 0 <= j < i + 1 implies #[trigger] out.member_decodes(es@, line_break_member_at(j)) by {
            if j < i {
                lemma_line_break_member_index(j);
                lemma_line_break_member_index(i as int);
                assert(before.member_decodes(es@, line_break_member_at(j)));
            }
        }
        i = i + 1;
    }
    assert forall|f: Field| LineBreakElement::members().contains(f) implies #[trigger] out.member_decodes(es@, f) by {
        let j = choose|j: int| 0 <= j < 1 && LineBreakElement::members()[j] == f;
    }
    Ok(out)
}

proof fn lemma_line_break_contains(f: Field)
    ensures
        LineBreakElement::members().contains(f) ==> line_break_member_index(f) < 1,
{
    if LineBreakElement::members().contains(f) {
        let i = choose|i: int| 0 <= i < 1 && LineBreakElement::members()[i] == f;
        lemma_line_break_member_index(i);
    }
}

/// Whether `k` names a member of `LineBreakElement`.
fn line_break_has_key(k: Key) -> (r: bool)
    ensures
        r == LineBreakElement::members().contains(Field::Member(k)),
{
    proof { lemma_line_break_contains(Field::Member(k)); }
    match k {
        Key::Data => {
            assert(LineBreakElement::members()[0] == Field::Member(k));
            true
        },
        _ => false,
    }
}

/// The members of `LineBreakElement` are spelled neither `tag` nor `content`.
proof fn lemma_line_break_names_apart(f: Field)
    requires
        LineBreakElement::members().contains(f),
    ensures
        f is Member,
        f.spec_name() != Key::Tag.spec_name(),
        f.spec_name() != Key::Content.spec_name(),
{
    lemma_line_break_contains(f);
    lemma_field_names_injective(f, Field::Member(Key::Tag));
    lemma_field_names_injective(f, Field::Member(Key::Content));
}

/// Encodes the members of a `LineBreakElement`, in canonical order.
fn encode_line_break_members(x: &LineBreakElement, es: &mut Vec<(String, JsonValue)>)
    requires
        old(es)@.len() == 0,
    ensures
        encodes_members(*x, final(es)@),
{
    let mut i: usize = 0;
    while i < 1
        invariant
            i <= 1,
            encodes_members_prefix(*x, es@, LineBreakElement::members(), i as int),
        decreases 1 - i,
    {
        let f = line_break_member_at_exec(i);
        assert(LineBreakElement::members()[i as int] == f);
        proof { lemma_present_step(*x, LineBreakElement::members(), i as int); }
        let ghost before = es@;
        match i {
            0 => push_member(es, f, &x.data),
            _ => {},
        }
        proof { lemma_prefix_extend(*x, before, es@, LineBreakElement::members(), i as int); }
        i = i + 1;
    }
    proof { lemma_prefix_complete(*x, es@, LineBreakElement::members()); }
}

/// A ruby, table-structure or row element, which takes no style.
#[derive(Debug)]
pub struct UnstyledElement {
    pub tag: UnstyledElementTag,
    pub content: Option<StructuredContentNode>,
    pub data: Option<StructuredContentData>,
    pub lang: Option<String>,
}

impl UnstyledElement {
    /// An element of the given tag with no member set.
    pub fn blank(tag: UnstyledElementTag) -> (r: UnstyledElement)
        ensures
            r.tag == tag,
            r.content is None,
    {
        UnstyledElement {
            tag,
            content: None,
            data: None,
            lang: None,
        }
    }
}

/// The member at position `i` of the canonical order of `UnstyledElement`.
pub open spec fn unstyled_member_at(i: int) -> Field {
    if i == 0 {
        Field::Member(Key::Data)
    } else if i == 1 {
        Field::Member(Key::Lang)
    } else {
        Field::Member(Key::Data)
    }
}

/// The position of `f` in the canonical order of `UnstyledElement`.
pub open spec fn unstyled_member_index(f: Field) -> int {
    match f {
        Field::Member(Key::Data) => 0,
        Field::Member(Key::Lang) => 1,
        _ => 2,
    }
}

fn unstyled_member_at_exec(i: usize) -> (r: Field)
    ensures
        r == unstyled_member_at(i as int),
{
    match i {
        0 => Field::Member(Key::Data),
        1 => Field::Member(Key::Lang),
        _ => Field::Member(Key::Data),
    }
}

proof fn lemma_unstyled_member_index(i: int)
    requires
        0 <= i < 2,
    ensures
        unstyled_member_index(unstyled_member_at(i)) == i,
{
}

impl Members for UnstyledElement {
    open spec fn members() -> Seq<Field> {
        Seq::new(2, |i: int| unstyled_member_at(i))
    }

    open spec fn has(self, f: Field) -> bool {
        match f {
            Field::Member(Key::Data) => self.data is Some,
            Field::Member(Key::Lang) => self.lang is Some,
            _ => false,
        }
    }

    open spec fn member_encodes(self, f: Field, v: JsonValue) -> bool {
        match f {
            Field::Member(Key::Data) => self.data matches Some(x) && x.encodes_to(v),
            Field::Member(Key::Lang) => self.lang matches Some(x) && x.encodes_to(v),
            _ => false,
        }
    }

    open spec fn member_decodes(self, es: Seq<(String, JsonValue)>, f: Field) -> bool {
        match f {
            Field::Member(Key::Data) => member_decodes_to(es, f, self.data),
            Field::Member(Key::Lang) => member_decodes_to(es, f, self.lang),
            _ => true,
        }
    }

    open spec fn member_failure(es: Seq<(String, JsonValue)>, f: Field) -> Option<Failure> {
        match f {
            Field::Member(Key::Data) => member_failure::<StructuredContentData>(es, f),
            Field::Member(Key::Lang) => member_failure::<String>(es, f),
            _ => None,
        }
    }

    proof fn lemma_member_round_trip(self, es: Seq<(String, JsonValue)>, f: Field) {
        if self.has(f) {
            let j = choose|j: int| 0 <= j < es.len() && find_key(es, f.spec_name()) == Some(j) && self.member_encodes(f, #[trigger] es[j].1);
            match f {
                Field::Member(Key::Data) => self.data.unwrap().lemma_round_trip(es[j].1, f),
                Field::Member(Key::Lang) => self.lang.unwrap().lemma_round_trip(es[j].1, f),
                _ => {},
            }
        }
    }
}

/// No two members of `UnstyledElement` are spelled alike.
pub proof fn lemma_unstyled_names_distinct()
    ensures
        distinct_names(UnstyledElement::members()),
{
    let m = UnstyledElement::members();
    assert forall|i: int, j: int| 0 <= i < j < m.len() implies (#[trigger] m[i]).spec_name() != (#[trigger] m[j]).spec_name() by {
        lemma_unstyled_member_index(i);
        lemma_unstyled_member_index(j);
        lemma_field_names_injective(m[i], m[j]);
    }
}

/// Decodes the members of a `UnstyledElement` from the members `es` of an object.
fn decode_unstyled_members(es: &Vec<(String, JsonValue)>, tag: UnstyledElementTag) -> (r: Result<UnstyledElement, DecodeError>)
    ensures
        match r {
            Ok(x) => failure_from::<UnstyledElement>(es@, UnstyledElement::members(), 0) is None && decodes_members(x, es@) && x.tag == tag,
            Err(e) => failure_from::<UnstyledElement>(es@, UnstyledElement::members(), 0) == Some(e@),
        },
{
    let mut out = UnstyledElement::blank(tag);
    let mut i: usize = 0;
    while i < 2
        invariant
            i <= 2,
            out.tag == tag,
            failure_from::<UnstyledElement>(es@, UnstyledElement::members(), 0) == failure_from::<UnstyledElement>(es@, UnstyledElement::members(), i as int),
            forall|j: int| 0 <= j < i ==> #[trigger] out.member_decodes(es@, unstyled_member_at(j)),
        decreases 2 - i,
    {
        let f = unstyled_member_at_exec(i);
        assert(UnstyledElement::members()[i as int] == f);
        let ghost before = out;
        match i {
            0 => {
                out.data = match decode_member::<StructuredContentData>(es, f) {
                    Ok(x) => x,
                    Err(e) => return Err(e),
                };
            },
            1 => {
                out.lang = match decode_member::<String>(es, f) {
                    Ok(x) => x,
                    Err(e) => return Err(e),
                };
            },
            _ => {},
        }
        assert forall|j: int| 0 <= j < i + 1 implies #[trigger] out.member_decodes(es@, unstyled_member_at(j)) by {
            if j < i {
                lemma_unstyled_member_index(j);
                lemma_unstyled_member_index(i as int);
                assert(before.member_decodes(es@, unstyled_member_at(j)));
            }
        }
        i = i + 1;
    }
    assert forall|f: Field| UnstyledElement::members().contains(f) implies #[trigger] out.member_decodes(es@, f) by {
        let j = choose|j: int| 0 <= j < 2 && UnstyledElement::members()[j] == f;
    }
    Ok(out)
}

proof fn lemma_unstyled_contains(f: Field)
    ensures
        UnstyledElement::members().contains(f) ==> unstyled_member_index(f) < 2,
{
    if UnstyledElement::members().contains(f) {
        let i = choose|i: int| 0 <= i < 2 && UnstyledElement::members()[i] == f;
        lemma_unstyled_member_index(i);
    }
}

/// Whether `k` names a member of `UnstyledElement`.
fn unstyled_has_key(k: Key) -> (r: bool)
    ensures
        r == UnstyledElement::members().contains(Field::Member(k)),
{
    proof { lemma_unstyled_contains(Field::Member(k)); }
    match k {
        Key::Data => {
            assert(UnstyledElement::members()[0] == Field::Member(k));
            true
        },
        Key::Lang => {
            assert(UnstyledElement::members()[1] == Field::Member(k));
            true
        },
        _ => false,
    }
}

/// The members of `UnstyledElement` are spelled neither `tag` nor `content`.
proof fn lemma_unstyled_names_apart(f: Field)
    requires
        UnstyledElement::members().contains(f),
    ensures
        f is Member,
        f.spec_name() != Key::Tag.spec_name(),
        f.spec_name() != Key::Content.spec_name(),
{
    lemma_unstyled_contains(f);
    lemma_field_names_injective(f, Field::Member(Key::Tag));
    lemma_field_names_injective(f, Field::Member(Key::Content));
}

/// Encodes the members of a `UnstyledElement`, in canonical order.
fn encode_unstyled_members(x: &UnstyledElement, es: &mut Vec<(String, JsonValue)>)
    requires
        old(es)@.len() == 0,
    ensures
        encodes_members(*x, final(es)@),
{
    let mut i: usize = 0;
    while i < 2
        invariant
            i <= 2,
            encodes_members_prefix(*x, es@, UnstyledElement::members(), i as int),
        decreases 2 - i,
    {
        let f = unstyled_member_at_exec(i);
        assert(UnstyledElement::members()[i as int] == f);
        proof { lemma_present_step(*x, UnstyledElement::members(), i as int); }
        let ghost before = es@;
        match i {
            0 => push_member(es, f, &x.data),
            1 => push_member(es, f, &x.lang),
            _ => {},
        }
        proof { lemma_prefix_extend(*x, before, es@, UnstyledElement::members(), i as int); }
        i = i + 1;
    }
    proof { lemma_prefix_complete(*x, es@, UnstyledElement::members()); }
}

/// A table cell.
#[derive(Debug)]
pub struct TableElement {
    pub tag: TableElementTag,
    pub content: Option<StructuredContentNode>,
    pub data: Option<StructuredContentData>,
    pub col_span: Option<i32>,
    pub row_span: Option<i32>,
    pub style: Option<StructuredContentStyle>,
    pub lang: Option<String>,
}

impl TableElement {
    /// An element of the given tag with no member set.
    pub fn blank(tag: TableElementTag) -> (r: TableElement)
        ensures
            r.tag == tag,
            r.content is None,
    {
        TableElement {
            tag,
            content: None,
            data: None,
            col_span: None,
            row_span: None,
            style: None,
            lang: None,
        }
    }
}

/// The member at position `i` of the canonical order of `TableElement`.
pub open spec fn table_member_at(i: int) -> Field {
    if i == 0 {
        Field::Member(Key::Data)
    } else if i == 1 {
        Field::Member(Key::ColSpan)
    } else if i == 2 {
        Field::Member(Key::RowSpan)
    } else if i == 3 {
        Field::Member(Key::Style)
    } else if i == 4 {
        Field::Member(Key::Lang)
    } else {
        Field::Member(Key::Data)
    }
}

/// The position of `f` in the canonical order of `TableElement`.
pub open spec fn table_member_index(f: Field) -> int {
    match f {
        Field::Member(Key::Data) => 0,
        Field::Member(Key::ColSpan) => 1,
        Field::Member(Key::RowSpan) => 2,
        Field::Member(Key::Style) => 3,
        Field::Member(Key::Lang) => 4,
        _ => 5,
    }
}

fn table_member_at_exec(i: usize) -> (r: Field)
    ensures
        r == table_member_at(i as int),
{
    match i {
        0 => Field::Member(Key::Data),
        1 => Field::Member(Key::ColSpan),
        2 => Field::Member(Key::RowSpan),
        3 => Field::Member(Key::Style),
        4 => Field::Member(Key::Lang),
        _ => Field::Member(Key::Data),
    }
}

proof fn lemma_table_member_index(i: int)
    requires
        0 <= i < 5,
    ensures
        table_member_index(table_member_at(i)) == i,
{
}

impl Members for TableElement {
    open spec fn members() -> Seq<Field> {
        Seq::new(5, |i: int| table_member_at(i))
    }

    open spec fn has(self, f: Field) -> bool {
        match f {
            Field::Member(Key::Data) => self.data is Some,
            Field::Member(Key::ColSpan) => self.col_span is Some,
            Field::Member(Key::RowSpan) => self.row_span is Some,
            Field::Member(Key::Style) => self.style is Some,
            Field::Member(Key::Lang) => self.lang is Some,
            _ => false,
        }
    }

    open spec fn member_encodes(self, f: Field, v: JsonValue) -> bool {
        match f {
            Field::Member(Key::Data) => self.data matches Some(x) && x.encodes_to(v),
            Field::Member(Key::ColSpan) => self.col_span matches Some(x) && x.encodes_to(v),
            Field::Member(Key::RowSpan) => self.row_span matches Some(x) && x.encodes_to(v),
            Field::Member(Key::Style) => self.style matches Some(x) && x.encodes_to(v),
            Field::Member(Key::Lang) => self.lang matches Some(x) && x.encodes_to(v),
            _ => false,
        }
    }

    open spec fn member_decodes(self, es: Seq<(String, JsonValue)>, f: Field) -> bool {
        match f {
            Field::Member(Key::Data) => member_decodes_to(es, f, self.data),
            Field::Member(Key::ColSpan) => member_decodes_to(es, f, self.col_span),
            Field::Member(Key::RowSpan) => member_decodes_to(es, f, self.row_span),
            Field::Member(Key::Style) => member_decodes_to(es, f, self.style),
            Field::Member(Key::Lang) => member_decodes_to(es, f, self.lang),
            _ => true,
        }
    }

    open spec fn member_failure(es: Seq<(String, JsonValue)>, f: Field) -> Option<Failure> {
        match f {
            Field::Member(Key::Data) => member_failure::<StructuredContentData>(es, f),
            Field::Member(Key::ColSpan) => member_failure::<i32>(es, f),
            Field::Member(Key::RowSpan) => member_failure::<i32>(es, f),
            Field::Member(Key::Style) => member_failure::<StructuredContentStyle>(es, f),
            Field::Member(Key::Lang) => member_failure::<String>(es, f),
            _ => None,
        }
    }

    proof fn lemma_member_round_trip(self, es: Seq<(String, JsonValue)>, f: Field) {
        if self.has(f) {
            let j = choose|j: int| 0 <= j < es.len() && find_key(es, f.spec_name()) == Some(j) && self.member_encodes(f, #[trigger] es[j].1);
            match f {
                Field::Member(Key::Data) => self.data.unwrap().lemma_round_trip(es[j].1, f),
                Field::Member(Key::ColSpan) => self.col_span.unwrap().lemma_round_trip(es[j].1, f),
                Field::Member(Key::RowSpan) => self.row_span.unwrap().lemma_round_trip(es[j].1, f),
                Field::Member(Key::Style) => self.style.unwrap().lemma_round_trip(es[j].1, f),
                Field::Member(Key::Lang) => self.lang.unwrap().lemma_round_trip(es[j].1, f),
                _ => {},
            }
        }
    }
}

/// No two members of `TableElement` are spelled alike.
pub proof fn lemma_table_names_distinct()
    ensures
        distinct_names(TableElement::members()),
{
    let m = TableElement::members();
    assert forall|i: int, j: int| 0 <= i < j < m.len() implies (#[trigger] m[i]).spec_name() != (#[trigger] m[j]).spec_name() by {
        lemma_table_member_index(i);
        lemma_table_member_index(j);
        lemma_field_names_injective(m[i], m[j]);
    }
}

/// Decodes the members of a `TableElement` from the members `es` of an object.
fn decode_table_members(es: &Vec<(String, JsonValue)>, tag: TableElementTag) -> (r: Result<TableElement, DecodeError>)
    ensures
        match r {
            Ok(x) => failure_from::<TableElement>(es@, TableElement::members(), 0) is None && decodes_members(x, es@) && x.tag == tag,
            Err(e) => failure_from::<TableElement>(es@, TableElement::members(), 0) == Some(e@),
        },
{
    let mut out = TableElement::blank(tag);
    let mut i: usize = 0;
    while i < 5
        invariant
            i <= 5,
            out.tag == tag,
            failure_from::<TableElement>(es@, TableElement::members(), 0) == failure_from::<TableElement>(es@, TableElement::members(), i as int),
            forall|j: int| 0 <= j < i ==> #[trigger] out.member_decodes(es@, table_member_at(j)),
        decreases 5 - i,
    {
        let f = table_member_at_exec(i);
        assert(TableElement::members()[i as int] == f);
        let ghost before = out;
        match i {
            0 => {
                out.data = match decode_member::<StructuredContentData>(es, f) {
                    Ok(x) => x,
                    Err(e) => return Err(e),
                };
            },
            1 => {
                out.col_span = match decode_member::<i32>(es, f) {
                    Ok(x) => x,
                    Err(e) => return Err(e),
                };
            },
            2 => {
                out.row_span = match decode_member::<i32>(es, f) {
                    Ok(x) => x,
                    Err(e) => return Err(e),
                };
            },
            3 => {
                out.style = match decode_member::<StructuredContentStyle>(es, f) {
                    Ok(x) => x,
                    Err(e) => return Err(e),
                };
            },
            4 => {
                out.lang = match decode_member::<String>(es, f) {
                    Ok(x) => x,
                    Err(e) => return Err(e),
                };
            },
            _ => {},
        }
        assert forall|j: int| 0 <= j < i + 1 implies #[trigger] out.member_decodes(es@, table_member_at(j)) by {
            if j < i {
                lemma_table_member_index(j);
                lemma_table_member_index(i as int);
                assert(before.member_decodes(es@, table_member_at(j)));
            }
        }
        i = i + 1;
    }
    assert forall|f: Field| TableElement::members().contains(f) implies #[trigger] out.member_decodes(es@, f) by {
        let j = choose|j: int| 0 <= j < 5 && TableElement::members()[j] == f;
    }
    Ok(out)
}

proof fn lemma_table_contains(f: Field)
    ensures
        TableElement::members().contains(f) ==> table_member_index(f) < 5,
{
    if TableElement::members().contains(f) {
        let i = choose|i: int| 0 <= i < 5 && TableElement::members()[i] == f;
        lemma_table_member_index(i);
    }
}

/// Whether `k` names a member of `TableElement`.
fn table_has_key(k: Key) -> (r: bool)
    ensures
        r == TableElement::members().contains(Field::Member(k)),
{
    proof { lemma_table_contains(Field::Member(k)); }
    match k {
        Key::Data => {
            assert(TableElement::members()[0] == Field::Member(k));
            true
        },
        Key::ColSpan => {
            assert(TableElement::members()[1] == Field::Member(k));
            true
        },
        Key::RowSpan => {
            assert(TableElement::members()[2] == Field::Member(k));
            true
        },
        Key::Style => {
            assert(TableElement::members()[3] == Field::Member(k));
            true
        },
        Key::Lang => {
            assert(TableElement::members()[4] == Field::Member(k));
            true
        },
        _ => false,
    }
}

/// The members of `TableElement` are spelled neither `tag` nor `content`.
proof fn lemma_table_names_apart(f: Field)
    requires
        TableElement::members().contains(f),
    ensures
        f is Member,
        f.spec_name() != Key::Tag.spec_name(),
        f.spec_name() != Key::Content.spec_name(),
{
    lemma_table_contains(f);
    lemma_field_names_injective(f, Field::Member(Key::Tag));
    lemma_field_names_injective(f, Field::Member(Key::Content));
}

/// Encodes the members of a `TableElement`, in canonical order.
fn encode_table_members(x: &TableElement, es: &mut Vec<(String, JsonValue)>)
    requires
        old(es)@.len() == 0,
    ensures
        encodes_members(*x, final(es)@),
{
    let mut i: usize = 0;
    while i < 5
        invariant
            i <= 5,
            encodes_members_prefix(*x, es@, TableElement::members(), i as int),
        decreases 5 - i,
    {
        let f = table_member_at_exec(i);
        assert(TableElement::members()[i as int] == f);
        proof { lemma_present_step(*x, TableElement::members(), i as int); }
        let ghost before = es@;
        match i {
            0 => push_member(es, f, &x.data),
            1 => push_member(es, f, &x.col_span),
            2 => push_member(es, f, &x.row_span),
            3 => push_member(es, f, &x.style),
            4 => push_member(es, f, &x.lang),
            _ => {},
        }
        proof { lemma_prefix_extend(*x, before, es@, TableElement::members(), i as int); }
        i = i + 1;
    }
    proof { lemma_prefix_complete(*x, es@, TableElement::members()); }
}

/// A styleable container: span, div, list or details.
#[derive(Debug)]
pub struct StyledElement {
    pub tag: StyledElementTag,
    pub content: Option<StructuredContentNode>,
    pub data: Option<StructuredContentData>,
    pub style: Option<StructuredContentStyle>,
    pub title: Option<String>,
    pub lang: Option<String>,
}

impl StyledElement {
    /// An element of the given tag with no member set.
    pub fn blank(tag: StyledElementTag) -> (r: StyledElement)
        ensures
            r.tag == tag,
            r.content is None,
    {
        StyledElement {
            tag,
            content: None,
            data: None,
            style: None,
            title: None,
            lang: None,
        }
    }
}

/// The member at position `i` of the canonical order of `StyledElement`.
pub open spec fn styled_member_at(i: int) -> Field {
    if i == 0 {
        Field::Member(Key::Data)
    } else if i == 1 {
        Field::Member(Key::Style)
    } else if i == 2 {
        Field::Member(Key::Title)
    } else if i == 3 {
        Field::Member(Key::Lang)
    } else {
        Field::Member(Key::Data)
    }
}

/// The position of `f` in the canonical order of `StyledElement`.
pub open spec fn styled_member_index(f: Field) -> int {
    match f {
        Field::Member(Key::Data) => 0,
        Field::Member(Key::Style) => 1,
        Field::Member(Key::Title) => 2,
        Field::Member(Key::Lang) => 3,
        _ => 4,
    }
}

fn styled_member_at_exec(i: usize) -> (r: Field)
    ensures
        r == styled_member_at(i as int),
{
    match i {
        0 => Field::Member(Key::Data),
        1 => Field::Member(Key::Style),
        2 => Field::Member(Key::Title),
        3 => Field::Member(Key::Lang),
        _ => Field::Member(Key::Data),
    }
}

proof fn lemma_styled_member_index(i: int)
    requires
        0 <= i < 4,
    ensures
        styled_member_index(styled_member_at(i)) == i,
{
}

impl Members for StyledElement {
    open spec fn members() -> Seq<Field> {
        Seq::new(4, |i: int| styled_member_at(i))
    }

    open spec fn has(self, f: Field) -> bool {
        match f {
            Field::Member(Key::Data) => self.data is Some,
            Field::Member(Key::Style) => self.style is Some,
            Field::Member(Key::Title) => self.title is Some,
            Field::Member(Key::Lang) => self.lang is Some,
            _ => false,
        }
    }

    open spec fn member_encodes(self, f: Field, v: JsonValue) -> bool {
        match f {
            Field::Member(Key::Data) => self.data matches Some(x) && x.encodes_to(v),
            Field::Member(Key::Style) => self.style matches Some(x) && x.encodes_to(v),
            Field::Member(Key::Title) => self.title matches Some(x) && x.encodes_to(v),
            Field::Member(Key::Lang) => self.lang matches Some(x) && x.encodes_to(v),
            _ => false,
        }
    }

    open spec fn member_decodes(self, es: Seq<(String, JsonValue)>, f: Field) -> bool {
        match f {
            Field::Member(Key::Data) => member_decodes_to(es, f, self.data),
            Field::Member(Key::Style) => member_decodes_to(es, f, self.style),
            Field::Member(Key::Title) => member_decodes_to(es, f, self.title),
            Field::Member(Key::Lang) => member_decodes_to(es, f, self.lang),
            _ => true,
        }
    }

    open spec fn member_failure(es: Seq<(String, JsonValue)>, f: Field) -> Option<Failure> {
        match f {
            Field::Member(Key::Data) => member_failure::<StructuredContentData>(es, f),
            Field::Member(Key::Style) => member_failure::<StructuredContentStyle>(es, f),
            Field::Member(Key::Title) => member_failure::<String>(es, f),
            Field::Member(Key::Lang) => member_failure::<String>(es, f),
            _ => None,
        }
    }

    proof fn lemma_member_round_trip(self, es: Seq<(String, JsonValue)>, f: Field) {
        if self.has(f) {
            let j = choose|j: int| 0 <= j < es.len() && find_key(es, f.spec_name()) == Some(j) && self.member_encodes(f, #[trigger] es[j].1);
            match f {
                Field::Member(Key::Data) => self.data.unwrap().lemma_round_trip(es[j].1, f),
                Field::Member(Key::Style) => self.style.unwrap().lemma_round_trip(es[j].1, f),
                Field::Member(Key::Title) => self.title.unwrap().lemma_round_trip(es[j].1, f),
                Field::Member(Key::Lang) => self.lang.unwrap().lemma_round_trip(es[j].1, f),
                _ => {},
            }
        }
    }
}

/// No two members of `StyledElement` are spelled alike.
pub proof fn lemma_styled_names_distinct()
    ensures
        distinct_names(StyledElement::members()),
{
    let m = StyledElement::members();
    assert forall|i: int, j: int| 0 <= i < j < m.len() implies (#[trigger] m[i]).spec_name() != (#[trigger] m[j]).spec_name() by {
        lemma_styled_member_index(i);
        lemma_styled_member_index(j);
        lemma_field_names_injective(m[i], m[j]);
    }
}

/// Decodes the members of a `StyledElement` from the members `es` of an object.
fn decode_styled_members(es: &Vec<(String, JsonValue)>, tag: StyledElementTag) -> (r: Result<StyledElement, DecodeError>)
    ensures
        match r {
            Ok(x) => failure_from::<StyledElement>(es@, StyledElement::members(), 0) is None && decodes_members(x, es@) && x.tag == tag,
            Err(e) => failure_from::<StyledElement>(es@, StyledElement::members(), 0) == Some(e@),
        },
{
    let mut out = StyledElement::blank(tag);
    let mut i: usize = 0;
    while i < 4
        invariant
            i <= 4,
            out.tag == tag,
            failure_from::<StyledElement>(es@, StyledElement::members(), 0) == failure_from::<StyledElement>(es@, StyledElement::members(), i as int),
            forall|j: int| 0 <= j < i ==> #[trigger] out.member_decodes(es@, styled_member_at(j)),
        decreases 4 - i,
    {
        let f = styled_member_at_exec(i);
        assert(StyledElement::members()[i as int] == f);
        let ghost before = out;
        match i {
            0 => {
                out.data = match decode_member::<StructuredContentData>(es, f) {
                    Ok(x) => x,
                    Err(e) => return Err(e),
                };
            },
            1 => {
                out.style = match decode_member::<StructuredContentStyle>(es, f) {
                    Ok(x) => x,
                    Err(e) => return Err(e),
                };
            },
            2 => {
                out.title = match decode_member::<String>(es, f) {
                    Ok(x) => x,
                    Err(e) => return Err(e),
                };
            },
            3 => {
                out.lang = match decode_member::<String>(es, f) {
                    Ok(x) => x,
                    Err(e) => return Err(e),
                };
            },
            _ => {},
        }
        assert forall|j: int| 0 <= j < i + 1 implies #[trigger] out.member_decodes(es@, styled_member_at(j)) by {
            if j < i {
                lemma_styled_member_index(j);
                lemma_styled_member_index(i as int);
                assert(before.member_decodes(es@, styled_member_at(j)));
            }
        }
        i = i + 1;
    }
    assert forall|f: Field| StyledElement::members().contains(f) implies #[trigger] out.member_decodes(es@, f) by {
        let j = choose|j: int| 0 <= j < 4 && StyledElement::members()[j] == f;
    }
    Ok(out)
}

proof fn lemma_styled_contains(f: Field)
    ensures
        StyledElement::members().contains(f) ==> styled_member_index(f) < 4,
{
    if StyledElement::members().contains(f) {
        let i = choose|i: int| 0 <= i < 4 && StyledElement::members()[i] == f;
        lemma_styled_member_index(i);
    }
}

/// Whether `k` names a member of `StyledElement`.
fn styled_has_key(k: Key) -> (r: bool)
    ensures
        r == StyledElement::members().contains(Field::Member(k)),
{
    proof { lemma_styled_contains(Field::Member(k)); }
    match k {
        Key::Data => {
            assert(StyledElement::members()[0] == Field::Member(k));
            true
        },
        Key::Style => {
            assert(StyledElement::members()[1] == Field::Member(k));
            true
        },
        Key::Title => {
            assert(StyledElement::members()[2] == Field::Member(k));
            true
        },
        Key::Lang => {
            assert(StyledElement::members()[3] == Field::Member(k));
            true
        },
        _ => false,
    }
}

/// The members of `StyledElement` are spelled neither `tag` nor `content`.
proof fn lemma_styled_names_apart(f: Field)
    requires
        StyledElement::members().contains(f),
    ensures
        f is Member,
        f.spec_name() != Key::Tag.spec_name(),
        f.spec_name() != Key::Content.spec_name(),
{
    lemma_styled_contains(f);
    lemma_field_names_injective(f, Field::Member(Key::Tag));
    lemma_field_names_injective(f, Field::Member(Key::Content));
}

/// Encodes the members of a `StyledElement`, in canonical order.
fn encode_styled_members(x: &StyledElement, es: &mut Vec<(String, JsonValue)>)
    requires
        old(es)@.len() == 0,
    ensures
        encodes_members(*x, final(es)@),
{
    let mut i: usize = 0;
    while i < 4
        invariant
            i <= 4,
            encodes_members_prefix(*x, es@, StyledElement::members(), i as int),
        decreases 4 - i,
    {
        let f = styled_member_at_exec(i);
        assert(StyledElement::members()[i as int] == f);
        proof { lemma_present_step(*x, StyledElement::members(), i as int); }
        let ghost before = es@;
        match i {
            0 => push_member(es, f, &x.data),
            1 => push_member(es, f, &x.style),
            2 => push_member(es, f, &x.title),
            3 => push_member(es, f, &x.lang),
            _ => {},
        }
        proof { lemma_prefix_extend(*x, before, es@, StyledElement::members(), i as int); }
        i = i + 1;
    }
    proof { lemma_prefix_complete(*x, es@, StyledElement::members()); }
}

/// An image, by its path in the dictionary archive.
#[derive(Clone, Debug, PartialEq)]
pub struct ImageElement {
    pub tag: ImageElementTag,
    pub path: String,
    pub data: Option<StructuredContentData>,
    pub width: Option<i32>,
    pub height: Option<i32>,
    pub title: Option<String>,
    pub alt: Option<String>,
    pub description: Option<String>,
    pub pixelated: Option<bool>,
    pub image_rendering: Option<ImageRendering>,
    pub appearance: Option<ImageAppearance>,
    pub background: Option<bool>,
    pub collapsed: Option<bool>,
    pub collapsible: Option<bool>,
    pub vertical_align: Option<VerticalAlign>,
    pub border: Option<String>,
    pub border_radius: Option<String>,
    pub size_units: Option<SizeUnit>,
}

impl ImageElement {
    /// An element of the given tag with no member set.
    pub fn blank(tag: ImageElementTag) -> (r: ImageElement)
        ensures
            r.tag == tag,
    {
        ImageElement {
            tag,
            path: String::new(),
            data: None,
            width: None,
            height: None,
            title: None,
            alt: None,
            description: None,
            pixelated: None,
            image_rendering: None,
            appearance: None,
            background: None,
            collapsed: None,
            collapsible: None,
            vertical_align: None,
            border: None,
            border_radius: None,
            size_units: None,
        }
    }
}

/// The member at position `i` of the canonical order of `ImageElement`.
pub open spec fn image_member_at(i: int) -> Field {
    if i == 0 {
        Field::Member(Key::Path)
    } else if i == 1 {
        Field::Member(Key::Data)
    } else if i == 2 {
        Field::Member(Key::Width)
    } else if i == 3 {
        Field::Member(Key::Height)
    } else if i == 4 {
        Field::Member(Key::Title)
    } else if i == 5 {
        Field::Member(Key::Alt)
    } else if i == 6 {
        Field::Member(Key::Description)
    } else if i == 7 {
        Field::Member(Key::Pixelated)
    } else if i == 8 {
        Field::Member(Key::ImageRendering)
    } else if i == 9 {
        Field::Member(Key::Appearance)
    } else if i == 10 {
        Field::Member(Key::Background)
    } else if i == 11 {
        Field::Member(Key::Collapsed)
    } else if i == 12 {
        Field::Member(Key::Collapsible)
    } else if i == 13 {
        Field::Member(Key::VerticalAlign)
    } else if i == 14 {
        Field::Member(Key::Border)
    } else if i == 15 {
        Field::Member(Key::BorderRadius)
    } else if i == 16 {
        Field::Member(Key::SizeUnits)
    } else {
        Field::Member(Key::Path)
    }
}

/// The position of `f` in the canonical order of `ImageElement`.
pub open spec fn image_member_index(f: Field) -> int {
    match f {
        Field::Member(Key::Path) => 0,
        Field::Member(Key::Data) => 1,
        Field::Member(Key::Width) => 2,
        Field::Member(Key::Height) => 3,
        Field::Member(Key::Title) => 4,
        Field::Member(Key::Alt) => 5,
        Field::Member(Key::Description) => 6,
        Field::Member(Key::Pixelated) => 7,
        Field::Member(Key::ImageRendering) => 8,
        Field::Member(Key::Appearance) => 9,
        Field::Member(Key::Background) => 10,
        Field::Member(Key::Collapsed) => 11,
        Field::Member(Key::Collapsible) => 12,
        Field::Member(Key::VerticalAlign) => 13,
        Field::Member(Key::Border) => 14,
        Field::Member(Key::BorderRadius) => 15,
        Field::Member(Key::SizeUnits) => 16,
        _ => 17,
    }
}

fn image_member_at_exec(i: usize) -> (r: Field)
    ensures
        r == image_member_at(i as int),
{
    match i {
        0 => Field::Member(Key::Path),
        1 => Field::Member(Key::Data),
        2 => Field::Member(Key::Width),
        3 => Field::Member(Key::Height),
        4 => Field::Member(Key::Title),
        5 => Field::Member(Key::Alt),
        6 => Field::Member(Key::Description),
        7 => Field::Member(Key::Pixelated),
        8 => Field::Member(Key::ImageRendering),
        9 => Field::Member(Key::Appearance),
        10 => Field::Member(Key::Background),
        11 => Field::Member(Key::Collapsed),
        12 => Field::Member(Key::Collapsible),
        13 => Field::Member(Key::VerticalAlign),
        14 => Field::Member(Key::Border),
        15 => Field::Member(Key::BorderRadius),
        16 => Field::Member(Key::SizeUnits),
        _ => Field::Member(Key::Path),
    }
}

proof fn lemma_image_member_index(i: int)
    requires
        0 <= i < 17,
    ensures
        image_member_index(image_member_at(i)) == i,
{
}

impl Members for ImageElement {
    open spec fn members() -> Seq<Field> {
        Seq::new(17, |i: int| image_member_at(i))
    }

    open spec fn has(self, f: Field) -> bool {
        match f {
            Field::Member(Key::Path) => true,
            Field::Member(Key::Data) => self.data is Some,
            Field::Member(Key::Width) => self.width is Some,
            Field::Member(Key::Height) => self.height is Some,
            Field::Member(Key::Title) => self.title is Some,
            Field::Member(Key::Alt) => self.alt is Some,
            Field::Member(Key::Description) => self.description is Some,
            Field::Member(Key::Pixelated) => self.pixelated is Some,
            Field::Member(Key::ImageRendering) => self.image_rendering is Some,
            Field::Member(Key::Appearance) => self.appearance is Some,
            Field::Member(Key::Background) => self.background is Some,
            Field::Member(Key::Collapsed) => self.collapsed is Some,
            Field::Member(Key::Collapsible) => self.collapsible is Some,
            Field::Member(Key::VerticalAlign) => self.vertical_align is Some,
            Field::Member(Key::Border) => self.border is Some,
            Field::Member(Key::BorderRadius) => self.border_radius is Some,
            Field::Member(Key::SizeUnits) => self.size_units is Some,
            _ => false,
        }
    }

    open spec fn member_encodes(self, f: Field, v: JsonValue) -> bool {
        match f {
            Field::Member(Key::Path) => self.path.encodes_to(v),
            Field::Member(Key::Data) => self.data matches Some(x) && x.encodes_to(v),
            Field::Member(Key::Width) => self.width matches Some(x) && x.encodes_to(v),
            Field::Member(Key::Height) => self.height matches Some(x) && x.encodes_to(v),
            Field::Member(Key::Title) => self.title matches Some(x) && x.encodes_to(v),
            Field::Member(Key::Alt) => self.alt matches Some(x) && x.encodes_to(v),
            Field::Member(Key::Description) => self.description matches Some(x) && x.encodes_to(v),
            Field::Member(Key::Pixelated) => self.pixelated matches Some(x) && x.encodes_to(v),
            Field::Member(Key::ImageRendering) => self.image_rendering matches Some(x) && x.encodes_to(v),
            Field::Member(Key::Appearance) => self.appearance matches Some(x) && x.encodes_to(v),
            Field::Member(Key::Background) => self.background matches Some(x) && x.encodes_to(v),
            Field::Member(Key::Collapsed) => self.collapsed matches Some(x) && x.encodes_to(v),
            Field::Member(Key::Collapsible) => self.collapsible matches Some(x) && x.encodes_to(v),
            Field::Member(Key::VerticalAlign) => self.vertical_align matches Some(x) && x.encodes_to(v),
            Field::Member(Key::Border) => self.border matches Some(x) && x.encodes_to(v),
            Field::Member(Key::BorderRadius) => self.border_radius matches Some(x) && x.encodes_to(v),
            Field::Member(Key::SizeUnits) => self.size_units matches Some(x) && x.encodes_to(v),
            _ => false,
        }
    }

    open spec fn member_decodes(self, es: Seq<(String, JsonValue)>, f: Field) -> bool {
        match f {
            Field::Member(Key::Path) => required_decodes_to(es, f, self.path),
            Field::Member(Key::Data) => member_decodes_to(es, f, self.data),
            Field::Member(Key::Width) => member_decodes_to(es, f, self.width),
            Field::Member(Key::Height) => member_decodes_to(es, f, self.height),
            Field::Member(Key::Title) => member_decodes_to(es, f, self.title),
            Field::Member(Key::Alt) => member_decodes_to(es, f, self.alt),
            Field::Member(Key::Description) => member_decodes_to(es, f, self.description),
            Field::Member(Key::Pixelated) => member_decodes_to(es, f, self.pixelated),
            Field::Member(Key::ImageRendering) => member_decodes_to(es, f, self.image_rendering),
            Field::Member(Key::Appearance) => member_decodes_to(es, f, self.appearance),
            Field::Member(Key::Background) => member_decodes_to(es, f, self.background),
            Field::Member(Key::Collapsed) => member_decodes_to(es, f, self.collapsed),
            Field::Member(Key::Collapsible) => member_decodes_to(es, f, self.collapsible),
            Field::Member(Key::VerticalAlign) => member_decodes_to(es, f, self.vertical_align),
            Field::Member(Key::Border) => member_decodes_to(es, f, self.border),
            Field::Member(Key::BorderRadius) => member_decodes_to(es, f, self.border_radius),
            Field::Member(Key::SizeUnits) => member_decodes_to(es, f, self.size_units),
            _ => true,
        }
    }

    open spec fn member_failure(es: Seq<(String, JsonValue)>, f: Field) -> Option<Failure> {
        match f {
            Field::Member(Key::Path) => required_failure::<String>(es, f),
            Field::Member(Key::Data) => member_failure::<StructuredContentData>(es, f),
            Field::Member(Key::Width) => member_failure::<i32>(es, f),
            Field::Member(Key::Height) => member_failure::<i32>(es, f),
            Field::Member(Key::Title) => member_failure::<String>(es, f),
            Field::Member(Key::Alt) => member_failure::<String>(es, f),
            Field::Member(Key::Description) => member_failure::<String>(es, f),
            Field::Member(Key::Pixelated) => member_failure::<bool>(es, f),
            Field::Member(Key::ImageRendering) => member_failure::<ImageRendering>(es, f),
            Field::Member(Key::Appearance) => member_failure::<ImageAppearance>(es, f),
            Field::Member(Key::Background) => member_failure::<bool>(es, f),
            Field::Member(Key::Collapsed) => member_failure::<bool>(es, f),
            Field::Member(Key::Collapsible) => member_failure::<bool>(es, f),
            Field::Member(Key::VerticalAlign) => member_failure::<VerticalAlign>(es, f),
            Field::Member(Key::Border) => member_failure::<String>(es, f),
            Field::Member(Key::BorderRadius) => member_failure::<String>(es, f),
            Field::Member(Key::SizeUnits) => member_failure::<SizeUnit>(es, f),
            _ => None,
        }
    }

    proof fn lemma_member_round_trip(self, es: Seq<(String, JsonValue)>, f: Field) {
        if self.has(f) {
            let j = choose|j: int| 0 <= j < es.len() && find_key(es, f.spec_name()) == Some(j) && self.member_encodes(f, #[trigger] es[j].1);
            match f {
                Field::Member(Key::Path) => self.path.lemma_round_trip(es[j].1, f),
                Field::Member(Key::Data) => self.data.unwrap().lemma_round_trip(es[j].1, f),
                Field::Member(Key::Width) => self.width.unwrap().lemma_round_trip(es[j].1, f),
                Field::Member(Key::Height) => self.height.unwrap().lemma_round_trip(es[j].1, f),
                Field::Member(Key::Title) => self.title.unwrap().lemma_round_trip(es[j].1, f),
                Field::Member(Key::Alt) => self.alt.unwrap().lemma_round_trip(es[j].1, f),
                Field::Member(Key::Description) => self.description.unwrap().lemma_round_trip(es[j].1, f),
                Field::Member(Key::Pixelated) => self.pixelated.unwrap().lemma_round_trip(es[j].1, f),
                Field::Member(Key::ImageRendering) => self.image_rendering.unwrap().lemma_round_trip(es[j].1, f),
                Field::Member(Key::Appearance) => self.appearance.unwrap().lemma_round_trip(es[j].1, f),
                Field::Member(Key::Background) => self.background.unwrap().lemma_round_trip(es[j].1, f),
                Field::Member(Key::Collapsed) => self.collapsed.unwrap().lemma_round_trip(es[j].1, f),
                Field::Member(Key::Collapsible) => self.collapsible.unwrap().lemma_round_trip(es[j].1, f),
                Field::Member(Key::VerticalAlign) => self.vertical_align.unwrap().lemma_round_trip(es[j].1, f),
                Field::Member(Key::Border) => self.border.unwrap().lemma_round_trip(es[j].1, f),
                Field::Member(Key::BorderRadius) => self.border_radius.unwrap().lemma_round_trip(es[j].1, f),
                Field::Member(Key::SizeUnits) => self.size_units.unwrap().lemma_round_trip(es[j].1, f),
                _ => {},
            }
        }
    }
}

/// No two members of `ImageElement` are spelled alike.
pub proof fn lemma_image_names_distinct()
    ensures
        distinct_names(ImageElement::members()),
{
    let m = ImageElement::members();
    assert forall|i: int, j: int| 0 <= i < j < m.len() implies (#[trigger] m[i]).spec_name() != (#[trigger] m[j]).spec_name() by {
        lemma_image_member_index(i);
        lemma_image_member_index(j);
        lemma_field_names_injective(m[i], m[j]);
    }
}

/// Decodes the members of a `ImageElement` from the members `es` of an object.
fn decode_image_members(es: &Vec<(String, JsonValue)>, tag: ImageElementTag) -> (r: Result<ImageElement, DecodeError>)
    ensures
        match r {
            Ok(x) => failure_from::<ImageElement>(es@, ImageElement::members(), 0) is None && decodes_members(x, es@) && x.tag == tag,
            Err(e) => failure_from::<ImageElement>(es@, ImageElement::members(), 0) == Some(e@),
        },
{
    let mut out = ImageElement::blank(tag);
    let mut i: usize = 0;
    while i < 17
        invariant
            i <= 17,
            out.tag == tag,
            failure_from::<ImageElement>(es@, ImageElement::members(), 0) == failure_from::<ImageElement>(es@, ImageElement::members(), i as int),
            forall|j: int| 0 <= j < i ==> #[trigger] out.member_decodes(es@, image_member_at(j)),
        decreases 17 - i,
    {
        let f = image_member_at_exec(i);
        assert(ImageElement::members()[i as int] == f);
        let ghost before = out;
        match i {
            0 => {
                out.path = match decode_required::<String>(es, f) {
                    Ok(x) => x,
                    Err(e) => return Err(e),
                };
            },
            1 => {
                out.data = match decode_member::<StructuredContentData>(es, f) {
                    Ok(x) => x,
                    Err(e) => return Err(e),
                };
            },
            2 => {
                out.width = match decode_member::<i32>(es, f) {
                    Ok(x) => x,
                    Err(e) => return Err(e),
                };
            },
            3 => {
                out.height = match decode_member::<i32>(es, f) {
                    Ok(x) => x,
                    Err(e) => return Err(e),
                };
            },
            4 => {
                out.title = match decode_member::<String>(es, f) {
                    Ok(x) => x,
                    Err(e) => return Err(e),
                };
            },
            5 => {
                out.alt = match decode_member::<String>(es, f) {
                    Ok(x) => x,
                    Err(e) => return Err(e),
                };
            },
            6 => {
                out.description = match decode_member::<String>(es, f) {
                    Ok(x) => x,
                    Err(e) => return Err(e),
                };
            },
            7 => {
                out.pixelated = match decode_member::<bool>(es, f) {
                    Ok(x) => x,
                    Err(e) => return Err(e),
                };
            },
            8 => {
                out.image_rendering = match decode_member::<ImageRendering>(es, f) {
                    Ok(x) => x,
                    Err(e) => return Err(e),
                };
            },
            9 => {
                out.appearance = match decode_member::<ImageAppearance>(es, f) {
                    Ok(x) => x,
                    Err(e) => return Err(e),
                };
            },
            10 => {
                out.background = match decode_member::<bool>(es, f) {
                    Ok(x) => x,
                    Err(e) => return Err(e),
                };
            },
            11 => {
                out.collapsed = match decode_member::<bool>(es, f) {
                    Ok(x) => x,
                    Err(e) => return Err(e),
                };
            },
            12 => {
                out.collapsible = match decode_member::<bool>(es, f) {
                    Ok(x) => x,
                    Err(e) => return Err(e),
                };
            },
            13 => {
                out.vertical_align = match decode_member::<VerticalAlign>(es, f) {
                    Ok(x) => x,
                    Err(e) => return Err(e),
                };
            },
            14 => {
                out.border = match decode_member::<String>(es, f) {
                    Ok(x) => x,
                    Err(e) => return Err(e),
                };
            },
            15 => {
                out.border_radius = match decode_member::<String>(es, f) {
                    Ok(x) => x,
                    Err(e) => return Err(e),
                };
            },
            16 => {
                out.size_units = match decode_member::<SizeUnit>(es, f) {
                    Ok(x) => x,
                    Err(e) => return Err(e),
                };
            },
            _ => {},
        }
        assert forall|j: int| 0 <= j < i + 1 implies #[trigger] out.member_decodes(es@, image_member_at(j)) by {
            if j < i {
                lemma_image_member_index(j);
                lemma_image_member_index(i as int);
                assert(before.member_decodes(es@, image_member_at(j)));
            }
        }
        i = i + 1;
    }
    assert forall|f: Field| ImageElement::members().contains(f) implies #[trigger] out.member_decodes(es@, f) by {
        let j = choose|j: int| 0 <= j < 17 && ImageElement::members()[j] == f;
    }
    Ok(out)
}

proof fn lemma_image_contains(f: Field)
    ensures
        ImageElement::members().contains(f) ==> image_member_index(f) < 17,
{
    if ImageElement::members().contains(f) {
        let i = choose|i: int| 0 <= i < 17 && ImageElement::members()[i] == f;
        lemma_image_member_index(i);
    }
}

/// Whether `k` names a member of `ImageElement`.
fn image_has_key(k: Key) -> (r: bool)
    ensures
        r == ImageElement::members().contains(Field::Member(k)),
{
    proof { lemma_image_contains(Field::Member(k)); }
    match k {
        Key::Path => {
            assert(ImageElement::members()[0] == Field::Member(k));
            true
        },
        Key::Data => {
            assert(ImageElement::members()[1] == Field::Member(k));
            true
        },
        Key::Width => {
            assert(ImageElement::members()[2] == Field::Member(k));
            true
        },
        Key::Height => {
            assert(ImageElement::members()[3] == Field::Member(k));
            true
        },
        Key::Title => {
            assert(ImageElement::members()[4] == Field::Member(k));
            true
        },
        Key::Alt => {
            assert(ImageElement::members()[5] == Field::Member(k));
            true
        },
        Key::Description => {
            assert(ImageElement::members()[6] == Field::Member(k));
            true
        },
        Key::Pixelated => {
            assert(ImageElement::members()[7] == Field::Member(k));
            true
        },
        Key::ImageRendering => {
            assert(ImageElement::members()[8] == Field::Member(k));
            true
        },
        Key::Appearance => {
            assert(ImageElement::members()[9] == Field::Member(k));
            true
        },
        Key::Background => {
            assert(ImageElement::members()[10] == Field::Member(k));
            true
        },
        Key::Collapsed => {
            assert(ImageElement::members()[11] == Field::Member(k));
            true
        },
        Key::Collapsible => {
            assert(ImageElement::members()[12] == Field::Member(k));
            true
        },
        Key::VerticalAlign => {
            assert(ImageElement::members()[13] == Field::Member(k));
            true
        },
        Key::Border => {
            assert(ImageElement::members()[14] == Field::Member(k));
            true
        },
        Key::BorderRadius => {
            assert(ImageElement::members()[15] == Field::Member(k));
            true
        },
        Key::SizeUnits => {
            assert(ImageElement::members()[16] == Field::Member(k));
            true
        },
        _ => false,
    }
}

/// The members of `ImageElement` are spelled neither `tag` nor `content`.
proof fn lemma_image_names_apart(f: Field)
    requires
        ImageElement::members().contains(f),
    ensures
        f is Member,
        f.spec_name() != Key::Tag.spec_name(),
        f.spec_name() != Key::Content.spec_name(),
{
    lemma_image_contains(f);
    lemma_field_names_injective(f, Field::Member(Key::Tag));
    lemma_field_names_injective(f, Field::Member(Key::Content));
}

/// Encodes the members of a `ImageElement`, in canonical order.
fn encode_image_members(x: &ImageElement, es: &mut Vec<(String, JsonValue)>)
    requires
        old(es)@.len() == 0,
    ensures
        encodes_members(*x, final(es)@),
{
    let mut i: usize = 0;
    while i < 17
        invariant
            i <= 17,
            encodes_members_prefix(*x, es@, ImageElement::members(), i as int),
        decreases 17 - i,
    {
        let f = image_member_at_exec(i);
        assert(ImageElement::members()[i as int] == f);
        proof { lemma_present_step(*x, ImageElement::members(), i as int); }
        let ghost before = es@;
        match i {
            0 => push_required(es, f, &x.path),
            1 => push_member(es, f, &x.data),
            2 => push_member(es, f, &x.width),
            3 => push_member(es, f, &x.height),
            4 => push_member(es, f, &x.title),
            5 => push_member(es, f, &x.alt),
            6 => push_member(es, f, &x.description),
            7 => push_member(es, f, &x.pixelated),
            8 => push_member(es, f, &x.image_rendering),
            9 => push_member(es, f, &x.appearance),
            10 => push_member(es, f, &x.background),
            11 => push_member(es, f, &x.collapsed),
            12 => push_member(es, f, &x.collapsible),
            13 => push_member(es, f, &x.vertical_align),
            14 => push_member(es, f, &x.border),
            15 => push_member(es, f, &x.border_radius),
            16 => push_member(es, f, &x.size_units),
            _ => {},
        }
        proof { lemma_prefix_extend(*x, before, es@, ImageElement::members(), i as int); }
        i = i + 1;
    }
    proof { lemma_prefix_complete(*x, es@, ImageElement::members()); }
}

/// A hyperlink.
#[derive(Debug)]
pub struct LinkElement {
    pub tag: LinkElementTag,
    pub content: Option<StructuredContentNode>,
    pub href: String,
    pub lang: Option<String>,
}

impl LinkElement {
    /// An element of the given tag with no member set.
    pub fn blank(tag: LinkElementTag) -> (r: LinkElement)
        ensures
            r.tag == tag,
            r.content is None,
    {
        LinkElement {
            tag,
            content: None,
            href: String::new(),
            lang: None,
        }
    }
}

/// The member at position `i` of the canonical order of `LinkElement`.
pub open spec fn link_member_at(i: int) -> Field {
    if i == 0 {
        Field::Member(Key::Href)
    } else if i == 1 {
        Field::Member(Key::Lang)
    } else {
        Field::Member(Key::Href)
    }
}

/// The position of `f` in the canonical order of `LinkElement`.
pub open spec fn link_member_index(f: Field) -> int {
    match f {
        Field::Member(Key::Href) => 0,
        Field::Member(Key::Lang) => 1,
        _ => 2,
    }
}

fn link_member_at_exec(i: usize) -> (r: Field)
    ensures
        r == link_member_at(i as int),
{
    match i {
        0 => Field::Member(Key::Href),
        1 => Field::Member(Key::Lang),
        _ => Field::Member(Key::Href),
    }
}

proof fn lemma_link_member_index(i: int)
    requires
        0 <= i < 2,
    ensures
        link_member_index(link_member_at(i)) == i,
{
}

impl Members for LinkElement {
    open spec fn members() -> Seq<Field> {
        Seq::new(2, |i: int| link_member_at(i))
    }

    open spec fn has(self, f: Field) -> bool {
        match f {
            Field::Member(Key::Href) => true,
            Field::Member(Key::Lang) => self.lang is Some,
            _ => false,
        }
    }

    open spec fn member_encodes(self, f: Field, v: JsonValue) -> bool {
        match f {
            Field::Member(Key::Href) => self.href.encodes_to(v),
            Field::Member(Key::Lang) => self.lang matches Some(x) && x.encodes_to(v),
            _ => false,
        }
    }

    open spec fn member_decodes(self, es: Seq<(String, JsonValue)>, f: Field) -> bool {
        match f {
            Field::Member(Key::Href) => required_decodes_to(es, f, self.href),
            Field::Member(Key::Lang) => member_decodes_to(es, f, self.lang),
            _ => true,
        }
    }

    open spec fn member_failure(es: Seq<(String, JsonValue)>, f: Field) -> Option<Failure> {
        match f {
            Field::Member(Key::Href) => required_failure::<String>(es, f),
            Field::Member(Key::Lang) => member_failure::<String>(es, f),
            _ => None,
        }
    }

    proof fn lemma_member_round_trip(self, es: Seq<(String, JsonValue)>, f: Field) {
        if self.has(f) {
            let j = choose|j: int| 0 <= j < es.len() && find_key(es, f.spec_name()) == Some(j) && self.member_encodes(f, #[trigger] es[j].1);
            match f {
                Field::Member(Key::Href) => self.href.lemma_round_trip(es[j].1, f),
                Field::Member(Key::Lang) => self.lang.unwrap().lemma_round_trip(es[j].1, f),
                _ => {},
            }
        }
    }
}

/// No two members of `LinkElement` are spelled alike.
pub proof fn lemma_link_names_distinct()
    ensures
        distinct_names(LinkElement::members()),
{
    let m = LinkElement::members();
    assert forall|i: int, j: int| 0 <= i < j < m.len() implies (#[trigger] m[i]).spec_name() != (#[trigger] m[j]).spec_name() by {
        lemma_link_member_index(i);
        lemma_link_member_index(j);
        lemma_field_names_injective(m[i], m[j]);
    }
}

/// Decodes the members of a `LinkElement` from the members `es` of an object.
fn decode_link_members(es: &Vec<(String, JsonValue)>, tag: LinkElementTag) -> (r: Result<LinkElement, DecodeError>)
    ensures
        match r {
            Ok(x) => failure_from::<LinkElement>(es@, LinkElement::members(), 0) is None && decodes_members(x, es@) && x.tag == tag,
            Err(e) => failure_from::<LinkElement>(es@, LinkElement::members(), 0) == Some(e@),
        },
{
    let mut out = LinkElement::blank(tag);
    let mut i: usize = 0;
    while i < 2
        invariant
            i <= 2,
            out.tag == tag,
            failure_from::<LinkElement>(es@, LinkElement::members(), 0) == failure_from::<LinkElement>(es@, LinkElement::members(), i as int),
            forall|j: int| 0 <= j < i ==> #[trigger] out.member_decodes(es@, link_member_at(j)),
        decreases 2 - i,
    {
        let f = link_member_at_exec(i);
        assert(LinkElement::members()[i as int] == f);
        let ghost before = out;
        match i {
            0 => {
                out.href = match decode_required::<String>(es, f) {
                    Ok(x) => x,
                    Err(e) => return Err(e),
                };
            },
            1 => {
                out.lang = match decode_member::<String>(es, f) {
                    Ok(x) => x,
                    Err(e) => return Err(e),
                };
            },
            _ => {},
        }
        assert forall|j: int| 0 <= j < i + 1 implies #[trigger] out.member_decodes(es@, link_member_at(j)) by {
            if j < i {
                lemma_link_member_index(j);
                lemma_link_member_index(i as int);
                assert(before.member_decodes(es@, link_member_at(j)));
            }
        }
        i = i + 1;
    }
    assert forall|f: Field| LinkElement::members().contains(f) implies #[trigger] out.member_decodes(es@, f) by {
        let j = choose|j: int| 0 <= j < 2 && LinkElement::members()[j] == f;
    }
    Ok(out)
}

proof fn lemma_link_contains(f: Field)
    ensures
        LinkElement::members().contains(f) ==> link_member_index(f) < 2,
{
    if LinkElement::members().contains(f) {
        let i = choose|i: int| 0 <= i < 2 && LinkElement::members()[i] == f;
        lemma_link_member_index(i);
    }
}

/// Whether `k` names a member of `LinkElement`.
fn link_has_key(k: Key) -> (r: bool)
    ensures
        r == LinkElement::members().contains(Field::Member(k)),
{
    proof { lemma_link_contains(Field::Member(k)); }
    match k {
        Key::Href => {
            assert(LinkElement::members()[0] == Field::Member(k));
            true
        },
        Key::Lang => {
            assert(LinkElement::members()[1] == Field::Member(k));
            true
        },
        _ => false,
    }
}

/// The members of `LinkElement` are spelled neither `tag` nor `content`.
proof fn lemma_link_names_apart(f: Field)
    requires
        LinkElement::members().contains(f),
    ensures
        f is Member,
        f.spec_name() != Key::Tag.spec_name(),
        f.spec_name() != Key::Content.spec_name(),
{
    lemma_link_contains(f);
    lemma_field_names_injective(f, Field::Member(Key::Tag));
    lemma_field_names_injective(f, Field::Member(Key::Content));
}

/// Encodes the members of a `LinkElement`, in canonical order.
fn encode_link_members(x: &LinkElement, es: &mut Vec<(String, JsonValue)>)
    requires
        old(es)@.len() == 0,
    ensures
        encodes_members(*x, final(es)@),
{
    let mut i: usize = 0;
    while i < 2
        invariant
            i <= 2,
            encodes_members_prefix(*x, es@, LinkElement::members(), i as int),
        decreases 2 - i,
    {
        let f = link_member_at_exec(i);
        assert(LinkElement::members()[i as int] == f);
        proof { lemma_present_step(*x, LinkElement::members(), i as int); }
        let ghost before = es@;
        match i {
            0 => push_required(es, f, &x.href),
            1 => push_member(es, f, &x.lang),
            _ => {},
        }
        proof { lemma_prefix_extend(*x, before, es@, LinkElement::members(), i as int); }
        i = i + 1;
    }
    proof { lemma_prefix_complete(*x, es@, LinkElement::members()); }
}


/// One element of structured content, of one of the six categories.
#[derive(Debug)]
pub enum TagElement {
    LineBreak(LineBreakElement),
    Unstyled(UnstyledElement),
    Table(TableElement),
    Styled(StyledElement),
    Image(ImageElement),
    Link(LinkElement),
}

/// A node of structured content: a run of text, an element, or a list of
/// sibling nodes kept exactly as the document nested them.
#[derive(Debug)]
pub enum StructuredContentNode {
    Text(String),
    Element(Box<TagElement>),
    Children(Vec<StructuredContentNode>),
}

/// Elements that report their tag by its canonical name.
pub trait Tagged {
    spec fn spec_tag_name(&self) -> Seq<char>;

    fn tag(&self) -> (r: String)
        ensures
            r@ == self.spec_tag_name(),
    ;
}

impl TagElement {
    /// The tag of this element.
    pub open spec fn spec_tag(&self) -> ElementTag {
        match self {
            TagElement::LineBreak(x) => ElementTag::LineBreak(x.tag),
            TagElement::Unstyled(x) => ElementTag::Unstyled(x.tag),
            TagElement::Table(x) => ElementTag::Table(x.tag),
            TagElement::Styled(x) => ElementTag::Styled(x.tag),
            TagElement::Image(x) => ElementTag::Image(x.tag),
            TagElement::Link(x) => ElementTag::Link(x.tag),
        }
    }

    /// The tag of this element.
    pub fn element_tag(&self) -> (r: ElementTag)
        ensures
            r == self.spec_tag(),
    {
        match self {
            TagElement::LineBreak(x) => ElementTag::LineBreak(x.tag),
            TagElement::Unstyled(x) => ElementTag::Unstyled(x.tag),
            TagElement::Table(x) => ElementTag::Table(x.tag),
            TagElement::Styled(x) => ElementTag::Styled(x.tag),
            TagElement::Image(x) => ElementTag::Image(x.tag),
            TagElement::Link(x) => ElementTag::Link(x.tag),
        }
    }
}

impl Tagged for TagElement {
    open spec fn spec_tag_name(&self) -> Seq<char> {
        self.spec_tag().spec_name()
    }

    fn tag(&self) -> (r: String) {
        owned(self.element_tag().name())
    }
}

// ---------------------------------------------------------------------------
// What a document decodes to.

/// The tag named by the members `es`, where it is a string naming one.
pub open spec fn element_tag_of(es: Seq<(String, JsonValue)>) -> Option<ElementTag> {
    match find_key(es, Key::Tag.spec_name()) {
        Some(j) => match es[j].1 {
            JsonValue::Text(s) => ElementTag::spec_from_name(s@),
            _ => None,
        },
        None => None,
    }
}

/// `k` is a member name of the category `c`, `tag` aside.
pub open spec fn category_has(c: ElementCategory, k: Key) -> bool {
    match c {
        ElementCategory::LineBreak => LineBreakElement::members().contains(Field::Member(k)),
        ElementCategory::Unstyled => UnstyledElement::members().contains(Field::Member(k)) || k == Key::Content,
        ElementCategory::Table => TableElement::members().contains(Field::Member(k)) || k == Key::Content,
        ElementCategory::Styled => StyledElement::members().contains(Field::Member(k)) || k == Key::Content,
        ElementCategory::Image => ImageElement::members().contains(Field::Member(k)),
        ElementCategory::Link => LinkElement::members().contains(Field::Member(k)) || k == Key::Content,
    }
}

/// An element of category `c` may carry a member named `s`.
pub open spec fn key_allowed(c: ElementCategory, s: Seq<char>) -> bool {
    match Key::spec_from_name(s) {
        Some(k) => k == Key::Tag || category_has(c, k),
        None => false,
    }
}

/// The first member of `es`, from position `i` on, that an element of
/// category `c` may not carry.
pub open spec fn first_unknown(es: Seq<(String, JsonValue)>, c: ElementCategory, i: int) -> Option<int>
    decreases es.len() - i,
{
    if i < 0 || i >= es.len() {
        None
    } else if !key_allowed(c, es[i].0@) {
        Some(i)
    } else {
        first_unknown(es, c, i + 1)
    }
}

/// `v` decodes to the node `n`.
pub open spec fn node_decodes(v: JsonValue, n: StructuredContentNode) -> bool
    decreases n,
{
    match n {
        StructuredContentNode::Text(t) => v == JsonValue::Text(t),
        StructuredContentNode::Children(ns) => match v {
            JsonValue::Array(vs) => vs@.len() == ns@.len() && forall|i: int|
                0 <= i < ns@.len() ==> node_decodes(vs@[i], #[trigger] ns@[i]),
            _ => false,
        },
        StructuredContentNode::Element(b) => match v {
            JsonValue::Object(es) => element_decodes(es@, *b),
            _ => false,
        },
    }
}

/// An object with members `es` decodes to the element `e`.
pub open spec fn element_decodes(es: Seq<(String, JsonValue)>, e: TagElement) -> bool
    decreases e,
{
    &&& element_tag_of(es) == Some(e.spec_tag())
    &&& match e {
        TagElement::LineBreak(x) => decodes_members(x, es),
        TagElement::Unstyled(x) => decodes_members(x, es) && content_decodes(es, x.content),
        TagElement::Table(x) => decodes_members(x, es) && content_decodes(es, x.content),
        TagElement::Styled(x) => decodes_members(x, es) && content_decodes(es, x.content),
        TagElement::Image(x) => decodes_members(x, es),
        TagElement::Link(x) => decodes_members(x, es) && content_decodes(es, x.content),
    }
}

/// `c` is what the `content` member of `es` decodes to: nothing where it is
/// absent.
pub open spec fn content_decodes(es: Seq<(String, JsonValue)>, c: Option<StructuredContentNode>) -> bool
    decreases c,
{
    match c {
        None => find_key(es, Key::Content.spec_name()) is None,
        Some(m) => match find_key(es, Key::Content.spec_name()) {
            Some(j) => 0 <= j < es.len() && node_decodes(es[j].1, m),
            None => false,
        },
    }
}

// ---------------------------------------------------------------------------
// Why a document does not decode.

/// Why `v` does not decode as a node, where it does not, with `d` levels of
/// nesting left.
pub open spec fn node_failure(v: JsonValue, d: nat) -> Option<Failure>
    decreases d, 0int, 0int,
{
    if d == 0 {
        Some(failure_here(ErrorKind::TooDeep))
    } else {
        match v {
            JsonValue::Text(_) => None,
            JsonValue::Array(vs) => children_failure(vs@, 0, (d - 1) as nat),
            JsonValue::Object(es) => element_failure(es@, (d - 1) as nat),
            _ => Some(shape_failure(Shape::Node, v)),
        }
    }
}

/// The first failure among the nodes `vs[i..]`.
pub open spec fn children_failure(vs: Seq<JsonValue>, i: int, d: nat) -> Option<Failure>
    decreases d, 1int, vs.len() - i,
{
    if i < 0 || i >= vs.len() {
        None
    } else {
        match node_failure(vs[i], d) {
            Some(f) => Some(failure_below(Segment::Index(i as usize), f)),
            None => children_failure(vs, i + 1, d),
        }
    }
}

/// Why the `content` member of `es` does not decode, where it does not.
pub open spec fn content_failure(es: Seq<(String, JsonValue)>, d: nat) -> Option<Failure>
    decreases d, 1int, 0int,
{
    match find_key(es, Key::Content.spec_name()) {
        None => None,
        Some(j) => match node_failure(es[j].1, d) {
            None => None,
            Some(f) => Some(failure_below(Segment::Field(Field::Member(Key::Content)), f)),
        },
    }
}

/// Why an object with members `es` does not decode as an element. The tag is
/// checked first, then that every member belongs to the tag's category, then
/// the members in canonical order, and the content last.
pub open spec fn element_failure(es: Seq<(String, JsonValue)>, d: nat) -> Option<Failure>
    decreases d, 2int, 0int,
{
    match find_key(es, Key::Tag.spec_name()) {
        None => Some(failure_here(ErrorKind::MissingField(Field::Member(Key::Tag)))),
        Some(j) => match es[j].1 {
            JsonValue::Text(s) => match ElementTag::spec_from_name(s@) {
                None => Some(failure_here(ErrorKind::UnknownTag(s))),
                Some(t) => match first_unknown(es, t.spec_category(), 0) {
                    Some(k) => Some(failure_here(ErrorKind::UnknownField(es[k].0))),
                    None => match t {
                        ElementTag::LineBreak(_) => failure_from::<LineBreakElement>(es, LineBreakElement::members(), 0),
                        ElementTag::Unstyled(_) => either(
                            failure_from::<UnstyledElement>(es, UnstyledElement::members(), 0),
                            content_failure(es, d),
                        ),
                        ElementTag::Table(_) => either(
                            failure_from::<TableElement>(es, TableElement::members(), 0),
                            content_failure(es, d),
                        ),
                        ElementTag::Styled(_) => either(
                            failure_from::<StyledElement>(es, StyledElement::members(), 0),
                            content_failure(es, d),
                        ),
                        ElementTag::Image(_) => failure_from::<ImageElement>(es, ImageElement::members(), 0),
                        ElementTag::Link(_) => either(
                            failure_from::<LinkElement>(es, LinkElement::members(), 0),
                            content_failure(es, d),
                        ),
                    },
                },
            },
            _ => Some(failure_below(Segment::Field(Field::Member(Key::Tag)), shape_failure(Shape::Text, es[j].1))),
        },
    }
}

// ---------------------------------------------------------------------------
// The canonical encoding.

/// `v` is the canonical encoding of the node `n`.
pub open spec fn node_encodes(n: StructuredContentNode, v: JsonValue) -> bool
    decreases n,
{
    match n {
        StructuredContentNode::Text(t) => v == JsonValue::Text(t),
        StructuredContentNode::Children(ns) => match v {
            JsonValue::Array(vs) => vs@.len() == ns@.len() && forall|i: int|
                0 <= i < ns@.len() ==> node_encodes(#[trigger] ns@[i], vs@[i]),
            _ => false,
        },
        StructuredContentNode::Element(b) => match v {
            JsonValue::Object(es) => element_encodes(*b, es@),
            _ => false,
        },
    }
}

/// The members that precede the content, where there is content.
pub open spec fn before_content(rest: Seq<(String, JsonValue)>, has_content: bool) -> Seq<(String, JsonValue)> {
    if has_content {
        rest.drop_last()
    } else {
        rest
    }
}

/// `es` is the canonical encoding of the element `e`: its tag first, then its
/// members in canonical order, then its content.
pub open spec fn element_encodes(e: TagElement, es: Seq<(String, JsonValue)>) -> bool
    decreases e,
{
    let rest = es.drop_first();
    &&& es.len() >= 1
    &&& es[0].0@ == Key::Tag.spec_name()
    &&& es[0].1 matches JsonValue::Text(s) && s@ == e.spec_tag().spec_name()
    &&& match e {
        TagElement::LineBreak(x) => encodes_members(x, rest),
        TagElement::Unstyled(x) => encodes_members(x, before_content(rest, x.content is Some)) && content_encodes(x.content, rest),
        TagElement::Table(x) => encodes_members(x, before_content(rest, x.content is Some)) && content_encodes(x.content, rest),
        TagElement::Styled(x) => encodes_members(x, before_content(rest, x.content is Some)) && content_encodes(x.content, rest),
        TagElement::Image(x) => encodes_members(x, rest),
        TagElement::Link(x) => encodes_members(x, before_content(rest, x.content is Some)) && content_encodes(x.content, rest),
    }
}

/// Where there is content, the last of `rest` is its member.
pub open spec fn content_encodes(c: Option<StructuredContentNode>, rest: Seq<(String, JsonValue)>) -> bool
    decreases c,
{
    match c {
        None => true,
        Some(m) => rest.len() >= 1 && rest.last().0@ == Key::Content.spec_name() && node_encodes(m, rest.last().1),
    }
}

/// The node `n` nests no deeper than `d` levels.
pub open spec fn fits_depth(n: StructuredContentNode, d: nat) -> bool
    decreases n,
{
    &&& d >= 1
    &&& match n {
        StructuredContentNode::Text(_) => true,
        StructuredContentNode::Children(ns) => forall|i: int|
            0 <= i < ns@.len() ==> fits_depth(#[trigger] ns@[i], (d - 1) as nat),
        StructuredContentNode::Element(b) => element_fits(*b, (d - 1) as nat),
    }
}

/// The content of `e` nests no deeper than `d` levels.
pub open spec fn element_fits(e: TagElement, d: nat) -> bool
    decreases e,
{
    match e {
        TagElement::Unstyled(x) => content_fits(x.content, d),
        TagElement::Table(x) => content_fits(x.content, d),
        TagElement::Styled(x) => content_fits(x.content, d),
        TagElement::Link(x) => content_fits(x.content, d),
        _ => true,
    }
}

/// Content, where there is some, nests no deeper than `d` levels.
pub open spec fn content_fits(c: Option<StructuredContentNode>, d: nat) -> bool
    decreases c,
{
    match c {
        None => true,
        Some(m) => fits_depth(m, d),
    }
}


// ---------------------------------------------------------------------------
// The codec.

/// Whether an element of category `c` may carry the member `k`.
fn category_has_exec(c: ElementCategory, k: Key) -> (r: bool)
    ensures
        r == category_has(c, k),
{
    match c {
        ElementCategory::LineBreak => line_break_has_key(k),
        ElementCategory::Unstyled => unstyled_has_key(k) || k == Key::Content,
        ElementCategory::Table => table_has_key(k) || k == Key::Content,
        ElementCategory::Styled => styled_has_key(k) || k == Key::Content,
        ElementCategory::Image => image_has_key(k),
        ElementCategory::Link => link_has_key(k) || k == Key::Content,
    }
}

/// The first member of `es` that an element of category `c` may not carry.
fn find_unknown(es: &Vec<(String, JsonValue)>, c: ElementCategory) -> (r: Option<usize>)
    ensures
        r matches Some(k) ==> first_unknown(es@, c, 0) == Some(k as int) && k < es@.len(),
        r is None ==> first_unknown(es@, c, 0) is None,
{
    let mut i: usize = 0;
    while i < es.len()
        invariant
            i <= es@.len(),
            first_unknown(es@, c, 0) == first_unknown(es@, c, i as int),
        decreases es@.len() - i,
    {
        let allowed = match Key::from_name(es[i].0.as_str()) {
            Some(k) => k == Key::Tag || category_has_exec(c, k),
            None => false,
        };
        if !allowed {
            return Some(i);
        }
        i = i + 1;
    }
    None
}

/// Decodes the `content` member of an object, where it has one.
fn decode_content(es: &Vec<(String, JsonValue)>, depth: usize) -> (r: Result<Option<StructuredContentNode>, DecodeError>)
    ensures
        match r {
            Ok(c) => content_failure(es@, depth as nat) is None && content_decodes(es@, c),
            Err(e) => content_failure(es@, depth as nat) == Some(e@),
        },
    decreases depth, 1int,
{
    proof {
        lemma_find_key_bounds(es@, Key::Content.spec_name());
    }
    match find_member(es, Key::Content.name()) {
        None => Ok(None),
        Some(j) => match decode_node(&es[j].1, depth) {
            Ok(n) => Ok(Some(n)),
            Err(e) => Err(e.below(Segment::Field(Field::Member(Key::Content)))),
        },
    }
}

/// Decodes an element from the members `es` of an object, with `depth`
/// levels of nesting left for its content.
fn decode_element(es: &Vec<(String, JsonValue)>, depth: usize) -> (r: Result<TagElement, DecodeError>)
    ensures
        match r {
            Ok(e) => element_failure(es@, depth as nat) is None && element_decodes(es@, e),
            Err(x) => element_failure(es@, depth as nat) == Some(x@),
        },
    decreases depth, 2int,
{
    proof {
        lemma_find_key_bounds(es@, Key::Tag.spec_name());
    }
    let tj = match find_member(es, Key::Tag.name()) {
        None => return Err(DecodeError::here(ErrorKind::MissingField(Field::Member(Key::Tag)))),
        Some(j) => j,
    };
    let tag = match &es[tj].1 {
        JsonValue::Text(s) => match ElementTag::from_name(s.as_str()) {
            None => return Err(DecodeError::here(ErrorKind::UnknownTag(s.clone()))),
            Some(t) => t,
        },
        other => {
            let e = DecodeError::here(ErrorKind::InvalidShape { expected: Shape::Text, actual: other.shape() });
            return Err(e.below(Segment::Field(Field::Member(Key::Tag))));
        },
    };
    if let Some(k) = find_unknown(es, tag.category()) {
        return Err(DecodeError::here(ErrorKind::UnknownField(es[k].0.clone())));
    }
    match tag {
        ElementTag::LineBreak(t) => {
            let x = decode_line_break_members(es, t)?;
            Ok(TagElement::LineBreak(x))
        },
        ElementTag::Unstyled(t) => {
            let mut x = decode_unstyled_members(es, t)?;
            let ghost before = x;
            x.content = decode_content(es, depth)?;
            assert forall|f: Field| UnstyledElement::members().contains(f) implies #[trigger] x.member_decodes(es@, f) by {
                assert(before.member_decodes(es@, f));
            }
            Ok(TagElement::Unstyled(x))
        },
        ElementTag::Table(t) => {
            let mut x = decode_table_members(es, t)?;
            let ghost before = x;
            x.content = decode_content(es, depth)?;
            assert forall|f: Field| TableElement::members().contains(f) implies #[trigger] x.member_decodes(es@, f) by {
                assert(before.member_decodes(es@, f));
            }
            Ok(TagElement::Table(x))
        },
        ElementTag::Styled(t) => {
            let mut x = decode_styled_members(es, t)?;
            let ghost before = x;
            x.content = decode_content(es, depth)?;
            assert forall|f: Field| StyledElement::members().contains(f) implies #[trigger] x.member_decodes(es@, f) by {
                assert(before.member_decodes(es@, f));
            }
            Ok(TagElement::Styled(x))
        },
        ElementTag::Image(t) => {
            let x = decode_image_members(es, t)?;
            Ok(TagElement::Image(x))
        },
        ElementTag::Link(t) => {
            let mut x = decode_link_members(es, t)?;
            let ghost before = x;
            x.content = decode_content(es, depth)?;
            assert forall|f: Field| LinkElement::members().contains(f) implies #[trigger] x.member_decodes(es@, f) by {
                assert(before.member_decodes(es@, f));
            }
            Ok(TagElement::Link(x))
        },
    }
}

/// Decodes a structured-content node from `v`, allowing `depth` levels of
/// nesting: a string is text, an array a list of nodes, an object an element.
pub fn decode_node(v: &JsonValue, depth: usize) -> (r: Result<StructuredContentNode, DecodeError>)
    ensures
        match r {
            Ok(n) => node_failure(*v, depth as nat) is None && node_decodes(*v, n),
            Err(e) => node_failure(*v, depth as nat) == Some(e@),
        },
    decreases depth, 0int,
{
    if depth == 0 {
        return Err(DecodeError::here(ErrorKind::TooDeep));
    }
    match v {
        JsonValue::Text(s) => Ok(StructuredContentNode::Text(s.clone())),
        JsonValue::Array(vs) => {
            let mut out: Vec<StructuredContentNode> = Vec::new();
            let mut i: usize = 0;
            while i < vs.len()
                invariant
                    *v == JsonValue::Array(*vs),
                    depth >= 1,
                    i <= vs@.len(),
                    out@.len() == i,
                    children_failure(vs@, 0, (depth - 1) as nat) == children_failure(vs@, i as int, (depth - 1) as nat),
                    forall|k: int| 0 <= k < i ==> node_decodes(vs@[k], #[trigger] out@[k]),
                decreases vs@.len() - i,
            {
                match decode_node(&vs[i], depth - 1) {
                    Ok(n) => out.push(n),
                    Err(e) => return Err(e.below(Segment::Index(i))),
                }
                i = i + 1;
            }
            assert(children_failure(vs@, vs@.len() as int, (depth - 1) as nat) is None);
            Ok(StructuredContentNode::Children(out))
        },
        JsonValue::Object(es) => match decode_element(es, depth - 1) {
            Ok(e) => Ok(StructuredContentNode::Element(Box::new(e))),
            Err(e) => Err(e),
        },
        _ => Err(DecodeError::here(ErrorKind::InvalidShape { expected: Shape::Node, actual: v.shape() })),
    }
}

/// Decodes a structured-content document, nested at most `MAX_DEPTH` deep.
pub fn decode_structured_content(v: &JsonValue) -> (r: Result<StructuredContentNode, DecodeError>)
    ensures
        match r {
            Ok(n) => node_failure(*v, MAX_DEPTH as nat) is None && node_decodes(*v, n),
            Err(e) => node_failure(*v, MAX_DEPTH as nat) == Some(e@),
        },
{
    decode_node(v, MAX_DEPTH)
}

/// Appends the `content` member, where there is content.
fn push_content(es: &mut Vec<(String, JsonValue)>, c: &Option<StructuredContentNode>)
    ensures
        c is None ==> final(es)@ == old(es)@,
        c is Some ==> final(es)@.len() == old(es)@.len() + 1 && final(es)@.drop_last() == old(es)@,
        content_encodes(*c, final(es)@),
    decreases c,
{
    if let Some(m) = c {
        let v = encode_node(m);
        es.push((owned(Key::Content.name()), v));
        assert(final(es)@.drop_last() =~= old(es)@);
    }
}

/// The encoded members of an element: its tag, its members, its content.
fn encode_element(e: &TagElement) -> (r: Vec<(String, JsonValue)>)
    ensures
        element_encodes(*e, r@),
    decreases e,
{
    let mut es: Vec<(String, JsonValue)> = Vec::new();
    es.push((owned(Key::Tag.name()), JsonValue::Text(owned(e.element_tag().name()))));
    let mut rest: Vec<(String, JsonValue)> = Vec::new();
    match e {
        TagElement::LineBreak(x) => encode_line_break_members(x, &mut rest),
        TagElement::Unstyled(x) => {
            encode_unstyled_members(x, &mut rest);
            push_content(&mut rest, &x.content);
        },
        TagElement::Table(x) => {
            encode_table_members(x, &mut rest);
            push_content(&mut rest, &x.content);
        },
        TagElement::Styled(x) => {
            encode_styled_members(x, &mut rest);
            push_content(&mut rest, &x.content);
        },
        TagElement::Image(x) => encode_image_members(x, &mut rest),
        TagElement::Link(x) => {
            encode_link_members(x, &mut rest);
            push_content(&mut rest, &x.content);
        },
    }
    let ghost tail = rest@;
    es.append(&mut rest);
    assert(es@.drop_first() =~= tail);
    es
}

/// The canonical encoding of a node: text as a string, a list as an array,
/// an element as an object with `tag` first and only the members it has.
#[verifier::loop_isolation(false)]
pub fn encode_node(n: &StructuredContentNode) -> (r: JsonValue)
    ensures
        node_encodes(*n, r),
    decreases n,
{
    match n {
        StructuredContentNode::Text(t) => JsonValue::Text(t.clone()),
        StructuredContentNode::Children(ns) => {
            let mut vs: Vec<JsonValue> = Vec::new();
            let mut i: usize = 0;
            while i < ns.len()
                invariant
                    *n == StructuredContentNode::Children(*ns),
                    i <= ns@.len(),
                    vs@.len() == i,
                    forall|k: int| 0 <= k < i ==> node_encodes(#[trigger] ns@[k], vs@[k]),
                decreases ns@.len() - i,
            {
                proof {
                    assert(decreases_to!(ns => ns@[i as int]));
                }
                vs.push(encode_node(&ns[i]));
                i = i + 1;
            }
            JsonValue::Array(vs)
        },
        StructuredContentNode::Element(b) => JsonValue::Object(encode_element(b)),
    }
}


// ---------------------------------------------------------------------------
// Round trip.

/// Where no member from position `i` on fails, the members from `i` on do not.
proof fn lemma_children_ok(vs: Seq<JsonValue>, i: int, d: nat)
    requires
        0 <= i,
        forall|k: int| i <= k < vs.len() ==> node_failure(#[trigger] vs[k], d) is None,
    ensures
        children_failure(vs, i, d) is None,
    decreases vs.len() - i,
{
    if i < vs.len() {
        lemma_children_ok(vs, i + 1, d);
    }
}

/// Where the nodes from position `i` on do not fail, none of them does.
proof fn lemma_children_failure_none(vs: Seq<JsonValue>, i: int, d: nat)
    requires
        0 <= i,
        children_failure(vs, i, d) is None,
    ensures
        forall|k: int| i <= k < vs.len() ==> node_failure(#[trigger] vs[k], d) is None,
    decreases vs.len() - i,
{
    if i < vs.len() {
        lemma_children_failure_none(vs, i + 1, d);
    }
}

/// Where every member from position `i` on may be carried, none is unknown.
proof fn lemma_first_unknown_none(es: Seq<(String, JsonValue)>, c: ElementCategory, i: int)
    requires
        0 <= i,
        forall|k: int| i <= k < es.len() ==> key_allowed(c, (#[trigger] es[k]).0@),
    ensures
        first_unknown(es, c, i) is None,
    decreases es.len() - i,
{
    if i < es.len() {
        lemma_first_unknown_none(es, c, i + 1);
    }
}

/// The layout of an encoded element: where its tag, members and content are
/// found.
proof fn lemma_element_parts<T: Members>(x: T, es: Seq<(String, JsonValue)>, has_content: bool)
    requires
        es.len() >= 1,
        es[0].0@ == Key::Tag.spec_name(),
        encodes_members(x, before_content(es.drop_first(), has_content)),
        has_content ==> es.drop_first().len() >= 1 && es.last().0@ == Key::Content.spec_name(),
        distinct_names(T::members()),
        forall|f: Field| #[trigger] T::members().contains(f) ==> f is Member && f.spec_name() != Key::Tag.spec_name()
            && f.spec_name() != Key::Content.spec_name(),
    ensures
        find_key(es, Key::Tag.spec_name()) == Some(0int),
        lookups_match(x, es),
        has_content ==> find_key(es, Key::Content.spec_name()) == Some(es.len() - 1),
        !has_content ==> find_key(es, Key::Content.spec_name()) is None,
        forall|i: int| 1 <= i < es.len() && !(has_content && i == es.len() - 1) ==>
            T::members().contains(#[trigger] present_in(x, T::members())[i - 1]) && es[i].0@ == present_in(x, T::members())[i - 1].spec_name(),
{
    let rest = es.drop_first();
    let ms = before_content(rest, has_content);
    let tail: Seq<(String, JsonValue)> = if has_content { seq![es.last()] } else { Seq::empty() };
    let p = present_in(x, T::members());
    lemma_present_in(x, T::members());
    reveal_strlit("tag");
    reveal_strlit("content");
    assert(Key::Tag.spec_name() != Key::Content.spec_name()) by {
        assert(Key::Tag.spec_name().len() != Key::Content.spec_name().len());
    }
    assert(es =~= seq![es[0]] + ms + tail);
    assert forall|i: int| 1 <= i < es.len() && !(has_content && i == es.len() - 1) implies
        T::members().contains(#[trigger] p[i - 1]) && es[i].0@ == p[i - 1].spec_name() by {
        assert(es[i] == ms[i - 1]);
    }
    assert forall|j: int| 0 <= j < es.len() && j != 0 implies (#[trigger] es[j]).0@ != Key::Tag.spec_name() by {
        if !(has_content && j == es.len() - 1) {
            assert(es[j].0@ == p[j - 1].spec_name());
        }
    }
    lemma_find_key_only(es, Key::Tag.spec_name(), 0);
    if has_content {
        assert forall|j: int| 0 <= j < es.len() && j != es.len() - 1 implies (#[trigger] es[j]).0@ != Key::Content.spec_name() by {
            if j > 0 {
                assert(es[j].0@ == p[j - 1].spec_name());
            }
        }
        lemma_find_key_only(es, Key::Content.spec_name(), es.len() - 1);
    } else {
        assert forall|j: int| 0 <= j < es.len() implies (#[trigger] es[j]).0@ != Key::Content.spec_name() by {
            if j > 0 {
                assert(es[j].0@ == p[j - 1].spec_name());
            }
        }
        lemma_find_key_absent(es, Key::Content.spec_name());
    }
    lemma_encoded_lookups(x, ms);
    assert forall|f: Field| #[trigger] T::members().contains(f) implies f.spec_name() != es[0].0@
        && (tail.len() == 1 ==> f.spec_name() != tail[0].0@) by {
    }
    lemma_lookups_frame(x, es[0], ms, tail);
}

/// A node that decodes with `d` levels of nesting left nests no deeper.
proof fn lemma_decoded_fits(v: JsonValue, n: StructuredContentNode, d: nat)
    requires
        node_failure(v, d) is None,
        node_decodes(v, n),
    ensures
        fits_depth(n, d),
    decreases d,
{
    match n {
        StructuredContentNode::Text(_) => {},
        StructuredContentNode::Children(ns) => {
            let vs = v->Array_0@;
            lemma_children_failure_none(vs, 0, (d - 1) as nat);
            assert forall|i: int| 0 <= i < ns@.len() implies fits_depth(#[trigger] ns@[i], (d - 1) as nat) by {
                lemma_decoded_fits(vs[i], ns@[i], (d - 1) as nat);
            }
        },
        StructuredContentNode::Element(b) => {
            let es = v->Object_0@;
            let e = *b;
            let c: Option<StructuredContentNode> = match e {
                TagElement::Unstyled(x) => x.content,
                TagElement::Table(x) => x.content,
                TagElement::Styled(x) => x.content,
                TagElement::Link(x) => x.content,
                _ => None,
            };
            assert(element_failure(es, (d - 1) as nat) is None);
            assert(element_decodes(es, e));
            if let Some(m) = c {
                assert(content_failure(es, (d - 1) as nat) is None);
                assert(content_decodes(es, c));
                let j = find_key(es, Key::Content.spec_name())->Some_0;
                lemma_decoded_fits(es[j].1, m, (d - 1) as nat);
            }
            assert(content_fits(c, (d - 1) as nat));
            assert(element_fits(e, (d - 1) as nat));
        },
    }
}

/// The encoding of an element that fits decodes back to it.
proof fn lemma_element_round_trip(e: TagElement, es: Seq<(String, JsonValue)>, d: nat)
    requires
        element_encodes(e, es),
        element_fits(e, d),
    ensures
        element_failure(es, d) is None,
        element_decodes(es, e),
    decreases d, 1int,
{
    e.spec_tag().lemma_name_round_trip();
    Key::Tag.lemma_name_round_trip();
    Key::Content.lemma_name_round_trip();
    match e {
        TagElement::LineBreak(x) => {
            lemma_line_break_names_distinct();
            assert forall|f: Field| #[trigger] LineBreakElement::members().contains(f) implies f is Member && f.spec_name() != Key::Tag.spec_name()
                && f.spec_name() != Key::Content.spec_name() by {
                lemma_line_break_names_apart(f);
            }
            lemma_element_parts(x, es, false);
            let p = present_in(x, LineBreakElement::members());
            assert forall|k: int| 0 <= k < es.len() implies key_allowed(ElementCategory::LineBreak, (#[trigger] es[k]).0@) by {
                if k > 0 && !(false && k == es.len() - 1) {
                    let f = p[k - 1];
                    f->Member_0.lemma_name_round_trip();
                }
            }
            lemma_first_unknown_none(es, ElementCategory::LineBreak, 0);
            lemma_members_round_trip(x, es);
        },
        TagElement::Unstyled(x) => {
            lemma_unstyled_names_distinct();
            assert forall|f: Field| #[trigger] UnstyledElement::members().contains(f) implies f is Member && f.spec_name() != Key::Tag.spec_name()
                && f.spec_name() != Key::Content.spec_name() by {
                lemma_unstyled_names_apart(f);
            }
            lemma_element_parts(x, es, x.content is Some);
            let p = present_in(x, UnstyledElement::members());
            assert forall|k: int| 0 <= k < es.len() implies key_allowed(ElementCategory::Unstyled, (#[trigger] es[k]).0@) by {
                if k > 0 && !(x.content is Some && k == es.len() - 1) {
                    let f = p[k - 1];
                    f->Member_0.lemma_name_round_trip();
                }
            }
            lemma_first_unknown_none(es, ElementCategory::Unstyled, 0);
            lemma_members_round_trip(x, es);
            if let Some(m) = x.content {
                lemma_node_round_trip(m, es.last().1, d);
                assert(es.drop_first().last() == es.last());
            }
        },
        TagElement::Table(x) => {
            lemma_table_names_distinct();
            assert forall|f: Field| #[trigger] TableElement::members().contains(f) implies f is Member && f.spec_name() != Key::Tag.spec_name()
                && f.spec_name() != Key::Content.spec_name() by {
                lemma_table_names_apart(f);
            }
            lemma_element_parts(x, es, x.content is Some);
            let p = present_in(x, TableElement::members());
            assert forall|k: int| 0 <= k < es.len() implies key_allowed(ElementCategory::Table, (#[trigger] es[k]).0@) by {
                if k > 0 && !(x.content is Some && k == es.len() - 1) {
                    let f = p[k - 1];
                    f->Member_0.lemma_name_round_trip();
                }
            }
            lemma_first_unknown_none(es, ElementCategory::Table, 0);
            lemma_members_round_trip(x, es);
            if let Some(m) = x.content {
                lemma_node_round_trip(m, es.last().1, d);
                assert(es.drop_first().last() == es.last());
            }
        },
        TagElement::Styled(x) => {
            lemma_styled_names_distinct();
            assert forall|f: Field| #[trigger] StyledElement::members().contains(f) implies f is Member && f.spec_name() != Key::Tag.spec_name()
                && f.spec_name() != Key::Content.spec_name() by {
                lemma_styled_names_apart(f);
            }
            lemma_element_parts(x, es, x.content is Some);
            let p = present_in(x, StyledElement::members());
            assert forall|k: int| 0 <= k < es.len() implies key_allowed(ElementCategory::Styled, (#[trigger] es[k]).0@) by {
                if k > 0 && !(x.content is Some && k == es.len() - 1) {
                    let f = p[k - 1];
                    f->Member_0.lemma_name_round_trip();
                }
            }
            lemma_first_unknown_none(es, ElementCategory::Styled, 0);
            lemma_members_round_trip(x, es);
            if let Some(m) = x.content {
                lemma_node_round_trip(m, es.last().1, d);
                assert(es.drop_first().last() == es.last());
            }
        },
        TagElement::Image(x) => {
            lemma_image_names_distinct();
            assert forall|f: Field| #[trigger] ImageElement::members().contains(f) implies f is Member && f.spec_name() != Key::Tag.spec_name()
                && f.spec_name() != Key::Content.spec_name() by {
                lemma_image_names_apart(f);
            }
            lemma_element_parts(x, es, false);
            let p = present_in(x, ImageElement::members());
            assert forall|k: int| 0 <= k < es.len() implies key_allowed(ElementCategory::Image, (#[trigger] es[k]).0@) by {
                if k > 0 && !(false && k == es.len() - 1) {
                    let f = p[k - 1];
                    f->Member_0.lemma_name_round_trip();
                }
            }
            lemma_first_unknown_none(es, ElementCategory::Image, 0);
            lemma_members_round_trip(x, es);
        },
        TagElement::Link(x) => {
            lemma_link_names_distinct();
            assert forall|f: Field| #[trigger] LinkElement::members().contains(f) implies f is Member && f.spec_name() != Key::Tag.spec_name()
                && f.spec_name() != Key::Content.spec_name() by {
                lemma_link_names_apart(f);
            }
            lemma_element_parts(x, es, x.content is Some);
            let p = present_in(x, LinkElement::members());
            assert forall|k: int| 0 <= k < es.len() implies key_allowed(ElementCategory::Link, (#[trigger] es[k]).0@) by {
                if k > 0 && !(x.content is Some && k == es.len() - 1) {
                    let f = p[k - 1];
                    f->Member_0.lemma_name_round_trip();
                }
            }
            lemma_first_unknown_none(es, ElementCategory::Link, 0);
            lemma_members_round_trip(x, es);
            if let Some(m) = x.content {
                lemma_node_round_trip(m, es.last().1, d);
                assert(es.drop_first().last() == es.last());
            }
        },
    }
}

/// The encoding of a node that fits decodes back to it.
pub proof fn lemma_node_round_trip(n: StructuredContentNode, w: JsonValue, d: nat)
    requires
        node_encodes(n, w),
        fits_depth(n, d),
    ensures
        node_failure(w, d) is None,
        node_decodes(w, n),
    decreases d, 0int,
{
    match n {
        StructuredContentNode::Text(_) => {},
        StructuredContentNode::Children(ns) => {
            let vs = w->Array_0@;
            assert forall|k: int| 0 <= k < vs.len() implies node_failure(#[trigger] vs[k], (d - 1) as nat) is None
                && node_decodes(vs[k], ns@[k]) by {
                lemma_node_round_trip(ns@[k], vs[k], (d - 1) as nat);
            }
            lemma_children_ok(vs, 0, (d - 1) as nat);
        },
        StructuredContentNode::Element(b) => {
            lemma_element_round_trip(*b, w->Object_0@, (d - 1) as nat);
        },
    }
}

/// Round trip of structured content: where `v` decodes to `n` with `d`
/// levels of nesting allowed, the canonical encoding `w` of `n` decodes,
/// with the same allowance, to `n` again.
pub proof fn lemma_structured_content_round_trip(v: JsonValue, n: StructuredContentNode, w: JsonValue, d: nat)
    requires
        node_failure(v, d) is None,
        node_decodes(v, n),
        node_encodes(n, w),
    ensures
        node_failure(w, d) is None,
        node_decodes(w, n),
{
    lemma_decoded_fits(v, n, d);
    lemma_node_round_trip(n, w, d);
}

} // verus!
