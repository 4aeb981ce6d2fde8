//! Gloss entries of a term: plain text, a detailed definition told apart by
//! its `type` member, or an inflection pair.

use vstd::prelude::*;
use crate::content::{MAX_DEPTH, StructuredContentNode, decode_node, encode_node, fits_depth, lemma_node_round_trip, node_decodes, node_encodes, node_failure};
use crate::error::{DecodeError, ErrorKind, Failure, Field, Segment, failure_below, failure_here, lemma_field_names_injective};
use crate::json::{JsonValue, Shape, find_key, find_member, lemma_find_key_bounds, lemma_find_key_only};
use crate::keys::Key;
use crate::members::{Members, decodes_members, distinct_names, encodes_members, encodes_members_prefix, failure_from, lemma_encoded_lookups, lemma_find_key_absent, lemma_lookups_frame, lemma_members_round_trip, lemma_prefix_complete, lemma_prefix_extend, lemma_present_in, lemma_present_step, lookups_match, present_in};
use crate::style::{ImageAppearance, ImageRendering};
use crate::text::{owned, str_equal};
use crate::wire::{Wire, decode_member, decode_required, member_decodes_to, member_failure, push_member, push_required, required_decodes_to, required_failure, shape_failure};

verus! {

/// The value of the `type` member of a detailed definition.
#[derive(Clone, Copy, Debug, PartialEq, Eq, Structural)]
pub enum DefinitionType {
    StructuredContent,
    Text,
    Image,
}

impl DefinitionType {
    /// The spelling of this value on the wire.
    pub open spec fn spec_name(self) -> Seq<char> {
        match self {
            DefinitionType::StructuredContent => "structured-content"@,
            DefinitionType::Text => "text"@,
            DefinitionType::Image => "image"@,
        }
    }

    /// The value spelled `s`, if any.
    pub open spec fn spec_from_name(s: Seq<char>) -> Option<DefinitionType> {
        if s == "structured-content"@ {
            Some(DefinitionType::StructuredContent)
        } else if s == "text"@ {
            Some(DefinitionType::Text)
        } else if s == "image"@ {
            Some(DefinitionType::Image)
        } else {
            None
        }
    }

    /// The spelling of this value on the wire.
    pub fn name(self) -> (r: &'static str)
        ensures
            r@ == self.spec_name(),
    {
        match self {
            DefinitionType::StructuredContent => "structured-content",
            DefinitionType::Text => "text",
            DefinitionType::Image => "image",
        }
    }

    /// The value spelled `s`, if any.
    pub fn from_name(s: &str) -> (r: Option<DefinitionType>)
        ensures
            r == Self::spec_from_name(s@),
    {
        if str_equal(s, "structured-content") {
            Some(DefinitionType::StructuredContent)
        } else if str_equal(s, "text") {
            Some(DefinitionType::Text)
        } else if str_equal(s, "image") {
            Some(DefinitionType::Image)
        } else {
            None
        }
    }

    /// Reading back the spelling of a value gives that value.
    pub proof fn lemma_name_round_trip(self)
        ensures
            Self::spec_from_name(self.spec_name()) == Some(self),
    {
        reveal_strlit("structured-content");
        assert("structured-content"@.len() == 18 && "structured-content"@[0] == 's' && "structured-content"@[1] == 't' && "structured-content"@[2] == 'r' && "structured-content"@[3] == 'u' && "structured-content"@[4] == 'c' && "structured-content"@[5] == 't' && "structured-content"@[6] == 'u' && "structured-content"@[7] == 'r' && "structured-content"@[8] == 'e' && "structured-content"@[9] == 'd' && "structured-content"@[10] == '-' && "structured-content"@[11] == 'c' && "structured-content"@[12] == 'o' && "structured-content"@[13] == 'n' && "structured-content"@[14] == 't' && "structured-content"@[15] == 'e' && "structured-content"@[16] == 'n' && "structured-content"@[17] == 't');
        reveal_strlit("text");
        assert("text"@.len() == 4 && "text"@[0] == 't' && "text"@[1] == 'e' && "text"@[2] == 'x' && "text"@[3] == 't');
        reveal_strlit("image");
        assert("image"@.len() == 5 && "image"@[0] == 'i' && "image"@[1] == 'm' && "image"@[2] == 'a' && "image"@[3] == 'g' && "image"@[4] == 'e');
    }
}

/// An image gloss.
#[derive(Clone, Debug, PartialEq)]
pub struct TypedImage {
    pub path: String,
    pub width: Option<i32>,
    pub height: Option<i32>,
    pub title: Option<String>,
    pub alt: Option<String>,
    pub description: Option<String>,
    pub pixelated: Option<bool>,
    pub image_rendering: Option<ImageRendering>,
    pub appearance: Option<ImageAppearance>,
    pub background: Option<bool>,
    pub collapsed: Option<bool>,
    pub collapsible: Option<bool>,
}

impl TypedImage {
    /// An image with an empty path and no other member set.
    pub fn blank() -> (r: TypedImage) {
        TypedImage {
            path: String::new(),
            width: None,
            height: None,
            title: None,
            alt: None,
            description: None,
            pixelated: None,
            image_rendering: None,
            appearance: None,
            background: None,
            collapsed: None,
            collapsible: None,
        }
    }
}

/// The member at position `i` of the canonical order of `TypedImage`.
pub open spec fn typed_image_member_at(i: int) -> Field {
    if i == 0 {
        Field::Member(Key::Path)
    } else if i == 1 {
        Field::Member(Key::Width)
    } else if i == 2 {
        Field::Member(Key::Height)
    } else if i == 3 {
        Field::Member(Key::Title)
    } else if i == 4 {
        Field::Member(Key::Alt)
    } else if i == 5 {
        Field::Member(Key::Description)
    } else if i == 6 {
        Field::Member(Key::Pixelated)
    } else if i == 7 {
        Field::Member(Key::ImageRendering)
    } else if i == 8 {
        Field::Member(Key::Appearance)
    } else if i == 9 {
        Field::Member(Key::Background)
    } else if i == 10 {
        Field::Member(Key::Collapsed)
    } else if i == 11 {
        Field::Member(Key::Collapsible)
    } else {
        Field::Member(Key::Path)
    }
}

/// The position of `f` in the canonical order of `TypedImage`.
pub open spec fn typed_image_member_index(f: Field) -> int {
    match f {
        Field::Member(Key::Path) => 0,
        Field::Member(Key::Width) => 1,
        Field::Member(Key::Height) => 2,
        Field::Member(Key::Title) => 3,
        Field::Member(Key::Alt) => 4,
        Field::Member(Key::Description) => 5,
        Field::Member(Key::Pixelated) => 6,
        Field::Member(Key::ImageRendering) => 7,
        Field::Member(Key::Appearance) => 8,
        Field::Member(Key::Background) => 9,
        Field::Member(Key::Collapsed) => 10,
        Field::Member(Key::Collapsible) => 11,
        _ => 12,
    }
}

fn typed_image_member_at_exec(i: usize) -> (r: Field)
    ensures
        r == typed_image_member_at(i as int),
{
    match i {
        0 => Field::Member(Key::Path),
        1 => Field::Member(Key::Width),
        2 => Field::Member(Key::Height),
        3 => Field::Member(Key::Title),
        4 => Field::Member(Key::Alt),
        5 => Field::Member(Key::Description),
        6 => Field::Member(Key::Pixelated),
        7 => Field::Member(Key::ImageRendering),
        8 => Field::Member(Key::Appearance),
        9 => Field::Member(Key::Background),
        10 => Field::Member(Key::Collapsed),
        11 => Field::Member(Key::Collapsible),
        _ => Field::Member(Key::Path),
    }
}

proof fn lemma_typed_image_member_index(i: int)
    requires
        0 <= i < 12,
    ensures
        typed_image_member_index(typed_image_member_at(i)) == i,
{
}

impl Members for TypedImage {
    open spec fn members() -> Seq<Field> {
        Seq::new(12, |i: int| typed_image_member_at(i))
    }

    open spec fn has(self, f: Field) -> bool {
        match f {
            Field::Member(Key::Path) => true,
            Field::Member(Key::Width) => self.width is Some,
            Field::Member(Key::Height) => self.height is Some,
            Field::Member(Key::Title) => self.title is Some,
            Field::Member(Key::Alt) => self.alt is Some,
            Field::Member(Key::Description) => self.description is Some,
            Field::Member(Key::Pixelated) => self.pixelated is Some,
            Field::Member(Key::ImageRendering) => self.image_rendering is Some,
            Field::Member(Key::Appearance) => self.appearance is Some,
            Field::Member(Key::Background) => self.background is Some,
            Field::Member(Key::Collapsed) => self.collapsed is Some,
            Field::Member(Key::Collapsible) => self.collapsible is Some,
            _ => false,
        }
    }

    open spec fn member_encodes(self, f: Field, v: JsonValue) -> bool {
        match f {
            Field::Member(Key::Path) => self.path.encodes_to(v),
            Field::Member(Key::Width) => self.width matches Some(x) && x.encodes_to(v),
            Field::Member(Key::Height) => self.height matches Some(x) && x.encodes_to(v),
            Field::Member(Key::Title) => self.title matches Some(x) && x.encodes_to(v),
            Field::Member(Key::Alt) => self.alt matches Some(x) && x.encodes_to(v),
            Field::Member(Key::Description) => self.description matches Some(x) && x.encodes_to(v),
            Field::Member(Key::Pixelated) => self.pixelated matches Some(x) && x.encodes_to(v),
            Field::Member(Key::ImageRendering) => self.image_rendering matches Some(x) && x.encodes_to(v),
            Field::Member(Key::Appearance) => self.appearance matches Some(x) && x.encodes_to(v),
            Field::Member(Key::Background) => self.background matches Some(x) && x.encodes_to(v),
            Field::Member(Key::Collapsed) => self.collapsed matches Some(x) && x.encodes_to(v),
            Field::Member(Key::Collapsible) => self.collapsible matches Some(x) && x.encodes_to(v),
            _ => false,
        }
    }

    open spec fn member_decodes(self, es: Seq<(String, JsonValue)>, f: Field) -> bool {
        match f {
            Field::Member(Key::Path) => required_decodes_to(es, f, self.path),
            Field::Member(Key::Width) => member_decodes_to(es, f, self.width),
            Field::Member(Key::Height) => member_decodes_to(es, f, self.height),
            Field::Member(Key::Title) => member_decodes_to(es, f, self.title),
            Field::Member(Key::Alt) => member_decodes_to(es, f, self.alt),
            Field::Member(Key::Description) => member_decodes_to(es, f, self.description),
            Field::Member(Key::Pixelated) => member_decodes_to(es, f, self.pixelated),
            Field::Member(Key::ImageRendering) => member_decodes_to(es, f, self.image_rendering),
            Field::Member(Key::Appearance) => member_decodes_to(es, f, self.appearance),
            Field::Member(Key::Background) => member_decodes_to(es, f, self.background),
            Field::Member(Key::Collapsed) => member_decodes_to(es, f, self.collapsed),
            Field::Member(Key::Collapsible) => member_decodes_to(es, f, self.collapsible),
            _ => true,
        }
    }

    open spec fn member_failure(es: Seq<(String, JsonValue)>, f: Field) -> Option<Failure> {
        match f {
            Field::Member(Key::Path) => required_failure::<String>(es, f),
            Field::Member(Key::Width) => member_failure::<i32>(es, f),
            Field::Member(Key::Height) => member_failure::<i32>(es, f),
            Field::Member(Key::Title) => member_failure::<String>(es, f),
            Field::Member(Key::Alt) => member_failure::<String>(es, f),
            Field::Member(Key::Description) => member_failure::<String>(es, f),
            Field::Member(Key::Pixelated) => member_failure::<bool>(es, f),
            Field::Member(Key::ImageRendering) => member_failure::<ImageRendering>(es, f),
            Field::Member(Key::Appearance) => member_failure::<ImageAppearance>(es, f),
            Field::Member(Key::Background) => member_failure::<bool>(es, f),
            Field::Member(Key::Collapsed) => member_failure::<bool>(es, f),
            Field::Member(Key::Collapsible) => member_failure::<bool>(es, f),
            _ => None,
        }
    }

    proof fn lemma_member_round_trip(self, es: Seq<(String, JsonValue)>, f: Field) {
        if self.has(f) {
            let j = choose|j: int| 0 <= j < es.len() && find_key(es, f.spec_name()) == Some(j) && self.member_encodes(f, #[trigger] es[j].1);
            match f {
                Field::Member(Key::Path) => self.path.lemma_round_trip(es[j].1, f),
                Field::Member(Key::Width) => self.width.unwrap().lemma_round_trip(es[j].1, f),
                Field::Member(Key::Height) => self.height.unwrap().lemma_round_trip(es[j].1, f),
                Field::Member(Key::Title) => self.title.unwrap().lemma_round_trip(es[j].1, f),
                Field::Member(Key::Alt) => self.alt.unwrap().lemma_round_trip(es[j].1, f),
                Field::Member(Key::Description) => self.description.unwrap().lemma_round_trip(es[j].1, f),
                Field::Member(Key::Pixelated) => self.pixelated.unwrap().lemma_round_trip(es[j].1, f),
                Field::Member(Key::ImageRendering) => self.image_rendering.unwrap().lemma_round_trip(es[j].1, f),
                Field::Member(Key::Appearance) => self.appearance.unwrap().lemma_round_trip(es[j].1, f),
                Field::Member(Key::Background) => self.background.unwrap().lemma_round_trip(es[j].1, f),
                Field::Member(Key::Collapsed) => self.collapsed.unwrap().lemma_round_trip(es[j].1, f),
                Field::Member(Key::Collapsible) => self.collapsible.unwrap().lemma_round_trip(es[j].1, f),
                _ => {},
            }
        }
    }
}

/// No two members of `TypedImage` are spelled alike.
pub proof fn lemma_typed_image_names_distinct()
    ensures
        distinct_names(TypedImage::members()),
{
    let m = TypedImage::members();
    assert forall|i: int, j: int| 0 <= i < j < m.len() implies (#[trigger] m[i]).spec_name() != (#[trigger] m[j]).spec_name() by {
        lemma_typed_image_member_index(i);
        lemma_typed_image_member_index(j);
        lemma_field_names_injective(m[i], m[j]);
    }
}

/// Decodes the members of a `TypedImage` from the members `es` of an object.
fn decode_typed_image_members(es: &Vec<(String, JsonValue)>) -> (r: Result<TypedImage, DecodeError>)
    ensures
        match r {
            Ok(x) => failure_from::<TypedImage>(es@, TypedImage::members(), 0) is None && decodes_members(x, es@),
            Err(e) => failure_from::<TypedImage>(es@, TypedImage::members(), 0) == Some(e@),
        },
{
    let mut out = TypedImage::blank();
    let mut i: usize = 0;
    while i < 12
        invariant
            i <= 12,
            failure_from::<TypedImage>(es@, TypedImage::members(), 0) == failure_from::<TypedImage>(es@, TypedImage::members(), i as int),
            forall|j: int| 0 <= j < i ==> #[trigger] out.member_decodes(es@, typed_image_member_at(j)),
        decreases 12 - i,
    {
        let f = typed_image_member_at_exec(i);
        assert(TypedImage::members()[i as int] == f);
        let ghost before = out;
        match i {
            0 => {
                out.path = match decode_required::<String>(es, f) {
                    Ok(x) => x,
                    Err(e) => return Err(e),
                };
            },
            1 => {
                out.width = match decode_member::<i32>(es, f) {
                    Ok(x) => x,
                    Err(e) => return Err(e),
                };
            },
            2 => {
                out.height = match decode_member::<i32>(es, f) {
                    Ok(x) => x,
                    Err(e) => return Err(e),
                };
            },
            3 => {
                out.title = match decode_member::<String>(es, f) {
                    Ok(x) => x,
                    Err(e) => return Err(e),
                };
            },
            4 => {
                out.alt = match decode_member::<String>(es, f) {
                    Ok(x) => x,
                    Err(e) => return Err(e),
                };
            },
            5 => {
                out.description = match decode_member::<String>(es, f) {
                    Ok(x) => x,
                    Err(e) => return Err(e),
                };
            },
            6 => {
                out.pixelated = match decode_member::<bool>(es, f) {
                    Ok(x) => x,
                    Err(e) => return Err(e),
                };
            },
            7 => {
                out.image_rendering = match decode_member::<ImageRendering>(es, f) {
                    Ok(x) => x,
                    Err(e) => return Err(e),
                };
            },
            8 => {
                out.appearance = match decode_member::<ImageAppearance>(es, f) {
                    Ok(x) => x,
                    Err(e) => return Err(e),
                };
            },
            9 => {
                out.background = match decode_member::<bool>(es, f) {
                    Ok(x) => x,
                    Err(e) => return Err(e),
                };
            },
            10 => {
                out.collapsed = match decode_member::<bool>(es, f) {
                    Ok(x) => x,
                    Err(e) => return Err(e),
                };
            },
            11 => {
                out.collapsible = match decode_member::<bool>(es, f) {
                    Ok(x) => x,
                    Err(e) => return Err(e),
                };
            },
            _ => {},
        }
        assert forall|j: int| 0 <= j < i + 1 implies #[trigger] out.member_decodes(es@, typed_image_member_at(j)) by {
            if j < i {
                lemma_typed_image_member_index(j);
                lemma_typed_image_member_index(i as int);
                assert(before.member_decodes(es@, typed_image_member_at(j)));
            }
        }
        i = i + 1;
    }
    assert forall|f: Field| TypedImage::members().contains(f) implies #[trigger] out.member_decodes(es@, f) by {
        let j = choose|j: int| 0 <= j < 12 && TypedImage::members()[j] == f;
    }
    Ok(out)
}

proof fn lemma_typed_image_contains(f: Field)
    ensures
        TypedImage::members().contains(f) ==> typed_image_member_index(f) < 12,
{
    if TypedImage::members().contains(f) {
        let i = choose|i: int| 0 <= i < 12 && TypedImage::members()[i] == f;
        lemma_typed_image_member_index(i);
    }
}

/// Encodes the members of a `TypedImage`, in canonical order.
fn encode_typed_image_members(x: &TypedImage, es: &mut Vec<(String, JsonValue)>)
    requires
        old(es)@.len() == 0,
    ensures
        encodes_members(*x, final(es)@),
{
    let mut i: usize = 0;
    while i < 12
        invariant
            i <= 12,
            encodes_members_prefix(*x, es@, TypedImage::members(), i as int),
        decreases 12 - i,
    {
        let f = typed_image_member_at_exec(i);
        assert(TypedImage::members()[i as int] == f);
        proof { lemma_present_step(*x, TypedImage::members(), i as int); }
        let ghost before = es@;
        match i {
            0 => push_required(es, f, &x.path),
            1 => push_member(es, f, &x.width),
            2 => push_member(es, f, &x.height),
            3 => push_member(es, f, &x.title),
            4 => push_member(es, f, &x.alt),
            5 => push_member(es, f, &x.description),
            6 => push_member(es, f, &x.pixelated),
            7 => push_member(es, f, &x.image_rendering),
            8 => push_member(es, f, &x.appearance),
            9 => push_member(es, f, &x.background),
            10 => push_member(es, f, &x.collapsed),
            11 => push_member(es, f, &x.collapsible),
            _ => {},
        }
        proof { lemma_prefix_extend(*x, before, es@, TypedImage::members(), i as int); }
        i = i + 1;
    }
    proof { lemma_prefix_complete(*x, es@, TypedImage::members()); }
}

/// The members of an image gloss are not spelled `type`.
proof fn lemma_typed_image_names_apart(f: Field)
    requires
        TypedImage::members().contains(f),
    ensures
        f.spec_name() != Key::Type.spec_name(),
{
    lemma_typed_image_contains(f);
    lemma_field_names_injective(f, Field::Member(Key::Type));
}

/// An uninflected term and the names of the rules that inflect it.
#[derive(Clone, Debug, PartialEq)]
pub struct Deinflection {
    pub uninflected_term: String,
    pub inflection_rules: Vec<String>,
}

/// A gloss given as an object, told apart by its `type` member.
#[derive(Debug)]
pub enum DetailedDefinition {
    StructuredContent(StructuredContentNode),
    Text(String),
    Image(TypedImage),
}

/// One gloss of a term.
#[derive(Debug)]
pub enum TermDefinition {
    Simple(String),
    Detailed(DetailedDefinition),
    Inflection(Deinflection),
}

/// The `type` named by the members `es`, where it is a string naming one.
pub open spec fn definition_type_of(es: Seq<(String, JsonValue)>) -> Option<DefinitionType> {
    match find_key(es, Key::Type.spec_name()) {
        Some(j) => match es[j].1 {
            JsonValue::Text(s) => DefinitionType::spec_from_name(s@),
            _ => None,
        },
        None => None,
    }
}

/// The field under which the items of a definition are decoded; no value
/// there is of an enumerated kind, so it shows in no error.
pub open spec fn gloss_field() -> Field {
    Field::Member(Key::Text)
}

/// Why an object with members `es` does not decode as a detailed definition.
pub open spec fn detailed_failure(es: Seq<(String, JsonValue)>) -> Option<Failure> {
    match find_key(es, Key::Type.spec_name()) {
        None => Some(failure_here(ErrorKind::MissingField(Field::Member(Key::Type)))),
        Some(j) => match es[j].1 {
            JsonValue::Text(s) => match DefinitionType::spec_from_name(s@) {
                None => Some(failure_here(ErrorKind::UnknownVariant(Field::Member(Key::Type), s))),
                Some(DefinitionType::Text) => required_failure::<String>(es, Field::Member(Key::Text)),
                Some(DefinitionType::StructuredContent) => match find_key(es, Key::Content.spec_name()) {
                    None => Some(failure_here(ErrorKind::MissingField(Field::Member(Key::Content)))),
                    Some(k) => match node_failure(es[k].1, MAX_DEPTH as nat) {
                        None => None,
                        Some(f) => Some(failure_below(Segment::Field(Field::Member(Key::Content)), f)),
                    },
                },
                Some(DefinitionType::Image) => failure_from::<TypedImage>(es, TypedImage::members(), 0),
            },
            _ => Some(failure_below(Segment::Field(Field::Member(Key::Type)), shape_failure(Shape::Text, es[j].1))),
        },
    }
}

/// An object with members `es` decodes to the detailed definition `dd`.
pub open spec fn detailed_decodes(es: Seq<(String, JsonValue)>, dd: DetailedDefinition) -> bool {
    match dd {
        DetailedDefinition::Text(s) => definition_type_of(es) == Some(DefinitionType::Text)
            && required_decodes_to(es, Field::Member(Key::Text), s),
        DetailedDefinition::StructuredContent(n) => definition_type_of(es) == Some(DefinitionType::StructuredContent)
            && (find_key(es, Key::Content.spec_name()) matches Some(k) && node_decodes(es[k].1, n)),
        DetailedDefinition::Image(img) => definition_type_of(es) == Some(DefinitionType::Image)
            && decodes_members(img, es),
    }
}

/// The kind of a detailed definition.
pub open spec fn detailed_type(dd: DetailedDefinition) -> DefinitionType {
    match dd {
        DetailedDefinition::StructuredContent(_) => DefinitionType::StructuredContent,
        DetailedDefinition::Text(_) => DefinitionType::Text,
        DetailedDefinition::Image(_) => DefinitionType::Image,
    }
}

/// `es` is the canonical encoding of `dd`: its `type` first, then what that
/// kind carries.
pub open spec fn detailed_encodes(dd: DetailedDefinition, es: Seq<(String, JsonValue)>) -> bool {
    &&& es.len() >= 1
    &&& es[0].0@ == Key::Type.spec_name()
    &&& es[0].1 matches JsonValue::Text(s) && s@ == detailed_type(dd).spec_name()
    &&& match dd {
        DetailedDefinition::Text(s) => es.len() == 2 && es[1].0@ == Key::Text.spec_name() && es[1].1 == JsonValue::Text(s),
        DetailedDefinition::StructuredContent(n) => es.len() == 2 && es[1].0@ == Key::Content.spec_name()
            && node_encodes(n, es[1].1),
        DetailedDefinition::Image(img) => encodes_members(img, es.drop_first()),
    }
}

impl Wire for TermDefinition {
    /// A string is a simple gloss, an object a detailed one, and a pair of a
    /// string and an array of strings an inflection.
    open spec fn decodes_to(v: JsonValue, out: TermDefinition) -> bool {
        match out {
            TermDefinition::Simple(s) => v == JsonValue::Text(s),
            TermDefinition::Inflection(d) => v matches JsonValue::Array(vs) && vs@.len() == 2
                && String::decodes_to(vs@[0], d.uninflected_term) && Vec::<String>::decodes_to(vs@[1], d.inflection_rules),
            TermDefinition::Detailed(dd) => v matches JsonValue::Object(es) && detailed_decodes(es@, dd),
        }
    }

    open spec fn decode_failure(v: JsonValue, field: Field) -> Option<Failure> {
        match v {
            JsonValue::Text(_) => None,
            JsonValue::Array(vs) => if vs@.len() != 2 {
                Some(failure_here(ErrorKind::InvalidArity { expected: 2, actual: vs@.len() as usize }))
            } else {
                match String::decode_failure(vs@[0], gloss_field()) {
                    Some(f) => Some(failure_below(Segment::Index(0), f)),
                    None => match Vec::<String>::decode_failure(vs@[1], gloss_field()) {
                        Some(f) => Some(failure_below(Segment::Index(1), f)),
                        None => None,
                    },
                }
            },
            JsonValue::Object(es) => detailed_failure(es@),
            _ => Some(shape_failure(Shape::Definition, v)),
        }
    }

    open spec fn encodes_to(self, v: JsonValue) -> bool {
        match self {
            TermDefinition::Simple(s) => v == JsonValue::Text(s),
            TermDefinition::Inflection(d) => v matches JsonValue::Array(vs) && vs@.len() == 2
                && d.uninflected_term.encodes_to(vs@[0]) && d.inflection_rules.encodes_to(vs@[1]),
            TermDefinition::Detailed(dd) => v matches JsonValue::Object(es) && detailed_encodes(dd, es@),
        }
    }

    open spec fn well_formed(self) -> bool {
        self matches TermDefinition::Detailed(DetailedDefinition::StructuredContent(n)) ==> fits_depth(n, MAX_DEPTH as nat)
    }

    fn decode(v: &JsonValue, field: Field) -> (r: Result<TermDefinition, DecodeError>) {
        match v {
            JsonValue::Text(s) => Ok(TermDefinition::Simple(s.clone())),
            JsonValue::Array(vs) => {
                if vs.len() != 2 {
                    return Err(DecodeError::here(ErrorKind::InvalidArity { expected: 2, actual: vs.len() }));
                }
                let term = match String::decode(&vs[0], Field::Member(Key::Text)) {
                    Ok(s) => s,
                    Err(e) => return Err(e.below(Segment::Index(0))),
                };
                let rules = match Vec::<String>::decode(&vs[1], Field::Member(Key::Text)) {
                    Ok(r) => r,
                    Err(e) => return Err(e.below(Segment::Index(1))),
                };
                Ok(TermDefinition::Inflection(Deinflection { uninflected_term: term, inflection_rules: rules }))
            },
            JsonValue::Object(es) => match decode_detailed(es) {
                Ok(dd) => Ok(TermDefinition::Detailed(dd)),
                Err(e) => Err(e),
            },
            _ => Err(DecodeError::here(ErrorKind::InvalidShape { expected: Shape::Definition, actual: v.shape() })),
        }
    }

    fn encode(&self) -> (r: JsonValue) {
        match self {
            TermDefinition::Simple(s) => JsonValue::Text(s.clone()),
            TermDefinition::Inflection(d) => {
                let mut vs: Vec<JsonValue> = Vec::new();
                vs.push(d.uninflected_term.encode());
                vs.push(d.inflection_rules.encode());
                JsonValue::Array(vs)
            },
            TermDefinition::Detailed(dd) => JsonValue::Object(encode_detailed(dd)),
        }
    }

    proof fn lemma_round_trip(self, v: JsonValue, field: Field) {
        match self {
            TermDefinition::Simple(_) => {},
            TermDefinition::Inflection(d) => {
                let vs = v->Array_0@;
                d.uninflected_term.lemma_round_trip(vs[0], gloss_field());
                assert(d.inflection_rules.well_formed());
                d.inflection_rules.lemma_round_trip(vs[1], gloss_field());
            },
            TermDefinition::Detailed(dd) => lemma_detailed_round_trip(dd, v->Object_0@),
        }
    }
}

/// Decodes a detailed definition from the members `es` of an object.
fn decode_detailed(es: &Vec<(String, JsonValue)>) -> (r: Result<DetailedDefinition, DecodeError>)
    ensures
        match r {
            Ok(dd) => detailed_failure(es@) is None && detailed_decodes(es@, dd),
            Err(e) => detailed_failure(es@) == Some(e@),
        },
{
    proof {
        lemma_find_key_bounds(es@, Key::Type.spec_name());
        lemma_find_key_bounds(es@, Key::Content.spec_name());
    }
    let tj = match find_member(es, Key::Type.name()) {
        None => return Err(DecodeError::here(ErrorKind::MissingField(Field::Member(Key::Type)))),
        Some(j) => j,
    };
    let kind = match &es[tj].1 {
        JsonValue::Text(s) => match DefinitionType::from_name(s.as_str()) {
            None => return Err(DecodeError::here(ErrorKind::UnknownVariant(Field::Member(Key::Type), s.clone()))),
            Some(k) => k,
        },
        other => {
            let e = DecodeError::here(ErrorKind::InvalidShape { expected: Shape::Text, actual: other.shape() });
            return Err(e.below(Segment::Field(Field::Member(Key::Type))));
        },
    };
    match kind {
        DefinitionType::Text => match decode_required::<String>(es, Field::Member(Key::Text)) {
            Ok(s) => Ok(DetailedDefinition::Text(s)),
            Err(e) => Err(e),
        },
        DefinitionType::StructuredContent => match find_member(es, Key::Content.name()) {
            None => Err(DecodeError::here(ErrorKind::MissingField(Field::Member(Key::Content)))),
            Some(k) => match decode_node(&es[k].1, MAX_DEPTH) {
                Ok(n) => Ok(DetailedDefinition::StructuredContent(n)),
                Err(e) => Err(e.below(Segment::Field(Field::Member(Key::Content)))),
            },
        },
        DefinitionType::Image => match decode_typed_image_members(es) {
            Ok(img) => Ok(DetailedDefinition::Image(img)),
            Err(e) => Err(e),
        },
    }
}

impl DetailedDefinition {
    /// The kind of this definition.
    pub fn kind(&self) -> (r: DefinitionType)
        ensures
            r == detailed_type(*self),
    {
        match self {
            DetailedDefinition::StructuredContent(_) => DefinitionType::StructuredContent,
            DetailedDefinition::Text(_) => DefinitionType::Text,
            DetailedDefinition::Image(_) => DefinitionType::Image,
        }
    }
}

/// The members of the canonical encoding of a detailed definition.
fn encode_detailed(dd: &DetailedDefinition) -> (r: Vec<(String, JsonValue)>)
    ensures
        detailed_encodes(*dd, r@),
{
    let mut es: Vec<(String, JsonValue)> = Vec::new();
    es.push((owned(Key::Type.name()), JsonValue::Text(owned(dd.kind().name()))));
    match dd {
        DetailedDefinition::Text(s) => {
            es.push((owned(Key::Text.name()), JsonValue::Text(s.clone())));
        },
        DetailedDefinition::StructuredContent(n) => {
            es.push((owned(Key::Content.name()), encode_node(n)));
        },
        DetailedDefinition::Image(img) => {
            let mut rest: Vec<(String, JsonValue)> = Vec::new();
            encode_typed_image_members(img, &mut rest);
            let ghost tail = rest@;
            es.append(&mut rest);
            assert(es@.drop_first() =~= tail);
        },
    }
    es
}

/// The canonical encoding of a detailed definition decodes back to it.
proof fn lemma_detailed_round_trip(dd: DetailedDefinition, es: Seq<(String, JsonValue)>)
    requires
        detailed_encodes(dd, es),
        dd matches DetailedDefinition::StructuredContent(n) ==> fits_depth(n, MAX_DEPTH as nat),
    ensures
        detailed_failure(es) is None,
        detailed_decodes(es, dd),
{
    detailed_type(dd).lemma_name_round_trip();
    reveal_strlit("type");
    reveal_strlit("text");
    reveal_strlit("content");
    assert(Key::Type.spec_name() != Key::Text.spec_name()) by {
        assert(Key::Type.spec_name()[1] != Key::Text.spec_name()[1]);
    }
    assert(Key::Type.spec_name() != Key::Content.spec_name()) by {
        assert(Key::Type.spec_name().len() != Key::Content.spec_name().len());
    }
    match dd {
        DetailedDefinition::Text(s) => {
            lemma_find_key_only(es, Key::Type.spec_name(), 0);
            lemma_find_key_only(es, Key::Text.spec_name(), 1);
        },
        DetailedDefinition::StructuredContent(n) => {
            lemma_find_key_only(es, Key::Type.spec_name(), 0);
            lemma_find_key_only(es, Key::Content.spec_name(), 1);
            lemma_node_round_trip(n, es[1].1, MAX_DEPTH as nat);
        },
        DetailedDefinition::Image(img) => {
            let ms = es.drop_first();
            let p = present_in(img, TypedImage::members());
            lemma_present_in(img, TypedImage::members());
            lemma_typed_image_names_distinct();
            assert(es =~= seq![es[0]] + ms + Seq::<(String, JsonValue)>::empty());
            assert forall|j: int| 0 <= j < es.len() && j != 0 implies (#[trigger] es[j]).0@ != Key::Type.spec_name() by {
                assert(es[j] == ms[j - 1]);
                assert(ms[j - 1].0@ == p[j - 1].spec_name());
                lemma_typed_image_names_apart(p[j - 1]);
            }
            lemma_find_key_only(es, Key::Type.spec_name(), 0);
            lemma_encoded_lookups(img, ms);
            assert forall|f: Field| #[trigger] TypedImage::members().contains(f) implies f.spec_name() != es[0].0@ by {
                lemma_typed_image_names_apart(f);
            }
            lemma_lookups_frame(img, es[0], ms, Seq::empty());
            lemma_members_round_trip(img, es);
        },
    }
}

/// Decodes one gloss.
pub fn decode_definition(v: &JsonValue) -> (r: Result<TermDefinition, DecodeError>)
    ensures
        match r {
            Ok(t) => TermDefinition::decode_failure(*v, gloss_field()) is None && TermDefinition::decodes_to(*v, t),
            Err(e) => TermDefinition::decode_failure(*v, gloss_field()) == Some(e@),
        },
{
    TermDefinition::decode(v, Field::Member(Key::Text))
}

/// The canonical encoding of one gloss.
pub fn encode_definition(t: &TermDefinition) -> (r: JsonValue)
    ensures
        t.encodes_to(r),
{
    t.encode()
}

} // verus!

