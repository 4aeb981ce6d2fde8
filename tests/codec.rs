use yomi_schemas::content::{
    decode_structured_content, encode_node, ElementTag, StructuredContentNode, StyledElement, StyledElementTag, TagElement,
    Tagged,
};
use yomi_schemas::definition::{decode_definition, encode_definition, DetailedDefinition, TermDefinition};
use yomi_schemas::error::{DecodeError, ErrorKind, Field, Segment};
use yomi_schemas::json::{JsonValue, Shape};
use yomi_schemas::keys::{Key, StyleKey};
use yomi_schemas::meta::{
    decode_kanji_meta_bank, decode_term_meta_bank, FrequencyData, TermMeta, TermMetaFrequencyData,
};
use yomi_schemas::records::{decode_kanji_bank, decode_tag_bank, decode_term, decode_term_bank, encode_term};
use yomi_schemas::style::{DecorationLine, FontWeight, StructuredContentStyle, TextDecorationLine};
use yomi_schemas::wire::Wire;

fn convert(v: serde_json::Value) -> JsonValue {
    match v {
        serde_json::Value::Null => JsonValue::Null,
        serde_json::Value::Bool(b) => JsonValue::Bool(b),
        serde_json::Value::Number(n) => match n.as_i64() {
            Some(i) => JsonValue::Integer(i),
            None => JsonValue::Decimal(n.to_string()),
        },
        serde_json::Value::String(s) => JsonValue::Text(s),
        serde_json::Value::Array(a) => JsonValue::Array(a.into_iter().map(convert).collect()),
        serde_json::Value::Object(m) => JsonValue::Object(m.into_iter().map(|(k, v)| (k, convert(v))).collect()),
    }
}

fn json(text: &str) -> JsonValue {
    convert(serde_json::from_str(text).unwrap())
}

fn node(text: &str) -> StructuredContentNode {
    decode_structured_content(&json(text)).unwrap()
}

fn node_error(text: &str) -> DecodeError {
    decode_structured_content(&json(text)).unwrap_err()
}

fn same(a: &JsonValue, b: &JsonValue) -> bool {
    format!("{:?}", a) == format!("{:?}", b)
}

fn text(s: &str) -> JsonValue {
    JsonValue::Text(s.to_string())
}

fn term_record(len: usize) -> JsonValue {
    let mut items = vec![
        text("走る"),
        text("はしる"),
        JsonValue::Null,
        text("v5"),
        JsonValue::Integer(10),
        JsonValue::Array(vec![text("to run")]),
        JsonValue::Integer(1),
        text("common"),
    ];
    while items.len() > len {
        items.pop();
    }
    while items.len() < len {
        items.push(text("extra"));
    }
    JsonValue::Array(items)
}

#[test]
fn term_record_of_eight_decodes() {
    let t = decode_term(&term_record(8)).unwrap();
    assert_eq!(t.term, "走る");
    assert_eq!(t.reading, "はしる");
    assert_eq!(t.definition_tags, None);
    assert_eq!(t.deinflectors, "v5");
    assert_eq!(t.popularity, 10);
    assert_eq!(t.definitions.len(), 1);
    assert!(matches!(&t.definitions[0], TermDefinition::Simple(s) if s == "to run"));
    assert_eq!(t.sequence_number, 1);
    assert_eq!(t.term_tags, "common");
}

#[test]
fn term_record_of_seven_is_invalid_arity() {
    let e = decode_term(&term_record(7)).unwrap_err();
    assert_eq!(e.kind, ErrorKind::InvalidArity { expected: 8, actual: 7 });
    assert!(e.path.is_empty());
}

#[test]
fn term_record_of_nine_is_invalid_arity() {
    let e = decode_term(&term_record(9)).unwrap_err();
    assert_eq!(e.kind, ErrorKind::InvalidArity { expected: 8, actual: 9 });
}

#[test]
fn term_record_encodes_every_position() {
    let t = decode_term(&term_record(8)).unwrap();
    let v = encode_term(&t);
    match &v {
        JsonValue::Array(items) => {
            assert_eq!(items.len(), 8);
            assert!(matches!(items[2], JsonValue::Null));
            assert!(matches!(items[4], JsonValue::Integer(10)));
        },
        _ => panic!("a record encodes as an array"),
    }
    let again = decode_term(&v).unwrap();
    assert_eq!(format!("{:?}", again), format!("{:?}", t));
}

#[test]
fn term_bank_reports_record_index() {
    let bank = JsonValue::Array(vec![term_record(8), term_record(8), term_record(6)]);
    let e = decode_term_bank(&bank).unwrap_err();
    assert_eq!(e.path, vec![Segment::Index(2)]);
    assert_eq!(e.kind, ErrorKind::InvalidArity { expected: 8, actual: 6 });
    let ok = JsonValue::Array(vec![term_record(8), term_record(8)]);
    assert_eq!(decode_term_bank(&ok).unwrap().len(), 2);
}

#[test]
fn term_record_field_of_wrong_kind() {
    let mut items = match term_record(8) {
        JsonValue::Array(items) => items,
        _ => unreachable!(),
    };
    items[4] = text("ten");
    let e = decode_term(&JsonValue::Array(items)).unwrap_err();
    assert_eq!(e.path, vec![Segment::Index(4)]);
    assert_eq!(e.kind, ErrorKind::InvalidShape { expected: Shape::Int32, actual: Shape::Text });
}

#[test]
fn term_record_popularity_out_of_range() {
    let mut items = match term_record(8) {
        JsonValue::Array(items) => items,
        _ => unreachable!(),
    };
    items[4] = JsonValue::Integer(1i64 << 40);
    let e = decode_term(&JsonValue::Array(items)).unwrap_err();
    assert_eq!(e.kind, ErrorKind::InvalidShape { expected: Shape::Int32, actual: Shape::Integer });
}

#[test]
fn styled_element_with_only_font_weight_is_sparse() {
    let mut style = StructuredContentStyle::blank();
    style.font_weight = Some(FontWeight::Bold);
    let mut span = StyledElement::blank(StyledElementTag::Span);
    span.style = Some(style);
    let n = StructuredContentNode::Element(Box::new(TagElement::Styled(span)));
    let expected = JsonValue::Object(vec![
        ("tag".to_string(), text("span")),
        ("style".to_string(), JsonValue::Object(vec![("fontWeight".to_string(), text("bold"))])),
    ]);
    assert!(same(&encode_node(&n), &expected));
}

#[test]
fn unknown_tag_is_rejected() {
    let e = node_error(r#"{"tag":"section"}"#);
    assert_eq!(e.kind, ErrorKind::UnknownTag("section".to_string()));
}

#[test]
fn image_without_path_is_missing_field() {
    let e = node_error(r#"{"tag":"img"}"#);
    assert_eq!(e.kind, ErrorKind::MissingField(Field::Member(Key::Path)));
}

#[test]
fn link_without_href_is_missing_field() {
    let e = node_error(r#"{"tag":"a"}"#);
    assert_eq!(e.kind, ErrorKind::MissingField(Field::Member(Key::Href)));
}

#[test]
fn object_without_tag_is_missing_field() {
    let e = node_error(r#"{"content":"x"}"#);
    assert_eq!(e.kind, ErrorKind::MissingField(Field::Member(Key::Tag)));
}

#[test]
fn definition_string_is_simple() {
    let d = decode_definition(&json(r#""foo""#)).unwrap();
    assert!(matches!(d, TermDefinition::Simple(ref s) if s == "foo"));
}

#[test]
fn definition_pair_is_inflection() {
    let d = decode_definition(&json(r#"["running", ["run"]]"#)).unwrap();
    match d {
        TermDefinition::Inflection(i) => {
            assert_eq!(i.uninflected_term, "running");
            assert_eq!(i.inflection_rules, vec!["run".to_string()]);
        },
        other => panic!("expected an inflection, got {:?}", other),
    }
}

#[test]
fn definition_text_object_is_detailed_text() {
    let d = decode_definition(&json(r#"{"type":"text","text":"hi"}"#)).unwrap();
    assert!(matches!(d, TermDefinition::Detailed(DetailedDefinition::Text(ref s)) if s == "hi"));
}

#[test]
fn definition_pair_with_third_element_is_invalid_arity() {
    let e = decode_definition(&json(r#"["running", ["run"], 3]"#)).unwrap_err();
    assert_eq!(e.kind, ErrorKind::InvalidArity { expected: 2, actual: 3 });
}

#[test]
fn definition_unknown_type_is_unknown_variant() {
    let e = decode_definition(&json(r#"{"type":"video"}"#)).unwrap_err();
    assert_eq!(e.kind, ErrorKind::UnknownVariant(Field::Member(Key::Type), "video".to_string()));
}

#[test]
fn definition_structured_content_needs_content() {
    let e = decode_definition(&json(r#"{"type":"structured-content"}"#)).unwrap_err();
    assert_eq!(e.kind, ErrorKind::MissingField(Field::Member(Key::Content)));
}

#[test]
fn definition_number_is_invalid_shape() {
    let e = decode_definition(&JsonValue::Integer(3)).unwrap_err();
    assert_eq!(e.kind, ErrorKind::InvalidShape { expected: Shape::Definition, actual: Shape::Integer });
}

#[test]
fn definition_image_round_trip() {
    let v = json(r#"{"type":"image","path":"a.png","width":3,"pixelated":true,"imageRendering":"crisp-edges"}"#);
    let d = decode_definition(&v).unwrap();
    let w = encode_definition(&d);
    let expected = json(r#"{"type":"image","path":"a.png","width":3,"pixelated":true,"imageRendering":"crisp-edges"}"#);
    assert!(same(&w, &expected));
    let inflection = decode_definition(&json(r#"["running", ["run", "ing"]]"#)).unwrap();
    assert!(same(&encode_definition(&inflection), &json(r#"["running", ["run", "ing"]]"#)));
    let detailed = decode_definition(&json(r#"{"text":"hi","type":"text"}"#)).unwrap();
    assert!(same(&encode_definition(&detailed), &json(r#"{"type":"text","text":"hi"}"#)));
}

#[test]
fn nested_lists_decode_as_children() {
    match node(r#"["a", ["b", "c"]]"#) {
        StructuredContentNode::Children(outer) => {
            assert_eq!(outer.len(), 2);
            assert!(matches!(&outer[0], StructuredContentNode::Text(s) if s == "a"));
            match &outer[1] {
                StructuredContentNode::Children(inner) => {
                    assert_eq!(inner.len(), 2);
                    assert!(matches!(&inner[0], StructuredContentNode::Text(s) if s == "b"));
                    assert!(matches!(&inner[1], StructuredContentNode::Text(s) if s == "c"));
                },
                other => panic!("expected children, got {:?}", other),
            }
        },
        other => panic!("expected children, got {:?}", other),
    }
}

#[test]
fn empty_list_decodes_as_empty_children() {
    assert!(matches!(node("[]"), StructuredContentNode::Children(ref v) if v.is_empty()));
}

fn decoration_of(n: &StructuredContentNode) -> TextDecorationLine {
    match n {
        StructuredContentNode::Element(e) => match e.as_ref() {
            TagElement::Styled(s) => s.style.as_ref().unwrap().text_decoration_line.clone().unwrap(),
            other => panic!("expected a styled element, got {:?}", other),
        },
        other => panic!("expected an element, got {:?}", other),
    }
}

#[test]
fn decoration_line_single_value() {
    let src = r#"{"tag":"span","style":{"textDecorationLine":"underline"}}"#;
    let n = node(src);
    assert_eq!(decoration_of(&n), TextDecorationLine::Single(DecorationLine::Underline));
    assert!(same(&encode_node(&n), &json(src)));
}

#[test]
fn decoration_line_sequence() {
    let src = r#"{"tag":"span","style":{"textDecorationLine":["underline","overline"]}}"#;
    let n = node(src);
    assert_eq!(
        decoration_of(&n),
        TextDecorationLine::Many(vec![DecorationLine::Underline, DecorationLine::Overline])
    );
    assert!(same(&encode_node(&n), &json(src)));
}

#[test]
fn decoration_line_bad_item_has_path() {
    let e = node_error(r#"{"tag":"span","style":{"textDecorationLine":["underline","blink"]}}"#);
    assert_eq!(
        e.path,
        vec![
            Segment::Field(Field::Member(Key::Style)),
            Segment::Field(Field::Style(StyleKey::TextDecorationLine)),
            Segment::Index(1),
        ]
    );
    assert_eq!(e.kind, ErrorKind::InvalidValue(Field::Style(StyleKey::TextDecorationLine), "blink".to_string()));
}

#[test]
fn structured_content_round_trip() {
    let src = r#"["intro ", {"tag":"DIV","lang":"ja","data":{"sc":"x"},"content":[
        {"tag":"ruby","content":["漢",{"tag":"rt","content":"かん"}]},
        {"tag":"br"},
        {"tag":"td","colSpan":2,"rowSpan":1,"style":{"fontStyle":"italic","margin":"1em"}},
        {"tag":"a","href":"?query=x","content":"link"},
        {"tag":"img","path":"img/a.png","width":10,"sizeUnits":"em","verticalAlign":"middle","collapsed":false}
    ]}]"#;
    let first = node(src);
    let encoded = encode_node(&first);
    let second = decode_structured_content(&encoded).unwrap();
    assert_eq!(format!("{:?}", first), format!("{:?}", second));
    assert!(same(&encode_node(&second), &encoded));
}

#[test]
fn element_encoding_puts_tag_first_in_canonical_case() {
    let n = node(r#"{"content":"x","lang":"en","tag":"SPAN"}"#);
    let expected = JsonValue::Object(vec![
        ("tag".to_string(), text("span")),
        ("lang".to_string(), text("en")),
        ("content".to_string(), text("x")),
    ]);
    assert!(same(&encode_node(&n), &expected));
}

#[test]
fn tag_lookup_ignores_case() {
    assert_eq!(ElementTag::from_name("Td"), Some(ElementTag::Table(yomi_schemas::content::TableElementTag::Td)));
    assert_eq!(ElementTag::from_name("section"), None);
    match node(r#"{"tag":"UL"}"#) {
        StructuredContentNode::Element(e) => assert_eq!(e.tag(), "ul"),
        other => panic!("expected an element, got {:?}", other),
    }
}

#[test]
fn unknown_member_of_category_is_rejected() {
    let e = node_error(r#"{"tag":"br","lang":"en"}"#);
    assert_eq!(e.kind, ErrorKind::UnknownField("lang".to_string()));
    let e = node_error(r#"{"tag":"span","colour":"red"}"#);
    assert_eq!(e.kind, ErrorKind::UnknownField("colour".to_string()));
}

#[test]
fn invalid_enumerant_in_style_has_path() {
    let e = node_error(r#"{"tag":"div","style":{"fontWeight":"heavy"}}"#);
    assert_eq!(
        e.path,
        vec![Segment::Field(Field::Member(Key::Style)), Segment::Field(Field::Style(StyleKey::FontWeight))]
    );
    assert_eq!(e.kind, ErrorKind::InvalidValue(Field::Style(StyleKey::FontWeight), "heavy".to_string()));
}

#[test]
fn error_path_runs_through_content_and_children() {
    let e = node_error(r#"["a", {"tag":"div","content":["b", 5]}]"#);
    assert_eq!(
        e.path,
        vec![Segment::Index(1), Segment::Field(Field::Member(Key::Content)), Segment::Index(1)]
    );
    assert_eq!(e.kind, ErrorKind::InvalidShape { expected: Shape::Node, actual: Shape::Integer });
}

#[test]
fn tag_of_wrong_kind_is_invalid_shape() {
    let e = node_error(r#"{"tag":3}"#);
    assert_eq!(e.path, vec![Segment::Field(Field::Member(Key::Tag))]);
    assert_eq!(e.kind, ErrorKind::InvalidShape { expected: Shape::Text, actual: Shape::Integer });
}

#[test]
fn data_values_must_be_strings() {
    let e = node_error(r#"{"tag":"br","data":{"k":1}}"#);
    assert_eq!(
        e.path,
        vec![Segment::Field(Field::Member(Key::Data)), Segment::Entry("k".to_string())]
    );
    assert_eq!(e.kind, ErrorKind::InvalidShape { expected: Shape::Text, actual: Shape::Integer });
}

#[test]
fn nesting_beyond_limit_is_too_deep() {
    let deep = format!("{}{}", "[".repeat(70), "]".repeat(70));
    let e = node_error(&deep);
    assert_eq!(e.kind, ErrorKind::TooDeep);
    let shallow = format!("{}{}", "[".repeat(60), "]".repeat(60));
    assert!(decode_structured_content(&json(&shallow)).is_ok());
}

#[test]
fn kanji_bank_decodes() {
    let v = json(r#"[["日","ニチ ジツ","ひ か","jouyou",["day","sun"],{"freq":"1","grade":"1"}]]"#);
    let bank = decode_kanji_bank(&v).unwrap();
    assert_eq!(bank.len(), 1);
    assert_eq!(bank[0].kanji, "日");
    assert_eq!(bank[0].meanings, vec!["day".to_string(), "sun".to_string()]);
    assert_eq!(bank[0].stats, vec![("freq".to_string(), "1".to_string()), ("grade".to_string(), "1".to_string())]);
    let short = json(r#"[["日","ニチ","ひ","jouyou",["day"]]]"#);
    let e = decode_kanji_bank(&short).unwrap_err();
    assert_eq!(e.path, vec![Segment::Index(0)]);
    assert_eq!(e.kind, ErrorKind::InvalidArity { expected: 6, actual: 5 });
}

#[test]
fn tag_bank_decodes_and_round_trips() {
    let v = json(r#"[["n","partOfSpeech",-3,"noun",0]]"#);
    let bank = decode_tag_bank(&v).unwrap();
    assert_eq!(bank[0].name, "n");
    assert_eq!(bank[0].sorting_order, -3);
    assert_eq!(bank[0].popularity_score, 0);
    assert!(same(&bank.encode(), &v));
}

#[test]
fn term_meta_modes_decode() {
    let v = json(
        r#"[["走る","freq",12],
            ["走る","freq",{"reading":"はしる","frequency":{"value":3,"displayValue":"3★"}}],
            ["走る","pitch",{"reading":"はしる","pitches":[{"position":2,"nasal":[1,2],"tags":["n"]}]}],
            ["走る","ipa",{"reading":"はしる","transcriptions":[{"ipa":"haɕiɾɯ"}]}]]"#,
    );
    let bank = decode_term_meta_bank(&v).unwrap();
    assert_eq!(bank.len(), 4);
    match &bank[0] {
        TermMeta::Frequency(f) => assert_eq!(f.data, TermMetaFrequencyData::Generic(FrequencyData::Number(12))),
        other => panic!("expected a frequency, got {:?}", other),
    }
    match &bank[1] {
        TermMeta::Frequency(f) => match &f.data {
            TermMetaFrequencyData::WithReading(r) => {
                assert_eq!(r.reading, "はしる");
                assert!(matches!(&r.frequency, FrequencyData::DisplayNumber(d) if d.value == 3));
            },
            other => panic!("expected a reading frequency, got {:?}", other),
        },
        other => panic!("expected a frequency, got {:?}", other),
    }
    match &bank[2] {
        TermMeta::Pitch(p) => assert_eq!(p.data.pitches[0].position, 2),
        other => panic!("expected a pitch, got {:?}", other),
    }
    match &bank[3] {
        TermMeta::Phonetic(p) => assert_eq!(p.data.transcriptions[0].ipa, "haɕiɾɯ"),
        other => panic!("expected a transcription, got {:?}", other),
    }
    assert!(same(&bank.encode(), &v));
}

#[test]
fn term_meta_unknown_mode_is_unknown_variant() {
    let e = decode_term_meta_bank(&json(r#"[["走る","rank",1]]"#)).unwrap_err();
    assert_eq!(e.path, vec![Segment::Index(0), Segment::Index(1)]);
    assert_eq!(e.kind, ErrorKind::UnknownVariant(Field::Member(Key::Mode), "rank".to_string()));
    let e = decode_term_meta_bank(&json(r#"[["走る","freq"]]"#)).unwrap_err();
    assert_eq!(e.kind, ErrorKind::InvalidArity { expected: 3, actual: 2 });
}

#[test]
fn kanji_meta_requires_freq_mode() {
    let bank = decode_kanji_meta_bank(&json(r#"[["日","freq","12"]]"#)).unwrap();
    assert_eq!(bank[0].data, FrequencyData::Text("12".to_string()));
    let e = decode_kanji_meta_bank(&json(r#"[["日","pitch",1]]"#)).unwrap_err();
    assert_eq!(e.kind, ErrorKind::UnknownVariant(Field::Member(Key::Mode), "pitch".to_string()));
}

#[test]
fn term_definitions_as_one_array() {
    let mut items = match term_record(8) {
        JsonValue::Array(items) => items,
        _ => unreachable!(),
    };
    items[5] = json(r#"["to run", {"type":"text","text":"to flee"}, ["走った", ["past"]]]"#);
    let t = decode_term(&JsonValue::Array(items)).unwrap();
    assert!(same(&t.definitions_json(), &json(r#"["to run", {"type":"text","text":"to flee"}, ["走った", ["past"]]]"#)));
}
