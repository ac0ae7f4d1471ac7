use rustical::error::{IntErrorKind, ParseValueError, XmlDeError};
use rustical::xml::dynamic::{AttrEntry, Entry, StructValue, XmlValue};
use rustical::xml::reader::read_events;
use rustical::xml::schema::{
    EnumDef, Field, FieldType, NamedStruct, Primitive, Schema, StructAttrs, TypeDef, Variant,
};
use rustical::xml::se::{Tag, XmlSeError};
use rustical::xml::writer::write_events;

// A table with one struct that has a field of every kind:
//   0: item   { id: attribute, name: tag, count: tag (u8), note: tag (flatten),
//               any: untagged, text }
//   1: text
//   2: u8
//   3: choice { yes, no, other }
//   4: empty struct
//   5: named  { tag name }
fn schema(allow_invalid: bool) -> Schema {
    let item = NamedStruct::parse(
        StructAttrs { root: Some("item".to_owned()), ns: None, allow_invalid },
        vec![
            Field::attr("id", true),
            Field::tag("name", "name", None, 1, true, false),
            Field::tag("count", "count", None, 2, false, false),
            Field::tag("note", "note", None, 1, false, true),
            Field::unnamed(FieldType::Untagged, 3, false, false),
            Field::unnamed(FieldType::Text, 0, false, false),
        ],
    );
    let choice = EnumDef {
        variants: vec![
            Variant::named("yes", "yes", None, 4),
            Variant::named("no", "no", None, 4),
            Variant::other(5),
        ],
    };
    let empty = NamedStruct::parse(StructAttrs::plain(), vec![]);
    let named = NamedStruct::parse(
        StructAttrs::plain(),
        vec![Field::unnamed(FieldType::TagName, 0, true, false)],
    );
    Schema {
        types: vec![
            TypeDef::Struct(item),
            TypeDef::Text(Primitive::String),
            TypeDef::Text(Primitive::U8),
            TypeDef::Enum(choice),
            TypeDef::Struct(empty),
            TypeDef::Struct(named),
        ],
    }
}

fn root(schema: &Schema) -> &NamedStruct {
    match &schema.types[0] {
        TypeDef::Struct(s) => s,
        _ => unreachable!(),
    }
}

fn decode(input: &str) -> Result<XmlValue, XmlDeError> {
    let schema = schema(false);
    assert!(schema.check());
    root(&schema).parse_str(&schema, input)
}

fn decode_lenient(input: &str) -> Result<XmlValue, XmlDeError> {
    let schema = schema(true);
    assert!(schema.check());
    root(&schema).parse_str(&schema, input)
}

fn text(value: &XmlValue) -> &str {
    match value {
        XmlValue::Text(t) => t,
        other => panic!("no text: {:?}", other),
    }
}

#[test]
fn every_kind_of_field_is_decoded() {
    let value = decode(
        "<item id=\"7\"><name>n</name>a<count>12</count><note>x</note><yes/><note>y</note></item>",
    )
    .unwrap();
    assert_eq!(value.name().unwrap(), "item");
    assert_eq!(value.attribute(0).unwrap(), "7");
    assert_eq!(text(value.last(1).unwrap()), "n");
    assert_eq!(text(value.last(2).unwrap()), "12");
    let notes: Vec<&str> = value.all(3).into_iter().map(text).collect();
    assert_eq!(notes, vec!["x", "y"]);
    match value.last(4).unwrap() {
        XmlValue::Variant(0, payload) => assert_eq!(payload.name().unwrap(), "yes"),
        other => panic!("{:?}", other),
    }
    assert_eq!(text(value.last(5).unwrap()), "a");
}

#[test]
fn content_stands_in_field_order() {
    let value =
        decode("<item id=\"1\"><note>x</note>b<name>n</name><no/><note>y</note></item>").unwrap();
    match &value {
        XmlValue::Struct(s) => {
            let fields: Vec<usize> = s.content.iter().map(|e| e.field).collect();
            assert_eq!(fields, vec![1, 3, 3, 4, 5]);
        }
        other => panic!("{:?}", other),
    }
    // The entries of one field stay in document order.
    let notes: Vec<&str> = value.all(3).into_iter().map(text).collect();
    assert_eq!(notes, vec!["x", "y"]);
}

#[test]
fn the_untagged_field_takes_what_no_named_field_takes() {
    let value = decode("<item id=\"1\"><name>n</name><whatever/></item>").unwrap();
    match value.last(4).unwrap() {
        XmlValue::Variant(2, payload) => assert_eq!(payload.name().unwrap(), "whatever"),
        other => panic!("{:?}", other),
    }
}

#[test]
fn an_empty_element_is_an_empty_text() {
    let value = decode("<item id=\"1\"><name/></item>").unwrap();
    assert_eq!(text(value.last(1).unwrap()), "");
    let value = decode("<item id=\"1\"><name></name></item>").unwrap();
    assert_eq!(text(value.last(1).unwrap()), "");
}

#[test]
fn comments_are_passed_over() {
    let value = decode("<!-- a --><item id=\"1\"><!-- b --><name>n</name></item>").unwrap();
    assert_eq!(text(value.last(1).unwrap()), "n");
}

#[test]
fn namespace_declarations_are_no_fields() {
    let value =
        decode("<item xmlns=\"urn:x\" xmlns:y=\"urn:y\" id=\"1\"><name>n</name></item>").unwrap();
    assert_eq!(value.attribute(0).unwrap(), "1");
}

#[test]
fn a_declaration_and_white_space_may_stand_before_the_root() {
    let value = decode("<?xml version=\"1.0\"?>\n  <item id=\"1\"><name>n</name></item>").unwrap();
    assert_eq!(text(value.last(1).unwrap()), "n");
}

#[test]
fn each_decoding_failure_has_an_input() {
    assert_eq!(decode("<item id=\"1\"><name>n</name>").unwrap_err(), XmlDeError::Eof);
    assert_eq!(decode("").unwrap_err(), XmlDeError::Eof);
    assert_eq!(decode("<item id=\"1\"><name>n</nam></item>").unwrap_err(), XmlDeError::Malformed);
    assert_eq!(
        decode("<item id=\"1\" other=\"2\"><name>n</name></item>").unwrap_err(),
        XmlDeError::InvalidFieldName
    );
    assert_eq!(decode("<item id=\"1\"/>").unwrap_err(), XmlDeError::MissingField);
    assert_eq!(decode("<item><name>n</name></item>").unwrap_err(), XmlDeError::MissingField);
    assert_eq!(decode("<other id=\"1\"><name>n</name></other>").unwrap_err(), XmlDeError::InvalidTag);
    assert_eq!(
        decode("<item id=\"1\"><name>a<!-- c -->b</name></item>").unwrap_err(),
        XmlDeError::UnsupportedEvent
    );
    assert_eq!(
        decode("<item id=\"1\"><name><b/></name></item>").unwrap_err(),
        XmlDeError::UnsupportedEvent
    );
    assert_eq!(
        decode("<item id=\"1\"><name>n</name><![CDATA[x]]></item>").unwrap_err(),
        XmlDeError::UnsupportedCData
    );
    assert_eq!(
        decode("<item id=\"1\"><name>n</name><?pi x?></item>").unwrap_err(),
        XmlDeError::UnsupportedProcessingInstruction
    );
    assert_eq!(
        decode("<item id=\"1\"><name>n</name><?xml version=\"1.0\"?></item>").unwrap_err(),
        XmlDeError::UnsupportedDeclaration
    );
    assert_eq!(
        decode("<item id=\"1\"><name>n</name><!DOCTYPE a></item>").unwrap_err(),
        XmlDeError::UnsupportedDoctype
    );
    assert_eq!(
        decode("<item id=\"1\"><count>x</count><name>n</name></item>").unwrap_err(),
        XmlDeError::ParseValue(ParseValueError::ParseIntError(IntErrorKind::InvalidDigit))
    );
    assert_eq!(
        decode("<item id=\"1\"><count>256</count><name>n</name></item>").unwrap_err(),
        XmlDeError::ParseValue(ParseValueError::ParseIntError(IntErrorKind::PosOverflow))
    );
    assert_eq!(decode("text").unwrap_err(), XmlDeError::UnsupportedEvent);
}

#[test]
fn a_second_run_of_text_in_a_primitive_is_a_failure() {
    let schema = schema(false);
    let events = vec![
        rustical::xml::event::XmlEvent {
            kind: rustical::xml::event::EventKind::Start,
            name: "name".to_owned(),
            local_name: "name".to_owned(),
            namespace: None,
            attributes: vec![],
            content: String::new(),
        },
        rustical::xml::event::XmlEvent::text("a".to_owned()),
        rustical::xml::event::XmlEvent::text("b".to_owned()),
        rustical::xml::event::XmlEvent::end("name".to_owned(), "name".to_owned(), None),
    ];
    assert_eq!(schema.decode(1, &events, 0).unwrap_err(), XmlDeError::ContentAlreadyWritten);
}

#[test]
fn a_closing_tag_of_another_element_is_a_failure() {
    let schema = schema(false);
    let events = vec![
        rustical::xml::event::XmlEvent {
            kind: rustical::xml::event::EventKind::Start,
            name: "item".to_owned(),
            local_name: "item".to_owned(),
            namespace: None,
            attributes: vec![],
            content: String::new(),
        },
        rustical::xml::event::XmlEvent::end("other".to_owned(), "other".to_owned(), None),
    ];
    assert_eq!(schema.decode(0, &events, 0).unwrap_err(), XmlDeError::UnexpectedClosingTag);
}

#[test]
fn an_enum_without_a_variant_for_a_tag_fails() {
    let strict = Schema {
        types: vec![
            TypeDef::Enum(EnumDef { variants: vec![Variant::named("yes", "yes", None, 1)] }),
            TypeDef::Struct(NamedStruct::parse(StructAttrs::plain(), vec![])),
        ],
    };
    assert!(strict.check());
    let events = read_events("<no/>");
    assert_eq!(strict.decode(0, &events, 0).unwrap_err(), XmlDeError::InvalidVariant);
    let events = read_events("<yes/>");
    assert!(matches!(strict.decode(0, &events, 0), Ok((XmlValue::Variant(0, _), 1))));
}

#[test]
fn decoding_must_start_at_an_element() {
    let schema = schema(false);
    let events = read_events("<item id=\"1\"><name>n</name></item>");
    assert_eq!(schema.decode(0, &events, 2).unwrap_err(), XmlDeError::UnsupportedEvent);
    assert_eq!(schema.decode(0, &events, 99).unwrap_err(), XmlDeError::UnsupportedEvent);
    assert_eq!(schema.decode(99, &events, 0).unwrap_err(), XmlDeError::InvalidVariant);
}

#[test]
fn unknown_attributes_and_children_are_passed_over_where_allowed() {
    let value = decode_lenient(
        "<item id=\"1\" other=\"2\"><name>n</name></item>",
    )
    .unwrap();
    assert_eq!(value.attribute(0).unwrap(), "1");
    // Without an untagged field, an unknown child is passed over whole.
    let lenient = Schema {
        types: vec![
            TypeDef::Struct(NamedStruct::parse(
                StructAttrs { root: Some("a".to_owned()), ns: None, allow_invalid: true },
                vec![Field::tag("b", "b", None, 1, false, true)],
            )),
            TypeDef::Text(Primitive::String),
        ],
    };
    assert!(lenient.check());
    let value = root(&lenient)
        .parse_str(&lenient, "<a><b>1</b><x><b>inner</b><y/></x><b>2</b></a>")
        .unwrap();
    let found: Vec<&str> = value.all(0).into_iter().map(text).collect();
    assert_eq!(found, vec!["1", "2"]);
    let strict = Schema {
        types: vec![
            TypeDef::Struct(NamedStruct::parse(
                StructAttrs { root: Some("a".to_owned()), ns: None, allow_invalid: false },
                vec![Field::tag("b", "b", None, 1, false, true)],
            )),
            TypeDef::Text(Primitive::String),
        ],
    };
    assert_eq!(
        root(&strict).parse_str(&strict, "<a><b>1</b><x/></a>").unwrap_err(),
        XmlDeError::InvalidFieldName
    );
}

#[test]
fn a_field_with_a_namespace_takes_only_elements_of_it() {
    let schema = Schema {
        types: vec![
            TypeDef::Struct(NamedStruct::parse(
                StructAttrs { root: Some("a".to_owned()), ns: Some("DAV:".to_owned()), allow_invalid: true },
                vec![Field::tag("b", "b", Some("DAV:"), 1, false, true)],
            )),
            TypeDef::Text(Primitive::String),
        ],
    };
    let value = root(&schema)
        .parse_str(&schema, "<a xmlns=\"DAV:\" xmlns:o=\"urn:o\"><b>1</b><o:b>2</o:b></a>")
        .unwrap();
    let found: Vec<&str> = value.all(0).into_iter().map(text).collect();
    assert_eq!(found, vec!["1"]);
    assert_eq!(
        root(&schema).parse_str(&schema, "<a xmlns=\"urn:o\"/>").unwrap_err(),
        XmlDeError::InvalidTag
    );
}

#[test]
fn a_table_is_checked_for_its_form() {
    assert!(schema(false).check());
    // Two untagged fields.
    let twice = Schema {
        types: vec![
            TypeDef::Struct(NamedStruct::parse(
                StructAttrs::plain(),
                vec![
                    Field::unnamed(FieldType::Untagged, 1, false, false),
                    Field::unnamed(FieldType::Untagged, 1, false, false),
                ],
            )),
            TypeDef::Text(Primitive::String),
        ],
    };
    assert!(!twice.check());
    // A field that names no type of the table.
    let dangling = Schema {
        types: vec![TypeDef::Struct(NamedStruct::parse(
            StructAttrs::plain(),
            vec![Field::tag("a", "a", None, 3, false, false)],
        ))],
    };
    assert!(!dangling.check());
    // Two variants that take every tag.
    let others = Schema {
        types: vec![
            TypeDef::Enum(EnumDef { variants: vec![Variant::other(1), Variant::other(1)] }),
            TypeDef::Any,
        ],
    };
    assert!(!others.check());
    // A variant whose element is an enum again.
    let nested = Schema {
        types: vec![TypeDef::Enum(EnumDef { variants: vec![Variant::named("a", "a", None, 0)] })],
    };
    assert!(!nested.check());
    assert!(Schema { types: vec![] }.check());
}

#[test]
fn the_root_of_a_struct_is_told() {
    let schema = schema(false);
    assert_eq!(root(&schema).impl_xml_root(), ("item", None));
    let dav = NamedStruct::parse(StructAttrs::rooted("propfind", Some("DAV:")), vec![]);
    assert_eq!(dav.impl_xml_root(), ("propfind", Some("DAV:")));
}

fn entry(field: usize, value: XmlValue) -> Entry {
    Entry { field, value }
}

fn sample() -> XmlValue {
    XmlValue::Struct(StructValue {
        name: "item".to_owned(),
        attributes: vec![AttrEntry { field: 0, value: "7 & 8".to_owned() }],
        content: vec![
            entry(1, XmlValue::Text("n".to_owned())),
            entry(2, XmlValue::Text("12".to_owned())),
            entry(3, XmlValue::Text("x".to_owned())),
            entry(3, XmlValue::Text("".to_owned())),
            entry(
                4,
                XmlValue::Variant(
                    1,
                    Box::new(XmlValue::Struct(StructValue {
                        name: "no".to_owned(),
                        attributes: vec![],
                        content: vec![],
                    })),
                ),
            ),
            entry(5, XmlValue::Text("a < b".to_owned())),
        ],
    })
}

fn item_tag() -> Tag {
    Tag { name: "item".to_owned(), local_name: "item".to_owned(), namespace: None }
}

#[test]
fn a_struct_is_written_with_its_fields_in_order() {
    let schema = schema(false);
    let events = schema.encode(0, &sample(), Some(&item_tag())).unwrap();
    assert_eq!(
        write_events(&events),
        "<item id=\"7 &amp; 8\"><name>n</name><count>12</count><note>x</note><note/><no/>a &lt; b</item>"
    );
}

#[test]
fn an_element_without_content_is_written_as_an_empty_tag() {
    let schema = schema(false);
    let value = XmlValue::Struct(StructValue {
        name: "item".to_owned(),
        attributes: vec![AttrEntry { field: 0, value: "1".to_owned() }],
        content: vec![],
    });
    let events = schema.encode(0, &value, Some(&item_tag())).unwrap();
    assert_eq!(write_events(&events), "<item id=\"1\"/>");
    let events = root(&schema).impl_se(&schema, &value, Some(&item_tag())).unwrap();
    assert_eq!(write_events(&events), "<item id=\"1\"/>");
}

#[test]
fn a_struct_with_a_name_of_its_own_needs_no_tag() {
    let schema = schema(false);
    let value = XmlValue::Struct(StructValue {
        name: "whatever".to_owned(),
        attributes: vec![],
        content: vec![],
    });
    assert_eq!(write_events(&schema.encode(5, &value, None).unwrap()), "<whatever/>");
}

#[test]
fn a_struct_without_a_tag_is_written_as_its_fields_alone() {
    let schema = schema(false);
    // Nothing to write: no tag, no name of its own, no content.
    let empty = XmlValue::Struct(StructValue {
        name: "whatever".to_owned(),
        attributes: vec![],
        content: vec![],
    });
    assert!(schema.encode(4, &empty, None).unwrap().is_empty());
    // The fields in the order of the struct's fields, whatever the order
    // of the entries; attributes have no element to stand in.
    let value = XmlValue::Struct(StructValue {
        name: "item".to_owned(),
        attributes: vec![AttrEntry { field: 0, value: "7".to_owned() }],
        content: vec![
            Entry { field: 5, value: XmlValue::Text("t".to_owned()) },
            Entry { field: 3, value: XmlValue::Text("x".to_owned()) },
            Entry { field: 4, value: XmlValue::Variant(0, Box::new(empty)) },
            Entry { field: 2, value: XmlValue::Text("12".to_owned()) },
            Entry { field: 1, value: XmlValue::Text("n".to_owned()) },
            Entry { field: 3, value: XmlValue::Text("y".to_owned()) },
        ],
    });
    let bare = root(&schema).impl_se(&schema, &value, None).unwrap();
    assert_eq!(
        write_events(&bare),
        "<name>n</name><count>12</count><note>x</note><note>y</note><yes/>t"
    );
    assert_eq!(write_events(&schema.encode(0, &value, None).unwrap()), write_events(&bare));
    let tagged = schema.encode(0, &value, Some(&item_tag())).unwrap();
    assert_eq!(
        write_events(&tagged),
        "<item id=\"7\"><name>n</name><count>12</count><note>x</note><note>y</note><yes/>t</item>"
    );
    // An entry of no field of the struct is still refused.
    let misfit = XmlValue::Struct(StructValue {
        name: "item".to_owned(),
        attributes: vec![],
        content: vec![Entry { field: 9, value: XmlValue::Nothing }],
    });
    assert_eq!(schema.encode(0, &misfit, None).unwrap_err(), XmlSeError::Mismatch);
}

#[test]
fn a_value_that_does_not_fit_its_type_is_not_written() {
    let schema = schema(false);
    let tag = item_tag();
    assert_eq!(
        schema.encode(0, &XmlValue::Text("x".to_owned()), Some(&tag)).unwrap_err(),
        XmlSeError::Mismatch
    );
    assert_eq!(schema.encode(1, &XmlValue::Nothing, Some(&tag)).unwrap_err(), XmlSeError::Mismatch);
    assert_eq!(
        schema.encode(3, &XmlValue::Variant(9, Box::new(XmlValue::Nothing)), None).unwrap_err(),
        XmlSeError::Mismatch
    );
    assert_eq!(schema.encode(99, &XmlValue::Nothing, Some(&tag)).unwrap_err(), XmlSeError::Mismatch);
    let stray = XmlValue::Struct(StructValue {
        name: "item".to_owned(),
        attributes: vec![AttrEntry { field: 1, value: "no attribute".to_owned() }],
        content: vec![],
    });
    assert_eq!(schema.encode(0, &stray, Some(&tag)).unwrap_err(), XmlSeError::Mismatch);
    let stray = XmlValue::Struct(StructValue {
        name: "item".to_owned(),
        attributes: vec![],
        content: vec![entry(0, XmlValue::Text("no child".to_owned()))],
    });
    assert_eq!(schema.encode(0, &stray, Some(&tag)).unwrap_err(), XmlSeError::Mismatch);
}

fn same(a: &XmlValue, b: &XmlValue) -> bool {
    match (a, b) {
        (XmlValue::Text(x), XmlValue::Text(y)) => x == y,
        (XmlValue::Nothing, XmlValue::Nothing) => true,
        (XmlValue::Variant(i, x), XmlValue::Variant(j, y)) => i == j && same(x, y),
        (XmlValue::Struct(x), XmlValue::Struct(y)) => {
            x.name == y.name
                && x.attributes.len() == y.attributes.len()
                && x.attributes
                    .iter()
                    .zip(y.attributes.iter())
                    .all(|(p, q)| p.field == q.field && p.value == q.value)
                && x.content.len() == y.content.len()
                && x.content
                    .iter()
                    .zip(y.content.iter())
                    .all(|(p, q)| p.field == q.field && same(&p.value, &q.value))
        }
        _ => false,
    }
}

#[test]
fn what_is_encoded_is_decoded_as_itself() {
    let schema = schema(false);
    let value = sample();
    let events = schema.encode(0, &value, Some(&item_tag())).unwrap();
    let (decoded, next) = schema.decode(0, &events, 0).unwrap();
    assert_eq!(next, events.len());
    assert!(same(&decoded, &value), "{:?}", decoded);
    assert!(same(&value.duplicate(), &value));
}

#[test]
fn what_is_decoded_is_encoded_as_it_was() {
    let schema = schema(false);
    let input = "<item id=\"7\"><name>n</name><count>12</count><note>x</note><note/><yes/><other/>text</item>";
    let value = root(&schema).parse_str(&schema, input).unwrap();
    let events = schema.encode(0, &value, Some(&item_tag())).unwrap();
    assert_eq!(write_events(&events), input);
    // And through the text once more.
    let again = root(&schema).parse_str(&schema, &write_events(&events)).unwrap();
    assert!(same(&again, &value));
}

#[test]
fn content_is_written_field_by_field() {
    let schema = schema(false);
    let value = root(&schema)
        .parse_str(&schema, "<item id=\"1\">t<note>x</note><no/><name>n</name><note>y</note></item>")
        .unwrap();
    let events = schema.encode(0, &value, Some(&item_tag())).unwrap();
    assert_eq!(
        write_events(&events),
        "<item id=\"1\"><name>n</name><note>x</note><note>y</note><no/>t</item>"
    );
}

fn written_and_read_again(input: &str) -> (String, String, String) {
    let schema = schema(true);
    let value = root(&schema).parse_str(&schema, input).unwrap();
    let written = write_events(&schema.encode(0, &value, Some(&item_tag())).unwrap());
    let again = root(&schema).parse_str(&schema, &written).unwrap();
    (written, format!("{:?}", value), format!("{:?}", again))
}

#[test]
fn what_is_read_comes_back_whatever_the_document_looked_like() {
    // Children out of field order, a comment, an unknown child, an unknown
    // attribute, a namespace declaration and a tag with a prefix.
    let (written, value, again) = written_and_read_again(
        "<x:item xmlns:x=\"urn:x\" id=\"7\" more=\"1\"><note>x</note>t<!-- c --><no/>\
         <count>3</count><name>a &lt; b</name><note>y</note><name>n</name></x:item>",
    );
    assert_eq!(
        written,
        "<item id=\"7\"><name>a &lt; b</name><name>n</name><count>3</count><note>x</note>\
         <note>y</note><no/>t</item>"
    );
    assert_eq!(value, again);
    // An element without content, and one that the untagged field takes
    // under its own name.
    let (written, value, again) = written_and_read_again("<item id=\"\"><other></other><name/></item>");
    assert_eq!(written, "<item id=\"\"><name/><other/></item>");
    assert_eq!(value, again);
}
