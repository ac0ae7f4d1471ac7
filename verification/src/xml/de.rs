//! Decoding: from the events of an element to a value, by a schema.
//!
//! Decoding is a single pass over the events. It fails at the first event
//! that the schema has no place for.

use vstd::prelude::*;
use vstd::string::StrSliceExecFns;
use crate::error::XmlDeError;
use crate::text::str_eq;
use crate::xml::dynamic::{
    attr_views, AttrEntry, AttrEntryModel, Entry, EntryModel, ValueModel, XmlValue,
};
use crate::xml::event::{AttributeModel, event_views, EventKind, EventModel, XmlAttribute, XmlEvent};
use crate::xml::schema::{
    FieldModel, FieldType, NamedStruct, Primitive, Schema, schema_wf, struct_wf, StructModel,
    TypeDef, TypeModel, Variant, VariantModel,
};
use crate::xml::value::Value;

verus! {

/// Whether a text is a value of a primitive type, or why it is not.
pub open spec fn check_text(primitive: Primitive, text: Seq<char>) -> Result<(), XmlDeError> {
    match primitive {
        Primitive::String => Ok(()),
        Primitive::I8 => match <i8 as Value>::spec_deserialize(text) {
            Ok(_) => Ok(()),
            Err(e) => Err(e),
        },
        Primitive::U8 => match <u8 as Value>::spec_deserialize(text) {
            Ok(_) => Ok(()),
            Err(e) => Err(e),
        },
        Primitive::I16 => match <i16 as Value>::spec_deserialize(text) {
            Ok(_) => Ok(()),
            Err(e) => Err(e),
        },
        Primitive::U16 => match <u16 as Value>::spec_deserialize(text) {
            Ok(_) => Ok(()),
            Err(e) => Err(e),
        },
        Primitive::I32 => match <i32 as Value>::spec_deserialize(text) {
            Ok(_) => Ok(()),
            Err(e) => Err(e),
        },
        Primitive::U32 => match <u32 as Value>::spec_deserialize(text) {
            Ok(_) => Ok(()),
            Err(e) => Err(e),
        },
        Primitive::I64 => match <i64 as Value>::spec_deserialize(text) {
            Ok(_) => Ok(()),
            Err(e) => Err(e),
        },
        Primitive::U64 => match <u64 as Value>::spec_deserialize(text) {
            Ok(_) => Ok(()),
            Err(e) => Err(e),
        },
        Primitive::Isize => match <isize as Value>::spec_deserialize(text) {
            Ok(_) => Ok(()),
            Err(e) => Err(e),
        },
        Primitive::Usize => match <usize as Value>::spec_deserialize(text) {
            Ok(_) => Ok(()),
            Err(e) => Err(e),
        },
    }
}

/// The character content of a text-only element read from position `p`,
/// with `text` what was read before, and the position after the end tag.
/// A second run of text where some was read is a failure, and so is any
/// event but text and the end tag.
pub open spec fn scan_text(events: Seq<EventModel>, p: int, text: Seq<char>) -> Result<
    (Seq<char>, int),
    XmlDeError,
>
    decreases events.len() - p,
{
    if p < 0 || p >= events.len() {
        Err(XmlDeError::Eof)
    } else {
        match events[p].kind {
            EventKind::Text => if text.len() > 0 {
                Err(XmlDeError::ContentAlreadyWritten)
            } else {
                scan_text(events, p + 1, events[p].content)
            },
            EventKind::End => Ok((text, p + 1)),
            EventKind::Eof => Err(XmlDeError::Eof),
            EventKind::Malformed => Err(XmlDeError::Malformed),
            _ => Err(XmlDeError::UnsupportedEvent),
        }
    }
}

/// A text of a primitive type as a decoded value.
pub open spec fn finish_text(primitive: Primitive, text: Seq<char>, next: int) -> Result<
    (ValueModel, int),
    XmlDeError,
> {
    match check_text(primitive, text) {
        Ok(()) => Ok((ValueModel::Text(text), next)),
        Err(e) => Err(e),
    }
}

/// The character content of the text-only element that opens at `at`, and
/// the position after the element. An empty tag holds the empty text.
pub open spec fn element_text(events: Seq<EventModel>, at: int) -> Result<
    (Seq<char>, int),
    XmlDeError,
> {
    if events[at].kind == EventKind::Empty {
        Ok((seq![], at + 1))
    } else {
        scan_text(events, at + 1, seq![])
    }
}

/// A text-only element that opens at `at`.
pub open spec fn decode_text(primitive: Primitive, events: Seq<EventModel>, at: int) -> Result<
    (ValueModel, int),
    XmlDeError,
> {
    match element_text(events, at) {
        Ok((text, next)) => finish_text(primitive, text, next),
        Err(e) => Err(e),
    }
}

/// The value of a primitive type that the text-only element at `at` holds.
pub open spec fn spec_deserialize_value<T: Value>(events: Seq<EventModel>, at: int) -> Result<
    (T::V, int),
    XmlDeError,
> {
    if !(0 <= at < events.len()) || !events[at].opens() {
        Err(XmlDeError::UnsupportedEvent)
    } else {
        match element_text(events, at) {
            Err(e) => Err(e),
            Ok((text, next)) => match T::spec_deserialize(text) {
                Ok(value) => Ok((value, next)),
                Err(e) => Err(e),
            },
        }
    }
}

/// The position after the end tag that closes the element whose content
/// starts at `p`, `depth` elements further in.
pub open spec fn skip_to_end(events: Seq<EventModel>, p: int, depth: nat) -> Result<int, XmlDeError>
    decreases events.len() - p,
{
    if p < 0 || p >= events.len() {
        Err(XmlDeError::Eof)
    } else {
        match events[p].kind {
            EventKind::Start => skip_to_end(events, p + 1, depth + 1),
            EventKind::End => if depth == 0 {
                Ok(p + 1)
            } else {
                skip_to_end(events, p + 1, (depth - 1) as nat)
            },
            EventKind::Eof => Err(XmlDeError::Eof),
            EventKind::Malformed => Err(XmlDeError::Malformed),
            _ => skip_to_end(events, p + 1, depth),
        }
    }
}

/// The position after the element that opens at `at`.
pub open spec fn skip_element(events: Seq<EventModel>, at: int) -> Result<int, XmlDeError> {
    if events[at].kind == EventKind::Empty {
        Ok(at + 1)
    } else {
        skip_to_end(events, at + 1, 0)
    }
}

/// Whether a field is a named child that takes the element of an event: the
/// local names agree, and so do the namespaces where the field asks for one.
pub open spec fn takes(field: FieldModel, event: EventModel) -> bool {
    field.ty == FieldType::Tag && field.name == event.local_name && (field.ns is None || field.ns
        == event.namespace)
}

/// The first of the first `n` fields that takes the element of an event.
pub open spec fn tag_field(fields: Seq<FieldModel>, event: EventModel, n: nat) -> Option<int>
    decreases n,
{
    if n == 0 {
        None
    } else {
        match tag_field(fields, event, (n - 1) as nat) {
            Some(i) => Some(i),
            None => if takes(fields[n - 1], event) {
                Some(n - 1)
            } else {
                None
            },
        }
    }
}

/// The first of the first `n` fields that is of a kind.
pub open spec fn kind_field(fields: Seq<FieldModel>, ty: FieldType, n: nat) -> Option<int>
    decreases n,
{
    if n == 0 {
        None
    } else {
        match kind_field(fields, ty, (n - 1) as nat) {
            Some(i) => Some(i),
            None => if fields[n - 1].ty == ty {
                Some(n - 1)
            } else {
                None
            },
        }
    }
}

/// The first of the first `n` fields that is the attribute `key`.
pub open spec fn attr_field(fields: Seq<FieldModel>, key: Seq<char>, n: nat) -> Option<int>
    decreases n,
{
    if n == 0 {
        None
    } else {
        match attr_field(fields, key, (n - 1) as nat) {
            Some(i) => Some(i),
            None => if fields[n - 1].ty == FieldType::Attr && fields[n - 1].name == key {
                Some(n - 1)
            } else {
                None
            },
        }
    }
}

/// The field that a child element goes to: the first named field that takes
/// it, else the untagged field.
pub open spec fn field_for(fields: Seq<FieldModel>, event: EventModel) -> Option<int> {
    match tag_field(fields, event, fields.len()) {
        Some(i) => Some(i),
        None => kind_field(fields, FieldType::Untagged, fields.len()),
    }
}

/// One entry with a run of character content for each of the first `n`
/// fields that is the text of the struct.
pub open spec fn text_entries(fields: Seq<FieldModel>, text: Seq<char>, n: nat) -> Seq<EntryModel>
    decreases n,
{
    if n == 0 {
        seq![]
    } else {
        let before = text_entries(fields, text, (n - 1) as nat);
        if fields[n - 1].ty == FieldType::Text {
            before.push(EntryModel { field: n - 1, value: ValueModel::Text(text) })
        } else {
            before
        }
    }
}

/// Whether an attribute declares a namespace. Such attributes are no
/// fields.
pub open spec fn is_xmlns(key: Seq<char>) -> bool {
    key == "xmlns"@ || (key.len() >= 6 && key.take(6) == "xmlns:"@)
}

/// The entries of the first `n` attributes of a start tag. An attribute
/// that no field takes is a failure unless the struct passes over them.
pub open spec fn decode_attrs(s: StructModel, attributes: Seq<AttributeModel>, n: nat) -> Result<
    Seq<AttrEntryModel>,
    XmlDeError,
>
    decreases n,
{
    if n == 0 {
        Ok(seq![])
    } else {
        match decode_attrs(s, attributes, (n - 1) as nat) {
            Err(e) => Err(e),
            Ok(entries) => {
                let attribute = attributes[n - 1];
                if is_xmlns(attribute.key) {
                    Ok(entries)
                } else {
                    match attr_field(s.fields, attribute.key, s.fields.len()) {
                        Some(f) => Ok(
                            entries.push(AttrEntryModel { field: f, value: attribute.value }),
                        ),
                        None => if s.allow_invalid {
                            Ok(entries)
                        } else {
                            Err(XmlDeError::InvalidFieldName)
                        },
                    }
                }
            },
        }
    }
}

/// Whether a field occurs among entries.
pub open spec fn occurs(entries: Seq<EntryModel>, field: int) -> bool {
    exists|i: int| 0 <= i < entries.len() && (#[trigger] entries[i]).field == field
}

/// Whether a field occurs among attribute entries.
pub open spec fn attr_occurs(entries: Seq<AttrEntryModel>, field: int) -> bool {
    exists|i: int| 0 <= i < entries.len() && (#[trigger] entries[i]).field == field
}

/// Whether a field of a struct occurs: an attribute among the attributes,
/// a child or the text in the content. The element's own name always does.
pub open spec fn field_occurs(
    ty: FieldType,
    attributes: Seq<AttrEntryModel>,
    content: Seq<EntryModel>,
    field: int,
) -> bool {
    match ty {
        FieldType::TagName => true,
        FieldType::Attr => attr_occurs(attributes, field),
        _ => occurs(content, field),
    }
}

/// Whether one of the first `n` fields must occur and does not.
pub open spec fn missing_required(
    fields: Seq<FieldModel>,
    attributes: Seq<AttrEntryModel>,
    content: Seq<EntryModel>,
    n: nat,
) -> bool
    decreases n,
{
    if n == 0 {
        false
    } else {
        missing_required(fields, attributes, content, (n - 1) as nat) || (fields[n - 1].required
            && !field_occurs(fields[n - 1].ty, attributes, content, n - 1))
    }
}

/// The place of the first of the first `n` entries that belongs to a
/// field after `field`; `n` where there is none.
pub open spec fn place_after(entries: Seq<EntryModel>, field: int, n: nat) -> nat
    decreases n,
{
    if n == 0 {
        0
    } else {
        let k = place_after(entries, field, (n - 1) as nat);
        if k < n - 1 || entries[n - 1].field > field {
            k
        } else {
            n
        }
    }
}

/// The first `n` entries in the order of their fields, the entries of one
/// field in the order in which they were read.
pub open spec fn by_field(entries: Seq<EntryModel>, n: nat) -> Seq<EntryModel>
    decreases n,
{
    if n == 0 {
        seq![]
    } else {
        let before = by_field(entries, (n - 1) as nat);
        before.insert(
            place_after(before, entries[n - 1].field, before.len()) as int,
            entries[n - 1],
        )
    }
}

/// The struct made of what was read, its content in the order of its
/// fields, if no required field is missing.
pub open spec fn finish_struct(
    s: StructModel,
    name: Seq<char>,
    attributes: Seq<AttrEntryModel>,
    content: Seq<EntryModel>,
    next: int,
) -> Result<(ValueModel, int), XmlDeError> {
    let content = by_field(content, content.len());
    if missing_required(s.fields, attributes, content, s.fields.len()) {
        Err(XmlDeError::MissingField)
    } else {
        Ok((ValueModel::Struct { name, attributes, content }, next))
    }
}

/// Once an entry of a later field is found, it stays the first.
pub proof fn lemma_place_stays(entries: Seq<EntryModel>, field: int, n: nat, m: nat)
    requires
        n <= m,
        place_after(entries, field, n) < n,
    ensures
        place_after(entries, field, m) == place_after(entries, field, n),
    decreases m,
{
    if n < m {
        lemma_place_stays(entries, field, n, (m - 1) as nat);
    }
}

/// Puts entries in the order of their fields, the entries of one field in
/// the order in which they were read.
fn sort_entries(content: Vec<Entry>) -> (sorted: Vec<Entry>)
    ensures
        XmlValue::models(sorted@) == by_field(XmlValue::models(content@), content.len() as nat),
{
    let ghost all = XmlValue::models(content@);
    proof {
        XmlValue::lemma_models(content@);
    }
    let mut sorted: Vec<Entry> = Vec::new();
    assert(XmlValue::models(sorted@) =~= seq![]) by {
        XmlValue::lemma_models(sorted@);
    }
    for entry in it: content
        invariant
            it.seq() == content@,
            all == XmlValue::models(content@),
            all.len() == content.len(),
            forall|i: int|
                0 <= i < content.len() ==> (#[trigger] all[i]) == (EntryModel {
                    field: content[i].field as int,
                    value: content[i].value.model(),
                }),
            XmlValue::models(sorted@) == by_field(all, it.index() as nat),
    {
        let ghost i = it.index();
        let ghost before = XmlValue::models(sorted@);
        let ghost previous = sorted@;
        proof {
            XmlValue::lemma_models(sorted@);
        }
        let mut k: usize = 0;
        while k < sorted.len() && sorted[k].field <= entry.field
            invariant
                k <= sorted.len(),
                before == XmlValue::models(sorted@),
                before.len() == sorted.len(),
                forall|j: int|
                    0 <= j < sorted.len() ==> (#[trigger] before[j]).field == sorted[j].field,
                place_after(before, entry.field as int, k as nat) == k,
            decreases sorted.len() - k,
        {
            k = k + 1;
        }
        proof {
            if k < sorted.len() {
                lemma_place_stays(before, entry.field as int, (k + 1) as nat, before.len());
            }
        }
        sorted.insert(k, entry);
        proof {
            XmlValue::lemma_models(sorted@);
            assert(all[i] == (EntryModel {
                field: entry.field as int,
                value: entry.value.model(),
            }));
            assert(XmlValue::models(sorted@) =~= before.insert(k as int, all[i]));
        }
    }
    sorted
}

/// Whether a variant takes the element of an event by its name.
pub open spec fn variant_takes(variant: VariantModel, event: EventModel) -> bool {
    !variant.other && variant.name == event.local_name && (variant.ns is None || variant.ns
        == event.namespace)
}

/// The first of the first `n` variants that takes the element of an event.
pub open spec fn named_variant(variants: Seq<VariantModel>, event: EventModel, n: nat) -> Option<
    int,
>
    decreases n,
{
    if n == 0 {
        None
    } else {
        match named_variant(variants, event, (n - 1) as nat) {
            Some(i) => Some(i),
            None => if variant_takes(variants[n - 1], event) {
                Some(n - 1)
            } else {
                None
            },
        }
    }
}

/// The first of the first `n` variants that takes every tag.
pub open spec fn other_variant(variants: Seq<VariantModel>, n: nat) -> Option<int>
    decreases n,
{
    if n == 0 {
        None
    } else {
        match other_variant(variants, (n - 1) as nat) {
            Some(i) => Some(i),
            None => if variants[n - 1].other {
                Some(n - 1)
            } else {
                None
            },
        }
    }
}

/// The variant that an element is: the first that takes its name, else the
/// one that takes every tag.
pub open spec fn pick_variant(variants: Seq<VariantModel>, event: EventModel) -> Option<int> {
    match named_variant(variants, event, variants.len()) {
        Some(i) => Some(i),
        None => other_variant(variants, variants.len()),
    }
}

/// The value of the element that opens at `at`, read as the type `ty`, and
/// the position after the element.
pub open spec fn decode(types: Seq<TypeModel>, ty: int, events: Seq<EventModel>, at: int) -> Result<
    (ValueModel, int),
    XmlDeError,
>
    decreases events.len() - at, 2int,
{
    if !(0 <= at < events.len()) || !events[at].opens() {
        Err(XmlDeError::UnsupportedEvent)
    } else if !(0 <= ty < types.len()) {
        Err(XmlDeError::InvalidVariant)
    } else {
        match types[ty] {
            TypeModel::Enum(variants) => match pick_variant(variants, events[at]) {
                None => Err(XmlDeError::InvalidVariant),
                Some(i) => match decode_plain(types, variants[i].shape, events, at) {
                    Ok((value, next)) => Ok((ValueModel::Variant(i, Box::new(value)), next)),
                    Err(e) => Err(e),
                },
            },
            _ => decode_plain(types, ty, events, at),
        }
    }
}

/// The same for a type that is no enum.
pub open spec fn decode_plain(
    types: Seq<TypeModel>,
    ty: int,
    events: Seq<EventModel>,
    at: int,
) -> Result<(ValueModel, int), XmlDeError>
    decreases events.len() - at, 1int,
{
    if !(0 <= at < events.len()) || !events[at].opens() {
        Err(XmlDeError::UnsupportedEvent)
    } else if !(0 <= ty < types.len()) {
        Err(XmlDeError::InvalidVariant)
    } else {
        match types[ty] {
            TypeModel::Text(primitive) => decode_text(primitive, events, at),
            TypeModel::Any => match skip_element(events, at) {
                Ok(next) => Ok((ValueModel::Nothing, next)),
                Err(e) => Err(e),
            },
            TypeModel::Struct(s) => decode_struct(types, s, events, at),
            TypeModel::Enum(_) => Err(XmlDeError::InvalidVariant),
        }
    }
}

/// A struct: the element's own name, its attributes, and its children and
/// its text, field by field, those of one field in document order.
pub open spec fn decode_struct(
    types: Seq<TypeModel>,
    s: StructModel,
    events: Seq<EventModel>,
    at: int,
) -> Result<(ValueModel, int), XmlDeError>
    decreases events.len() - at, 0int,
{
    if !(0 <= at < events.len()) || !events[at].opens() {
        Err(XmlDeError::UnsupportedEvent)
    } else {
        let start = events[at];
        match decode_attrs(s, start.attributes, start.attributes.len()) {
            Err(e) => Err(e),
            Ok(attrs) => {
                if start.kind == EventKind::Empty {
                    finish_struct(s, start.local_name, attrs, seq![], at + 1)
                } else {
                    match decode_children(types, s, start.name, events, at + 1, seq![]) {
                        Ok((content, next)) => finish_struct(
                            s,
                            start.local_name,
                            attrs,
                            content,
                            next,
                        ),
                        Err(e) => Err(e),
                    }
                }
            },
        }
    }
}

/// The content of a struct named `name` from position `p` on, with
/// `entries` what was read before: all entries, and the position after the
/// struct's end tag.
pub open spec fn decode_children(
    types: Seq<TypeModel>,
    s: StructModel,
    name: Seq<char>,
    events: Seq<EventModel>,
    p: int,
    entries: Seq<EntryModel>,
) -> Result<(Seq<EntryModel>, int), XmlDeError>
    decreases events.len() - p, 3int,
{
    if p < 0 || p >= events.len() {
        Err(XmlDeError::Eof)
    } else {
        let event = events[p];
        match event.kind {
            EventKind::Eof => Err(XmlDeError::Eof),
            EventKind::Malformed => Err(XmlDeError::Malformed),
            EventKind::End => if event.name == name {
                Ok((entries, p + 1))
            } else {
                Err(XmlDeError::UnexpectedClosingTag)
            },
            EventKind::Start | EventKind::Empty => match field_for(s.fields, event) {
                Some(f) => match decode(types, s.fields[f].shape, events, p) {
                    Err(e) => Err(e),
                    Ok((value, next)) => if p < next <= events.len() {
                        decode_children(
                            types,
                            s,
                            name,
                            events,
                            next,
                            entries.push(EntryModel { field: f, value }),
                        )
                    } else {
                        Err(XmlDeError::Malformed)
                    },
                },
                None => if s.allow_invalid {
                    match skip_element(events, p) {
                        Err(e) => Err(e),
                        Ok(next) => if p < next <= events.len() {
                            decode_children(types, s, name, events, next, entries)
                        } else {
                            Err(XmlDeError::Malformed)
                        },
                    }
                } else {
                    Err(XmlDeError::InvalidFieldName)
                },
            },
            EventKind::Text => decode_children(
                types,
                s,
                name,
                events,
                p + 1,
                entries + text_entries(s.fields, event.content, s.fields.len()),
            ),
            EventKind::CData => Err(XmlDeError::UnsupportedCData),
            EventKind::Comment => decode_children(types, s, name, events, p + 1, entries),
            EventKind::Decl => Err(XmlDeError::UnsupportedDeclaration),
            EventKind::PI => Err(XmlDeError::UnsupportedProcessingInstruction),
            EventKind::DocType => Err(XmlDeError::UnsupportedDoctype),
        }
    }
}

/// Whether what a function returned is what the model of it gives.
pub open spec fn decoded_as(
    returned: Result<(XmlValue, usize), XmlDeError>,
    specified: Result<(ValueModel, int), XmlDeError>,
) -> bool {
    match specified {
        Ok((value, next)) => returned matches Ok((v, n)) && v@ == value && n == next,
        Err(e) => returned matches Err(x) && x == e,
    }
}

fn check_primitive(primitive: Primitive, text: &str) -> (checked: Result<(), XmlDeError>)
    ensures
        checked == check_text(primitive, text@),
{
    match primitive {
        Primitive::String => Ok(()),
        Primitive::I8 => match <i8 as Value>::deserialize(text) {
            Ok(_) => Ok(()),
            Err(e) => Err(e),
        },
        Primitive::U8 => match <u8 as Value>::deserialize(text) {
            Ok(_) => Ok(()),
            Err(e) => Err(e),
        },
        Primitive::I16 => match <i16 as Value>::deserialize(text) {
            Ok(_) => Ok(()),
            Err(e) => Err(e),
        },
        Primitive::U16 => match <u16 as Value>::deserialize(text) {
            Ok(_) => Ok(()),
            Err(e) => Err(e),
        },
        Primitive::I32 => match <i32 as Value>::deserialize(text) {
            Ok(_) => Ok(()),
            Err(e) => Err(e),
        },
        Primitive::U32 => match <u32 as Value>::deserialize(text) {
            Ok(_) => Ok(()),
            Err(e) => Err(e),
        },
        Primitive::I64 => match <i64 as Value>::deserialize(text) {
            Ok(_) => Ok(()),
            Err(e) => Err(e),
        },
        Primitive::U64 => match <u64 as Value>::deserialize(text) {
            Ok(_) => Ok(()),
            Err(e) => Err(e),
        },
        Primitive::Isize => match <isize as Value>::deserialize(text) {
            Ok(_) => Ok(()),
            Err(e) => Err(e),
        },
        Primitive::Usize => match <usize as Value>::deserialize(text) {
            Ok(_) => Ok(()),
            Err(e) => Err(e),
        },
    }
}

/// Reads the character content of the text-only element that opens at
/// `at`.
fn read_content(events: &Vec<XmlEvent>, at: usize) -> (read: Result<(String, usize), XmlDeError>)
    requires
        at < events.len(),
    ensures
        match element_text(event_views(events@), at as int) {
            Ok((text, next)) => read matches Ok((t, n)) && t@ == text && n == next && at < n
                <= events.len(),
            Err(e) => read matches Err(x) && x == e,
        },
{
    let ghost evs = event_views(events@);
    assert(evs[at as int] == events[at as int]@);
    if matches!(events[at].kind, EventKind::Empty) {
        return Ok((String::new(), at + 1));
    }
    let mut text = String::new();
    let mut p: usize = at + 1;
    loop
        invariant
            at < p <= events.len(),
            evs == event_views(events@),
            evs[at as int].kind != EventKind::Empty,
            scan_text(evs, p as int, text@) == scan_text(evs, at + 1, seq![]),
        decreases events.len() - p,
    {
        if p >= events.len() {
            return Err(XmlDeError::Eof);
        }
        assert(evs[p as int] == events[p as int]@);
        match events[p].kind {
            EventKind::Text => {
                if text.as_str().unicode_len() > 0 {
                    // Content already written.
                    return Err(XmlDeError::ContentAlreadyWritten);
                }
                text = events[p].content.clone();
            },
            EventKind::End => {
                return Ok((text, p + 1));
            },
            EventKind::Eof => {
                return Err(XmlDeError::Eof);
            },
            EventKind::Malformed => {
                return Err(XmlDeError::Malformed);
            },
            _ => {
                return Err(XmlDeError::UnsupportedEvent);
            },
        }
        p = p + 1;
    }
}

/// Reads a text-only element that opens at `at`.
fn read_text(primitive: Primitive, events: &Vec<XmlEvent>, at: usize) -> (read: Result<
    (XmlValue, usize),
    XmlDeError,
>)
    requires
        at < events.len(),
    ensures
        decoded_as(read, decode_text(primitive, event_views(events@), at as int)),
        read matches Ok((_, next)) ==> at < next <= events.len(),
{
    let (text, next) = match read_content(events, at) {
        Ok(read) => read,
        Err(e) => {
            return Err(e);
        },
    };
    match check_primitive(primitive, text.as_str()) {
        Ok(()) => Ok((XmlValue::Text(text), next)),
        Err(e) => Err(e),
    }
}

/// Decodes the text-only element that opens at `at` as a value of a
/// primitive type: the value, and the position after the element.
pub fn deserialize_value<T: Value>(events: &Vec<XmlEvent>, at: usize) -> (read: Result<
    (T, usize),
    XmlDeError,
>)
    ensures
        match spec_deserialize_value::<T>(event_views(events@), at as int) {
            Ok((value, next)) => read matches Ok((v, n)) && v@ == value && n == next,
            Err(e) => read matches Err(x) && x == e,
        },
{
    if at >= events.len() {
        return Err(XmlDeError::UnsupportedEvent);
    }
    assert(event_views(events@)[at as int] == events[at as int]@);
    if !matches!(events[at].kind, EventKind::Start | EventKind::Empty) {
        return Err(XmlDeError::UnsupportedEvent);
    }
    let (text, next) = match read_content(events, at) {
        Ok(read) => read,
        Err(e) => {
            return Err(e);
        },
    };
    match T::deserialize(text.as_str()) {
        Ok(value) => Ok((value, next)),
        Err(e) => Err(e),
    }
}

/// Passes over the element that opens at `at`.
fn skip(events: &Vec<XmlEvent>, at: usize) -> (next: Result<usize, XmlDeError>)
    requires
        at < events.len(),
    ensures
        match skip_element(event_views(events@), at as int) {
            Ok(n) => next matches Ok(m) && m == n && at < m <= events.len(),
            Err(e) => next matches Err(x) && x == e,
        },
{
    let ghost evs = event_views(events@);
    assert(evs[at as int] == events[at as int]@);
    if matches!(events[at].kind, EventKind::Empty) {
        return Ok(at + 1);
    }
    let mut p: usize = at + 1;
    let mut depth: usize = 0;
    loop
        invariant
            at < p <= events.len(),
            depth <= p,
            evs == event_views(events@),
            evs[at as int].kind != EventKind::Empty,
            skip_to_end(evs, p as int, depth as nat) == skip_to_end(evs, at + 1, 0),
        decreases events.len() - p,
    {
        if p >= events.len() {
            return Err(XmlDeError::Eof);
        }
        assert(evs[p as int] == events[p as int]@);
        match events[p].kind {
            EventKind::Start => {
                depth = depth + 1;
            },
            EventKind::End => {
                if depth == 0 {
                    return Ok(p + 1);
                }
                depth = depth - 1;
            },
            EventKind::Eof => {
                return Err(XmlDeError::Eof);
            },
            EventKind::Malformed => {
                return Err(XmlDeError::Malformed);
            },
            _ => {},
        }
        p = p + 1;
    }
}

fn same_namespace(asked: &Option<String>, bound: &Option<String>) -> (same: bool)
    ensures
        same == (crate::store::option_view(*asked) is None || crate::store::option_view(*asked)
            == crate::store::option_view(*bound)),
{
    match asked {
        None => true,
        Some(ns) => match bound {
            Some(b) => str_eq(ns.as_str(), b.as_str()),
            None => false,
        },
    }
}

/// A first match among fields stays the first as more fields are looked at.
pub proof fn lemma_tag_field_stays(fields: Seq<FieldModel>, event: EventModel, n: nat, m: nat)
    requires
        n <= m,
        tag_field(fields, event, n) is Some,
    ensures
        tag_field(fields, event, m) == tag_field(fields, event, n),
    decreases m,
{
    if n < m {
        lemma_tag_field_stays(fields, event, n, (m - 1) as nat);
    }
}

pub proof fn lemma_kind_field_stays(fields: Seq<FieldModel>, ty: FieldType, n: nat, m: nat)
    requires
        n <= m,
        kind_field(fields, ty, n) is Some,
    ensures
        kind_field(fields, ty, m) == kind_field(fields, ty, n),
    decreases m,
{
    if n < m {
        lemma_kind_field_stays(fields, ty, n, (m - 1) as nat);
    }
}

pub proof fn lemma_attr_field_stays(fields: Seq<FieldModel>, key: Seq<char>, n: nat, m: nat)
    requires
        n <= m,
        attr_field(fields, key, n) is Some,
    ensures
        attr_field(fields, key, m) == attr_field(fields, key, n),
    decreases m,
{
    if n < m {
        lemma_attr_field_stays(fields, key, n, (m - 1) as nat);
    }
}

pub proof fn lemma_named_variant_stays(
    variants: Seq<VariantModel>,
    event: EventModel,
    n: nat,
    m: nat,
)
    requires
        n <= m,
        named_variant(variants, event, n) is Some,
    ensures
        named_variant(variants, event, m) == named_variant(variants, event, n),
    decreases m,
{
    if n < m {
        lemma_named_variant_stays(variants, event, n, (m - 1) as nat);
    }
}

pub proof fn lemma_other_variant_stays(variants: Seq<VariantModel>, n: nat, m: nat)
    requires
        n <= m,
        other_variant(variants, n) is Some,
    ensures
        other_variant(variants, m) == other_variant(variants, n),
    decreases m,
{
    if n < m {
        lemma_other_variant_stays(variants, n, (m - 1) as nat);
    }
}

impl NamedStruct {
    /// The field that a child element goes to.
    pub fn field_of(&self, event: &XmlEvent) -> (field: Option<usize>)
        ensures
            match field_for(self@.fields, event@) {
                Some(f) => field == Some(f as usize) && 0 <= f < self.fields.len() && (
                self@.fields[f].ty == FieldType::Tag || self@.fields[f].ty == FieldType::Untagged),
                None => field is None,
            },
    {
        let ghost fields = self@.fields;
        let mut i: usize = 0;
        while i < self.fields.len()
            invariant
                i <= self.fields.len(),
                fields == self@.fields,
                tag_field(fields, event@, i as nat) is None,
            decreases self.fields.len() - i,
        {
            let field = &self.fields[i];
            assert(fields[i as int] == field@);
            if matches!(field.ty, FieldType::Tag) && str_eq(
                field.name.as_str(),
                event.local_name.as_str(),
            ) && same_namespace(&field.ns, &event.namespace) {
                proof {
                    lemma_tag_field_stays(fields, event@, (i + 1) as nat, fields.len());
                }
                return Some(i);
            }
            i = i + 1;
        }
        let mut i: usize = 0;
        while i < self.fields.len()
            invariant
                i <= self.fields.len(),
                fields == self@.fields,
                tag_field(fields, event@, fields.len()) is None,
                kind_field(fields, FieldType::Untagged, i as nat) is None,
            decreases self.fields.len() - i,
        {
            assert(fields[i as int] == self.fields[i as int]@);
            if matches!(self.fields[i].ty, FieldType::Untagged) {
                proof {
                    lemma_kind_field_stays(
                        fields,
                        FieldType::Untagged,
                        (i + 1) as nat,
                        fields.len(),
                    );
                }
                return Some(i);
            }
            i = i + 1;
        }
        None
    }

    /// The field that an attribute goes to.
    pub fn attr_field_of(&self, key: &str) -> (field: Option<usize>)
        ensures
            match attr_field(self@.fields, key@, self@.fields.len()) {
                Some(f) => field == Some(f as usize) && 0 <= f < self.fields.len(),
                None => field is None,
            },
    {
        let ghost fields = self@.fields;
        let mut i: usize = 0;
        while i < self.fields.len()
            invariant
                i <= self.fields.len(),
                fields == self@.fields,
                attr_field(fields, key@, i as nat) is None,
            decreases self.fields.len() - i,
        {
            let field = &self.fields[i];
            assert(fields[i as int] == field@);
            if matches!(field.ty, FieldType::Attr) && str_eq(field.name.as_str(), key) {
                proof {
                    lemma_attr_field_stays(fields, key@, (i + 1) as nat, fields.len());
                }
                return Some(i);
            }
            i = i + 1;
        }
        None
    }

    /// Adds one entry with a run of character content for each field that
    /// is the text of the struct.
    fn push_text_entries(&self, text: &str, entries: &mut Vec<Entry>)
        ensures
            XmlValue::models(final(entries)@) == XmlValue::models(old(entries)@) + text_entries(
                self@.fields,
                text@,
                self@.fields.len(),
            ),
    {
        let ghost fields = self@.fields;
        let ghost before = XmlValue::models(entries@);
        let mut i: usize = 0;
        assert(before + text_entries(fields, text@, 0) =~= before);
        while i < self.fields.len()
            invariant
                i <= self.fields.len(),
                fields == self@.fields,
                XmlValue::models(entries@) == before + text_entries(fields, text@, i as nat),
            decreases self.fields.len() - i,
        {
            assert(fields[i as int] == self.fields[i as int]@);
            if matches!(self.fields[i].ty, FieldType::Text) {
                let entry = Entry { field: i, value: XmlValue::Text(text.to_owned()) };
                proof {
                    XmlValue::lemma_models_push(entries@, entry);
                }
                entries.push(entry);
                assert(XmlValue::models(entries@) =~= before + text_entries(
                    fields,
                    text@,
                    (i + 1) as nat,
                ));
            }
            i = i + 1;
        }
    }

    /// Reads the attributes of a start tag.
    fn read_attrs(&self, attributes: &Vec<XmlAttribute>) -> (read: Result<
        Vec<AttrEntry>,
        XmlDeError,
    >)
        ensures
            match decode_attrs(
                self@,
                attributes@.map_values(|a: XmlAttribute| a@),
                attributes.len() as nat,
            ) {
                Ok(list) => read matches Ok(entries) && attr_views(entries@) == list,
                Err(e) => read matches Err(x) && x == e,
            },
    {
        let ghost attrs = attributes@.map_values(|a: XmlAttribute| a@);
        let mut entries: Vec<AttrEntry> = Vec::new();
        let mut i: usize = 0;
        assert(attr_views(entries@) =~= seq![]);
        while i < attributes.len()
            invariant
                i <= attributes.len(),
                attrs == attributes@.map_values(|a: XmlAttribute| a@),
                decode_attrs(self@, attrs, i as nat) == Ok::<Seq<AttrEntryModel>, XmlDeError>(
                    attr_views(entries@),
                ),
            decreases attributes.len() - i,
        {
            let attribute = &attributes[i];
            assert(attrs[i as int] == attribute@);
            let ghost before = attr_views(entries@);
            if !declares_namespace(attribute.key.as_str()) {
                match self.attr_field_of(attribute.key.as_str()) {
                    Some(f) => {
                        let entry = AttrEntry { field: f, value: attribute.value.clone() };
                        entries.push(entry);
                        assert(attr_views(entries@) =~= before.push(entry@));
                    },
                    None => {
                        if !self.attrs.allow_invalid {
                            proof {
                                lemma_attrs_failure_stays(
                                    self@,
                                    attrs,
                                    (i + 1) as nat,
                                    attrs.len(),
                                );
                            }
                            return Err(XmlDeError::InvalidFieldName);
                        }
                    },
                }
            }
            i = i + 1;
        }
        Ok(entries)
    }

    /// Whether a required field does not occur.
    fn has_missing(&self, attributes: &Vec<AttrEntry>, content: &Vec<Entry>) -> (missing: bool)
        ensures
            missing == missing_required(
                self@.fields,
                attr_views(attributes@),
                XmlValue::models(content@),
                self@.fields.len(),
            ),
    {
        let ghost fields = self@.fields;
        let ghost list = XmlValue::models(content@);
        let ghost attrs = attr_views(attributes@);
        proof {
            XmlValue::lemma_models(content@);
        }
        let mut i: usize = 0;
        while i < self.fields.len()
            invariant
                i <= self.fields.len(),
                fields == self@.fields,
                list == XmlValue::models(content@),
                attrs == attr_views(attributes@),
                list.len() == content.len(),
                forall|k: int| 0 <= k < content.len() ==> (#[trigger] list[k]).field == content[k].field,
                !missing_required(fields, attrs, list, i as nat),
            decreases self.fields.len() - i,
        {
            assert(fields[i as int] == self.fields[i as int]@);
            if self.fields[i].required {
                let found = match self.fields[i].ty {
                    FieldType::TagName => true,
                    FieldType::Attr => {
                        let mut found = false;
                        let mut k: usize = 0;
                        while k < attributes.len()
                            invariant
                                k <= attributes.len(),
                                attrs == attr_views(attributes@),
                                found == exists|j: int|
                                    0 <= j < k && (#[trigger] attrs[j]).field == i,
                            decreases attributes.len() - k,
                        {
                            assert(attrs[k as int] == attributes[k as int]@);
                            if attributes[k].field == i {
                                found = true;
                            }
                            k = k + 1;
                        }
                        found
                    },
                    _ => {
                        let mut found = false;
                        let mut k: usize = 0;
                        while k < content.len()
                            invariant
                                k <= content.len(),
                                list.len() == content.len(),
                                forall|j: int|
                                    0 <= j < content.len() ==> (#[trigger] list[j]).field
                                        == content[j].field,
                                found == exists|j: int|
                                    0 <= j < k && (#[trigger] list[j]).field == i,
                            decreases content.len() - k,
                        {
                            if content[k].field == i {
                                assert(list[k as int].field == i);
                                found = true;
                            }
                            k = k + 1;
                        }
                        found
                    },
                };
                if !found {
                    proof {
                        lemma_missing_stays(fields, attrs, list, (i + 1) as nat, fields.len());
                    }
                    return true;
                }
            }
            i = i + 1;
        }
        false
    }
}

/// Whether an attribute declares a namespace.
pub fn declares_namespace(key: &str) -> (declares: bool)
    ensures
        declares == is_xmlns(key@),
{
    if str_eq(key, "xmlns") {
        return true;
    }
    let n = key.unicode_len();
    if n < 6 {
        return false;
    }
    let head = key.substring_char(0, 6);
    assert(head@ =~= key@.take(6));
    str_eq(head, "xmlns:")
}

/// Once reading attributes has failed, further attributes change nothing.
pub proof fn lemma_attrs_failure_stays(
    s: StructModel,
    attributes: Seq<AttributeModel>,
    n: nat,
    m: nat,
)
    requires
        n <= m,
        decode_attrs(s, attributes, n) is Err,
    ensures
        decode_attrs(s, attributes, m) == decode_attrs(s, attributes, n),
    decreases m,
{
    if n < m {
        lemma_attrs_failure_stays(s, attributes, n, (m - 1) as nat);
    }
}

/// A required field found missing stays missing.
pub proof fn lemma_missing_stays(
    fields: Seq<FieldModel>,
    attributes: Seq<AttrEntryModel>,
    content: Seq<EntryModel>,
    n: nat,
    m: nat,
)
    requires
        n <= m,
        missing_required(fields, attributes, content, n),
    ensures
        missing_required(fields, attributes, content, m),
    decreases m,
{
    if n < m {
        lemma_missing_stays(fields, attributes, content, n, (m - 1) as nat);
    }
}

/// The variant that an element is.
pub fn variant_of(variants: &Vec<Variant>, event: &XmlEvent) -> (variant: Option<usize>)
    ensures
        match pick_variant(variants@.map_values(|v: Variant| v@), event@) {
            Some(i) => variant == Some(i as usize) && 0 <= i < variants.len(),
            None => variant is None,
        },
{
    let ghost list = variants@.map_values(|v: Variant| v@);
    let mut i: usize = 0;
    while i < variants.len()
        invariant
            i <= variants.len(),
            list == variants@.map_values(|v: Variant| v@),
            named_variant(list, event@, i as nat) is None,
        decreases variants.len() - i,
    {
        let variant = &variants[i];
        assert(list[i as int] == variant@);
        if !variant.other && str_eq(variant.name.as_str(), event.local_name.as_str())
            && same_namespace(&variant.ns, &event.namespace) {
            proof {
                lemma_named_variant_stays(list, event@, (i + 1) as nat, list.len());
            }
            return Some(i);
        }
        i = i + 1;
    }
    let mut i: usize = 0;
    while i < variants.len()
        invariant
            i <= variants.len(),
            list == variants@.map_values(|v: Variant| v@),
            named_variant(list, event@, list.len()) is None,
            other_variant(list, i as nat) is None,
        decreases variants.len() - i,
    {
        assert(list[i as int] == variants[i as int]@);
        if variants[i].other {
            proof {
                lemma_other_variant_stays(list, (i + 1) as nat, list.len());
            }
            return Some(i);
        }
        i = i + 1;
    }
    None
}

impl Schema {
    /// Decodes the element that opens at `at` as the type `ty` of the
    /// table: its value, and the position after the element.
    pub fn decode(&self, ty: usize, events: &Vec<XmlEvent>, at: usize) -> (read: Result<
        (XmlValue, usize),
        XmlDeError,
    >)
        requires
            schema_wf(self@),
        ensures
            decoded_as(read, decode(self@, ty as int, event_views(events@), at as int)),
            read matches Ok((_, next)) ==> at < next <= events.len(),
        decreases events.len() - at, 2int,
    {
        let ghost evs = event_views(events@);
        if at >= events.len() {
            return Err(XmlDeError::UnsupportedEvent);
        }
        assert(evs[at as int] == events[at as int]@);
        if !matches!(events[at].kind, EventKind::Start | EventKind::Empty) {
            return Err(XmlDeError::UnsupportedEvent);
        }
        if ty >= self.types.len() {
            return Err(XmlDeError::InvalidVariant);
        }
        assert(self@[ty as int] == self.types[ty as int]@);
        match &self.types[ty] {
            TypeDef::Enum(e) => {
                let ghost variants = e.variants@.map_values(|v: Variant| v@);
                match variant_of(&e.variants, &events[at]) {
                    None => Err(XmlDeError::InvalidVariant),
                    Some(i) => {
                        assert(variants[i as int] == e.variants[i as int]@);
                        match self.decode_plain(e.variants[i].shape, events, at) {
                            Ok((value, next)) => Ok((XmlValue::Variant(i, Box::new(value)), next)),
                            Err(e) => Err(e),
                        }
                    },
                }
            },
            _ => self.decode_plain(ty, events, at),
        }
    }

    /// The same for a type that is no enum.
    pub fn decode_plain(&self, ty: usize, events: &Vec<XmlEvent>, at: usize) -> (read: Result<
        (XmlValue, usize),
        XmlDeError,
    >)
        requires
            schema_wf(self@),
        ensures
            decoded_as(read, decode_plain(self@, ty as int, event_views(events@), at as int)),
            read matches Ok((_, next)) ==> at < next <= events.len(),
        decreases events.len() - at, 1int,
    {
        let ghost evs = event_views(events@);
        if at >= events.len() {
            return Err(XmlDeError::UnsupportedEvent);
        }
        assert(evs[at as int] == events[at as int]@);
        if !matches!(events[at].kind, EventKind::Start | EventKind::Empty) {
            return Err(XmlDeError::UnsupportedEvent);
        }
        if ty >= self.types.len() {
            return Err(XmlDeError::InvalidVariant);
        }
        assert(self@[ty as int] == self.types[ty as int]@);
        match &self.types[ty] {
            TypeDef::Text(primitive) => read_text(*primitive, events, at),
            TypeDef::Any => match skip(events, at) {
                Ok(next) => Ok((XmlValue::Nothing, next)),
                Err(e) => Err(e),
            },
            TypeDef::Struct(s) => s.impl_de(self, events, at),
            TypeDef::Enum(_) => Err(XmlDeError::InvalidVariant),
        }
    }
}

impl NamedStruct {
    fn finish(&self, name: String, attributes: Vec<AttrEntry>, content: Vec<Entry>, next: usize) -> (read:
        Result<(XmlValue, usize), XmlDeError>)
        ensures
            decoded_as(
                read,
                finish_struct(
                    self@,
                    name@,
                    attr_views(attributes@),
                    XmlValue::models(content@),
                    next as int,
                ),
            ),
    {
        proof {
            XmlValue::lemma_models(content@);
        }
        let content = sort_entries(content);
        if self.has_missing(&attributes, &content) {
            Err(XmlDeError::MissingField)
        } else {
            Ok((XmlValue::structure(name, attributes, content), next))
        }
    }

    /// Decodes the element that opens at `at` as this struct, whose fields
    /// name their types in the table `schema`.
    pub fn impl_de(&self, schema: &Schema, events: &Vec<XmlEvent>, at: usize) -> (read: Result<
        (XmlValue, usize),
        XmlDeError,
    >)
        requires
            schema_wf(schema@),
            struct_wf(schema@, self@),
        ensures
            decoded_as(read, decode_struct(schema@, self@, event_views(events@), at as int)),
            read matches Ok((_, next)) ==> at < next <= events.len(),
        decreases events.len() - at, 0int,
    {
        let ghost evs = event_views(events@);
        if at >= events.len() {
            return Err(XmlDeError::UnsupportedEvent);
        }
        let start = &events[at];
        assert(evs[at as int] == start@);
        if !matches!(start.kind, EventKind::Start | EventKind::Empty) {
            return Err(XmlDeError::UnsupportedEvent);
        }
        let attributes = match self.read_attrs(&start.attributes) {
            Ok(attributes) => attributes,
            Err(e) => {
                return Err(e);
            },
        };
        let mut entries: Vec<Entry> = Vec::new();
        assert(XmlValue::models(entries@) =~= seq![]);
        if matches!(start.kind, EventKind::Empty) {
            return self.finish(start.local_name.clone(), attributes, entries, at + 1);
        }
        let ghost first = XmlValue::models(entries@);
        let mut p: usize = at + 1;
        loop
            invariant
                at < p <= events.len(),
                schema_wf(schema@),
                struct_wf(schema@, self@),
                evs == event_views(events@),
                0 <= at < evs.len(),
                evs[at as int] == start@,
                decode_children(
                    schema@,
                    self@,
                    start@.name,
                    evs,
                    p as int,
                    XmlValue::models(entries@),
                ) == decode_children(schema@, self@, start@.name, evs, at + 1, first),
                first == Seq::<EntryModel>::empty(),
                decode_attrs(self@, start@.attributes, start@.attributes.len()) == Ok::<
                    Seq<AttrEntryModel>,
                    XmlDeError,
                >(attr_views(attributes@)),
                start@.kind != EventKind::Empty,
                start@.opens(),
            decreases events.len() - p,
        {
            if p >= events.len() {
                return Err(XmlDeError::Eof);
            }
            let event = &events[p];
            assert(evs[p as int] == event@);
            match event.kind {
                EventKind::Eof => {
                    return Err(XmlDeError::Eof);
                },
                EventKind::Malformed => {
                    return Err(XmlDeError::Malformed);
                },
                EventKind::End => {
                    if str_eq(event.name.as_str(), start.name.as_str()) {
                        return self.finish(start.local_name.clone(), attributes, entries, p + 1);
                    }
                    // The closing tag of some other element.
                    return Err(XmlDeError::UnexpectedClosingTag);
                },
                // The start of a child element.
                EventKind::Start | EventKind::Empty => {
                    match self.field_of(event) {
                        Some(f) => {
                            assert(self@.fields[f as int] == self.fields[f as int]@);
                            match schema.decode(self.fields[f].shape, events, p) {
                                Ok((value, next)) => {
                                    let entry = Entry { field: f, value };
                                    proof {
                                        XmlValue::lemma_models_push(entries@, entry);
                                    }
                                    entries.push(entry);
                                    p = next;
                                },
                                Err(e) => {
                                    return Err(e);
                                },
                            }
                        },
                        None => {
                            if !self.attrs.allow_invalid {
                                return Err(XmlDeError::InvalidFieldName);
                            }
                            match skip(events, p) {
                                Ok(next) => {
                                    p = next;
                                },
                                Err(e) => {
                                    return Err(e);
                                },
                            }
                        },
                    }
                },
                EventKind::Text => {
                    self.push_text_entries(event.content.as_str(), &mut entries);
                    p = p + 1;
                },
                EventKind::CData => {
                    return Err(XmlDeError::UnsupportedCData);
                },
                EventKind::Comment => {
                    p = p + 1;
                },
                EventKind::Decl => {
                    return Err(XmlDeError::UnsupportedDeclaration);
                },
                EventKind::PI => {
                    return Err(XmlDeError::UnsupportedProcessingInstruction);
                },
                EventKind::DocType => {
                    return Err(XmlDeError::UnsupportedDoctype);
                },
            }
        }
    }
}

} // verus!
