//! Encoding: from a value to the events of an element, by a schema.
//!
//! An element is written as a start tag, its content in the order of the
//! value's entries, and an end tag; an element without content is written
//! as an empty tag.

use vstd::prelude::*;
use vstd::string::StrSliceExecFns;
use crate::store::option_view;
use crate::xml::de::kind_field;
use crate::xml::dynamic::{
    attr_views, AttrEntry, AttrEntryModel, Entry, EntryModel, ValueModel, XmlValue,
};
use crate::xml::event::{AttributeModel, event_views, EventKind, EventModel, XmlAttribute, XmlEvent};
use crate::xml::schema::{
    Field, FieldModel, FieldType, NamedStruct, Schema, StructModel, TypeDef, TypeModel, Variant,
    VariantModel,
};

verus! {

/// The name of an element: as written, without its prefix, and the
/// namespace it is bound to.
#[derive(Debug)]
pub struct Tag {
    pub name: String,
    pub local_name: String,
    pub namespace: Option<String>,
}

pub struct TagModel {
    pub name: Seq<char>,
    pub local_name: Seq<char>,
    pub namespace: Option<Seq<char>>,
}

impl View for Tag {
    type V = TagModel;

    open spec fn view(&self) -> TagModel {
        TagModel {
            name: self.name@,
            local_name: self.local_name@,
            namespace: option_view(self.namespace),
        }
    }
}

/// Why a value cannot be encoded: it is not a value of the schema's type.
#[derive(Clone, Copy, Debug, PartialEq, Eq, Structural)]
pub enum XmlSeError {
    Mismatch,
}

/// The event that opens an element.
pub open spec fn open_event(kind: EventKind, tag: TagModel, attributes: Seq<AttributeModel>) -> EventModel {
    EventModel {
        kind,
        name: tag.name,
        local_name: tag.local_name,
        namespace: tag.namespace,
        attributes,
        content: seq![],
    }
}

/// The events of an element with the given attributes and content.
pub open spec fn element(tag: TagModel, attributes: Seq<AttributeModel>, body: Seq<EventModel>) -> Seq<
    EventModel,
> {
    if body.len() == 0 {
        seq![open_event(EventKind::Empty, tag, attributes)]
    } else {
        seq![open_event(EventKind::Start, tag, attributes)] + body + seq![
            EventModel::end(tag.name, tag.local_name, tag.namespace),
        ]
    }
}

/// The tag that a field's child element is written with.
pub open spec fn field_tag(field: FieldModel) -> TagModel {
    TagModel { name: field.tag, local_name: field.name, namespace: field.ns }
}

/// The tag that a variant's element is written with.
pub open spec fn variant_tag(variant: VariantModel) -> TagModel {
    TagModel { name: variant.tag, local_name: variant.name, namespace: variant.ns }
}

/// The tag that a struct is written with where none is given: its own
/// name, if it has a field for it.
pub open spec fn own_tag(s: StructModel, name: Seq<char>) -> Option<TagModel> {
    match kind_field(s.fields, FieldType::TagName, s.fields.len()) {
        Some(_) => Some(TagModel { name, local_name: name, namespace: None }),
        None => None,
    }
}

/// The attributes that the first `n` attribute entries of a struct are
/// written as; `None` where an entry is no attribute of the struct.
pub open spec fn attr_list(s: StructModel, entries: Seq<AttrEntryModel>, n: nat) -> Option<
    Seq<AttributeModel>,
>
    decreases n,
{
    if n == 0 {
        Some(seq![])
    } else {
        match attr_list(s, entries, (n - 1) as nat) {
            None => None,
            Some(list) => {
                let entry = entries[n - 1];
                if 0 <= entry.field < s.fields.len() && s.fields[entry.field].ty
                    == FieldType::Attr {
                    Some(
                        list.push(
                            AttributeModel { key: s.fields[entry.field].name, value: entry.value },
                        ),
                    )
                } else {
                    None
                }
            },
        }
    }
}

/// The events of a value of the type `ty`. With `tag` the element's tag;
/// without, the tag is the value's own.
pub open spec fn encode(
    types: Seq<TypeModel>,
    ty: int,
    value: ValueModel,
    tag: Option<TagModel>,
) -> Option<Seq<EventModel>>
    decreases value, 2int,
{
    if !(0 <= ty < types.len()) {
        None
    } else {
        match types[ty] {
            TypeModel::Enum(variants) => match value {
                ValueModel::Variant(i, payload) => if 0 <= i < variants.len() {
                    encode_plain(
                        types,
                        variants[i].shape,
                        *payload,
                        if variants[i].other {
                            None
                        } else {
                            Some(variant_tag(variants[i]))
                        },
                    )
                } else {
                    None
                },
                _ => None,
            },
            _ => encode_plain(types, ty, value, tag),
        }
    }
}

/// The same for a type that is no enum.
pub open spec fn encode_plain(
    types: Seq<TypeModel>,
    ty: int,
    value: ValueModel,
    tag: Option<TagModel>,
) -> Option<Seq<EventModel>>
    decreases value, 1int,
{
    if !(0 <= ty < types.len()) {
        None
    } else {
        match types[ty] {
            TypeModel::Text(_) => match (value, tag) {
                (ValueModel::Text(text), Some(t)) => Some(
                    element(
                        t,
                        seq![],
                        if text.len() == 0 {
                            seq![]
                        } else {
                            seq![EventModel::text(text)]
                        },
                    ),
                ),
                _ => None,
            },
            TypeModel::Any => match (value, tag) {
                (ValueModel::Nothing, Some(t)) => Some(element(t, seq![], seq![])),
                _ => None,
            },
            TypeModel::Struct(s) => encode_struct(types, s, value, tag),
            TypeModel::Enum(_) => None,
        }
    }
}

/// Whether each of the first `n` entries belongs to a field of the struct.
pub open spec fn entries_fit(s: StructModel, entries: Seq<EntryModel>, n: nat) -> bool
    decreases n,
{
    n == 0 || (n <= entries.len() && entries_fit(s, entries, (n - 1) as nat) && 0
        <= entries[n - 1].field < s.fields.len())
}

/// A struct: an element with its attributes and its content, field by
/// field in the order of the struct's fields. Where no tag is given and the
/// struct has no name of its own, the content is written bare: there is no
/// element for the attributes to stand in.
pub open spec fn encode_struct(
    types: Seq<TypeModel>,
    s: StructModel,
    value: ValueModel,
    tag: Option<TagModel>,
) -> Option<Seq<EventModel>>
    decreases value, 0int,
{
    match value {
        ValueModel::Struct { name, attributes, content } => {
            let named = match tag {
                Some(t) => Some(t),
                None => own_tag(s, name),
            };
            if !entries_fit(s, content, content.len()) {
                None
            } else {
                match (named, attr_list(s, attributes, attributes.len()), encode_content(
                    types,
                    s,
                    content,
                    s.fields.len(),
                )) {
                    (Some(t), Some(attrs), Some(body)) => Some(element(t, attrs, body)),
                    (None, Some(_), Some(body)) => Some(body),
                    _ => None,
                }
            }
        },
        _ => None,
    }
}

/// What one entry of the content of a struct is written as: a child as its
/// element, a text as a text event.
pub open spec fn encode_entry(types: Seq<TypeModel>, s: StructModel, entry: EntryModel) -> Option<
    Seq<EventModel>,
>
    decreases entry, 3int,
{
    if !(0 <= entry.field < s.fields.len()) {
        None
    } else {
        let field = s.fields[entry.field];
        match field.ty {
            FieldType::Tag => encode(types, field.shape, entry.value, Some(field_tag(field))),
            FieldType::Untagged => encode(types, field.shape, entry.value, None),
            FieldType::Text => match entry.value {
                ValueModel::Text(text) => Some(seq![EventModel::text(text)]),
                _ => None,
            },
            _ => None,
        }
    }
}

/// What the entries of one field among the first `n` entries are written
/// as, in their order.
pub open spec fn encode_field(
    types: Seq<TypeModel>,
    s: StructModel,
    entries: Seq<EntryModel>,
    field: int,
    n: nat,
) -> Option<Seq<EventModel>>
    decreases entries, 0int, n,
{
    if n == 0 || n > entries.len() {
        Some(seq![])
    } else {
        match encode_field(types, s, entries, field, (n - 1) as nat) {
            None => None,
            Some(before) => if entries[n - 1].field == field {
                match encode_entry(types, s, entries[n - 1]) {
                    Some(events) => Some(before + events),
                    None => None,
                }
            } else {
                Some(before)
            },
        }
    }
}

/// What the content of a struct is written as: the entries of the first
/// `f` fields, field by field.
pub open spec fn encode_content(
    types: Seq<TypeModel>,
    s: StructModel,
    entries: Seq<EntryModel>,
    f: nat,
) -> Option<Seq<EventModel>>
    decreases entries, 1int, f,
{
    if f == 0 {
        Some(seq![])
    } else {
        match (
            encode_content(types, s, entries, (f - 1) as nat),
            encode_field(types, s, entries, f - 1, entries.len()),
        ) {
            (Some(before), Some(events)) => Some(before + events),
            _ => None,
        }
    }
}

/// Whether what a function returned is what the model of it gives.
pub open spec fn encoded_as(
    returned: Result<Vec<XmlEvent>, XmlSeError>,
    specified: Option<Seq<EventModel>>,
) -> bool {
    match specified {
        Some(events) => returned matches Ok(list) && event_views(list@) == events,
        None => returned is Err,
    }
}

fn clone_namespace(namespace: &Option<String>) -> (copy: Option<String>)
    ensures
        option_view(copy) == option_view(*namespace),
{
    match namespace {
        Some(n) => Some(n.clone()),
        None => None,
    }
}

/// The events of an element.
pub fn make_element(tag: &Tag, attributes: Vec<XmlAttribute>, body: Vec<XmlEvent>) -> (events: Vec<
    XmlEvent,
>)
    ensures
        event_views(events@) == element(
            tag@,
            attributes@.map_values(|a: XmlAttribute| a@),
            event_views(body@),
        ),
{
    let mut events: Vec<XmlEvent> = Vec::new();
    let empty = body.len() == 0;
    let open = XmlEvent {
        kind: if empty {
            EventKind::Empty
        } else {
            EventKind::Start
        },
        name: tag.name.clone(),
        local_name: tag.local_name.clone(),
        namespace: clone_namespace(&tag.namespace),
        attributes,
        content: String::new(),
    };
    events.push(open);
    if !empty {
        let mut body = body;
        let ghost inner = event_views(body@);
        events.append(&mut body);
        let close = XmlEvent::end(
            tag.name.clone(),
            tag.local_name.clone(),
            clone_namespace(&tag.namespace),
        );
        events.push(close);
        assert(event_views(events@) =~= seq![open@] + inner + seq![close@]);
    } else {
        assert(event_views(events@) =~= seq![open@]);
    }
    events
}

fn tag_of_field(field: &Field) -> (tag: Tag)
    ensures
        tag@ == field_tag(field@),
{
    Tag {
        name: field.tag.clone(),
        local_name: field.name.clone(),
        namespace: clone_namespace(&field.ns),
    }
}

fn tag_of_variant(variant: &Variant) -> (tag: Tag)
    ensures
        tag@ == variant_tag(variant@),
{
    Tag {
        name: variant.tag.clone(),
        local_name: variant.name.clone(),
        namespace: clone_namespace(&variant.ns),
    }
}

impl NamedStruct {
    /// The first field of a kind.
    pub fn first_of_kind(&self, ty: FieldType) -> (field: Option<usize>)
        ensures
            match kind_field(self@.fields, ty, self@.fields.len()) {
                Some(f) => field == Some(f as usize) && 0 <= f < self.fields.len(),
                None => field is None,
            },
    {
        let ghost fields = self@.fields;
        let mut i: usize = 0;
        while i < self.fields.len()
            invariant
                i <= self.fields.len(),
                fields == self@.fields,
                kind_field(fields, ty, i as nat) is None,
            decreases self.fields.len() - i,
        {
            assert(fields[i as int] == self.fields[i as int]@);
            if self.fields[i].ty == ty {
                proof {
                    crate::xml::de::lemma_kind_field_stays(fields, ty, (i + 1) as nat, fields.len());
                }
                return Some(i);
            }
            i = i + 1;
        }
        None
    }

    fn own_tag_of(&self, name: &str) -> (tag: Option<Tag>)
        ensures
            match own_tag(self@, name@) {
                Some(t) => tag matches Some(x) && x@ == t,
                None => tag is None,
            },
    {
        match self.first_of_kind(FieldType::TagName) {
            Some(_) => Some(
                Tag { name: name.to_owned(), local_name: name.to_owned(), namespace: None },
            ),
            None => None,
        }
    }

    fn attributes_of(&self, entries: &Vec<AttrEntry>) -> (attributes: Option<Vec<XmlAttribute>>)
        ensures
            match attr_list(self@, attr_views(entries@), entries.len() as nat) {
                Some(list) => attributes matches Some(a) && a@.map_values(|x: XmlAttribute| x@)
                    == list,
                None => attributes is None,
            },
    {
        let ghost models = attr_views(entries@);
        let mut attributes: Vec<XmlAttribute> = Vec::new();
        let mut i: usize = 0;
        assert(attributes@.map_values(|x: XmlAttribute| x@) =~= seq![]);
        while i < entries.len()
            invariant
                i <= entries.len(),
                models == attr_views(entries@),
                attr_list(self@, models, i as nat) == Some(
                    attributes@.map_values(|x: XmlAttribute| x@),
                ),
            decreases entries.len() - i,
        {
            let entry = &entries[i];
            let ghost before = attributes@.map_values(|x: XmlAttribute| x@);
            assert(models[i as int] == entry@);
            if entry.field >= self.fields.len() {
                proof {
                    lemma_attr_list_failure_stays(self@, models, (i + 1) as nat, models.len());
                }
                return None;
            }
            assert(self@.fields[entry.field as int] == self.fields[entry.field as int]@);
            if !matches!(self.fields[entry.field].ty, FieldType::Attr) {
                proof {
                    lemma_attr_list_failure_stays(self@, models, (i + 1) as nat, models.len());
                }
                return None;
            }
            let attribute = XmlAttribute {
                key: self.fields[entry.field].name.clone(),
                value: entry.value.clone(),
            };
            attributes.push(attribute);
            assert(attributes@.map_values(|x: XmlAttribute| x@) =~= before.push(attribute@));
            i = i + 1;
        }
        Some(attributes)
    }

    /// Encodes one entry of the content of a value of this struct.
    fn encode_one(&self, schema: &Schema, entry: &Entry) -> (events: Result<
        Vec<XmlEvent>,
        XmlSeError,
    >)
        ensures
            encoded_as(events, encode_entry(schema@, self@, entry@)),
        decreases entry, 3int,
    {
        if entry.field >= self.fields.len() {
            return Err(XmlSeError::Mismatch);
        }
        let field = &self.fields[entry.field];
        assert(self@.fields[entry.field as int] == field@);
        match field.ty {
            FieldType::Tag => {
                let tag = tag_of_field(field);
                schema.encode(field.shape, &entry.value, Some(&tag))
            },
            FieldType::Untagged => schema.encode(field.shape, &entry.value, None),
            FieldType::Text => match &entry.value {
                XmlValue::Text(text) => {
                    let mut events: Vec<XmlEvent> = Vec::new();
                    let event = XmlEvent::text(text.clone());
                    events.push(event);
                    assert(event_views(events@) =~= seq![EventModel::text(text@)]);
                    Ok(events)
                },
                _ => Err(XmlSeError::Mismatch),
            },
            _ => Err(XmlSeError::Mismatch),
        }
    }

    /// Encodes a value of this struct, whose fields name their types in the
    /// table `schema`. With `tag` the element's tag; without, the tag is the
    /// struct's own name, and a struct that has none is written as its
    /// content alone.
    pub fn impl_se(&self, schema: &Schema, value: &XmlValue, tag: Option<&Tag>) -> (events: Result<
        Vec<XmlEvent>,
        XmlSeError,
    >)
        ensures
            encoded_as(
                events,
                encode_struct(
                    schema@,
                    self@,
                    value@,
                    match tag {
                        Some(t) => Some(t@),
                        None => None,
                    },
                ),
            ),
        decreases value, 0int,
    {
        let inner = match value {
            XmlValue::Struct(inner) => inner,
            _ => {
                return Err(XmlSeError::Mismatch);
            },
        };
        let entries = &inner.content;
        let ghost models = XmlValue::models(entries@);
        proof {
            XmlValue::lemma_models(entries@);
        }
        let own = match tag {
            Some(_) => None,
            None => self.own_tag_of(inner.name.as_str()),
        };
        let named: Option<&Tag> = match tag {
            Some(t) => Some(t),
            None => own.as_ref(),
        };
        let attributes = match self.attributes_of(&inner.attributes) {
            Some(attributes) => attributes,
            None => {
                return Err(XmlSeError::Mismatch);
            },
        };
        assert(value@.content() == models);
        let mut k: usize = 0;
        while k < entries.len()
            invariant
                k <= entries.len(),
                value@ is Struct,
                value@.content() == models,
                models == XmlValue::models(entries@),
                models.len() == entries.len(),
                forall|j: int| 0 <= j < entries.len() ==> (#[trigger] models[j]) == entries[j]@,
                entries_fit(self@, models, k as nat),
            decreases entries.len() - k,
        {
            assert(models[k as int] == entries[k as int]@);
            if entries[k].field >= self.fields.len() {
                proof {
                    lemma_misfit_stays(self@, models, (k + 1) as nat, models.len());
                }
                return Err(XmlSeError::Mismatch);
            }
            k = k + 1;
        }
        let mut body: Vec<XmlEvent> = Vec::new();
        let mut f: usize = 0;
        assert(event_views(body@) =~= seq![]);
        while f < self.fields.len()
            invariant
                f <= self.fields.len(),
                *value == XmlValue::Struct(*inner),
                entries == &inner.content,
                models == XmlValue::models(entries@),
                models.len() == entries.len(),
                forall|k: int| 0 <= k < entries.len() ==> (#[trigger] models[k]) == entries[k]@,
                encode_content(schema@, self@, models, f as nat) == Some(event_views(body@)),
            decreases self.fields.len() - f,
        {
            let ghost done = event_views(body@);
            let mut i: usize = 0;
            assert(done + Seq::<EventModel>::empty() =~= done);
            while i < entries.len()
                invariant
                    i <= entries.len(),
                    f < self.fields.len(),
                    *value == XmlValue::Struct(*inner),
                    entries == &inner.content,
                    models == XmlValue::models(entries@),
                    models.len() == entries.len(),
                    forall|k: int| 0 <= k < entries.len() ==> (#[trigger] models[k]) == entries[k]@,
                    encode_content(schema@, self@, models, f as nat) == Some(done),
                    encode_field(schema@, self@, models, f as int, i as nat) is Some,
                    event_views(body@) == done + encode_field(
                        schema@,
                        self@,
                        models,
                        f as int,
                        i as nat,
                    )->0,
                decreases entries.len() - i,
            {
                let entry = &entries[i];
                let ghost before = event_views(body@);
                let ghost so_far = encode_field(schema@, self@, models, f as int, i as nat)->0;
                assert(models[i as int] == entry@);
                if entry.field == f {
                    proof {
                        vstd::std_specs::vec::axiom_vec_index_decreases(inner.content, i as int);
                        assert(value->Struct_0 == *inner);
                        assert(decreases_to!(*value => value->Struct_0));
                        assert(decreases_to!(*inner => inner.content));
                        assert(decreases_to!(inner.content => inner.content[i as int]));
                    }
                    match self.encode_one(schema, entry) {
                        Ok(mut events) => {
                            let ghost added = event_views(events@);
                            body.append(&mut events);
                            assert(event_views(body@) =~= before + added);
                            assert(before + added =~= done + (so_far + added));
                        },
                        Err(e) => {
                            proof {
                                lemma_field_failure_stays(
                                    schema@,
                                    self@,
                                    models,
                                    f as int,
                                    (i + 1) as nat,
                                    models.len(),
                                );
                                lemma_content_failure_stays(
                                    schema@,
                                    self@,
                                    models,
                                    (f + 1) as nat,
                                    self@.fields.len(),
                                );
                            }
                            return Err(e);
                        },
                    }
                }
                i = i + 1;
            }
            f = f + 1;
        }
        match named {
            Some(t) => Ok(make_element(t, attributes, body)),
            None => Ok(body),
        }
    }
}

impl Schema {
    /// Encodes a value of the type `ty` of the table.
    pub fn encode(&self, ty: usize, value: &XmlValue, tag: Option<&Tag>) -> (events: Result<
        Vec<XmlEvent>,
        XmlSeError,
    >)
        ensures
            encoded_as(
                events,
                encode(
                    self@,
                    ty as int,
                    value@,
                    match tag {
                        Some(t) => Some(t@),
                        None => None,
                    },
                ),
            ),
        decreases value, 2int,
    {
        if ty >= self.types.len() {
            return Err(XmlSeError::Mismatch);
        }
        assert(self@[ty as int] == self.types[ty as int]@);
        match &self.types[ty] {
            TypeDef::Enum(e) => {
                let ghost variants = e.variants@.map_values(|v: Variant| v@);
                match value {
                    XmlValue::Variant(i, payload) => {
                        if *i >= e.variants.len() {
                            return Err(XmlSeError::Mismatch);
                        }
                        let variant = &e.variants[*i];
                        assert(variants[*i as int] == variant@);
                        if variant.other {
                            self.encode_plain(variant.shape, payload, None)
                        } else {
                            let tag = tag_of_variant(variant);
                            self.encode_plain(variant.shape, payload, Some(&tag))
                        }
                    },
                    _ => Err(XmlSeError::Mismatch),
                }
            },
            _ => self.encode_plain(ty, value, tag),
        }
    }

    /// The same for a type that is no enum.
    pub fn encode_plain(&self, ty: usize, value: &XmlValue, tag: Option<&Tag>) -> (events: Result<
        Vec<XmlEvent>,
        XmlSeError,
    >)
        ensures
            encoded_as(
                events,
                encode_plain(
                    self@,
                    ty as int,
                    value@,
                    match tag {
                        Some(t) => Some(t@),
                        None => None,
                    },
                ),
            ),
        decreases value, 1int,
    {
        if ty >= self.types.len() {
            return Err(XmlSeError::Mismatch);
        }
        assert(self@[ty as int] == self.types[ty as int]@);
        match &self.types[ty] {
            TypeDef::Text(_) => match (value, tag) {
                (XmlValue::Text(text), Some(t)) => {
                    let mut body: Vec<XmlEvent> = Vec::new();
                    if text.as_str().unicode_len() > 0 {
                        body.push(XmlEvent::text(text.clone()));
                        assert(event_views(body@) =~= seq![EventModel::text(text@)]);
                    } else {
                        assert(event_views(body@) =~= seq![]);
                    }
                    let attributes: Vec<XmlAttribute> = Vec::new();
                    assert(attributes@.map_values(|a: XmlAttribute| a@) =~= seq![]);
                    Ok(make_element(t, attributes, body))
                },
                _ => Err(XmlSeError::Mismatch),
            },
            TypeDef::Any => match (value, tag) {
                (XmlValue::Nothing, Some(t)) => {
                    let body: Vec<XmlEvent> = Vec::new();
                    assert(event_views(body@) =~= seq![]);
                    let attributes: Vec<XmlAttribute> = Vec::new();
                    assert(attributes@.map_values(|a: XmlAttribute| a@) =~= seq![]);
                    Ok(make_element(t, attributes, body))
                },
                _ => Err(XmlSeError::Mismatch),
            },
            TypeDef::Struct(s) => s.impl_se(self, value, tag),
            TypeDef::Enum(_) => Err(XmlSeError::Mismatch),
        }
    }
}

/// Once attributes have failed, further entries change nothing.
pub proof fn lemma_attr_list_failure_stays(
    s: StructModel,
    entries: Seq<AttrEntryModel>,
    n: nat,
    m: nat,
)
    requires
        n <= m,
        attr_list(s, entries, n) is None,
    ensures
        attr_list(s, entries, m) is None,
    decreases m,
{
    if n < m {
        lemma_attr_list_failure_stays(s, entries, n, (m - 1) as nat);
    }
}

/// Once an entry of a field cannot be written, the field cannot.
pub proof fn lemma_field_failure_stays(
    types: Seq<TypeModel>,
    s: StructModel,
    entries: Seq<EntryModel>,
    field: int,
    n: nat,
    m: nat,
)
    requires
        n <= m <= entries.len(),
        encode_field(types, s, entries, field, n) is None,
    ensures
        encode_field(types, s, entries, field, m) is None,
    decreases m,
{
    if n < m {
        lemma_field_failure_stays(types, s, entries, field, n, (m - 1) as nat);
    }
}

/// Once a field cannot be written, the content cannot.
pub proof fn lemma_content_failure_stays(
    types: Seq<TypeModel>,
    s: StructModel,
    entries: Seq<EntryModel>,
    f: nat,
    g: nat,
)
    requires
        f <= g,
        encode_content(types, s, entries, f) is None,
    ensures
        encode_content(types, s, entries, g) is None,
    decreases g,
{
    if f < g {
        lemma_content_failure_stays(types, s, entries, f, (g - 1) as nat);
    }
}

/// An entry that belongs to no field stays one.
pub proof fn lemma_misfit_stays(s: StructModel, entries: Seq<EntryModel>, n: nat, m: nat)
    requires
        n <= m,
        !entries_fit(s, entries, n),
    ensures
        !entries_fit(s, entries, m),
    decreases m,
{
    if n < m {
        lemma_misfit_stays(s, entries, n, (m - 1) as nat);
    }
}

} // verus!
