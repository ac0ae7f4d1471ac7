//! What is encoded is decoded as itself.
//!
//! The law holds of values in canonical form: values that fit their type,
//! and whose elements, once written, are taken back by the fields and
//! variants that they were written for.

use vstd::prelude::*;
use crate::error::XmlDeError;
use crate::xml::de::{
    attr_field, by_field, check_text, decode, decode_attrs, decode_children, decode_plain,
    decode_struct, field_for, is_xmlns, missing_required, pick_variant, place_after, scan_text,
    text_entries,
};
use crate::xml::dynamic::{AttrEntryModel, EntryModel, ValueModel};
use crate::xml::event::{AttributeModel, EventKind, EventModel};
use crate::xml::schema::{FieldModel, FieldType, StructModel, TypeModel, VariantModel};
use crate::xml::se::{
    attr_list, element, encode, encode_content, encode_entry, encode_field, encode_plain,
    encode_struct, entries_fit, field_tag, open_event, own_tag, TagModel, variant_tag,
};

verus! {

/// The tag that a variant's element is written with, if the variant has one
/// of its own.
pub open spec fn tag_of_variant(variant: VariantModel) -> Option<TagModel> {
    if variant.other {
        None
    } else {
        Some(variant_tag(variant))
    }
}

/// The tag that a struct is written with.
pub open spec fn struct_tag(s: StructModel, name: Seq<char>, tag: Option<TagModel>) -> Option<
    TagModel,
> {
    match tag {
        Some(t) => Some(t),
        None => own_tag(s, name),
    }
}

/// Whether a value of the type `ty` is in canonical form.
pub open spec fn canonical(
    types: Seq<TypeModel>,
    ty: int,
    value: ValueModel,
    tag: Option<TagModel>,
) -> bool
    decreases value, 2int,
{
    0 <= ty < types.len() && match types[ty] {
        TypeModel::Enum(variants) => match value {
            ValueModel::Variant(i, payload) => {
                &&& 0 <= i < variants.len()
                &&& canonical_plain(types, variants[i].shape, *payload, tag_of_variant(variants[i]))
                &&& encode_plain(
                    types,
                    variants[i].shape,
                    *payload,
                    tag_of_variant(variants[i]),
                ) is Some
                &&& pick_variant(
                    variants,
                    encode_plain(
                        types,
                        variants[i].shape,
                        *payload,
                        tag_of_variant(variants[i]),
                    )->0[0],
                ) == Some(i)
            },
            _ => false,
        },
        _ => canonical_plain(types, ty, value, tag),
    }
}

/// The same for a type that is no enum: a text is a value of its primitive
/// type and has a tag; a struct is canonical as a struct.
pub open spec fn canonical_plain(
    types: Seq<TypeModel>,
    ty: int,
    value: ValueModel,
    tag: Option<TagModel>,
) -> bool
    decreases value, 1int,
{
    0 <= ty < types.len() && match types[ty] {
        TypeModel::Text(primitive) => match value {
            ValueModel::Text(text) => tag is Some && check_text(primitive, text) is Ok,
            _ => false,
        },
        TypeModel::Any => value is Nothing && tag is Some,
        TypeModel::Struct(s) => canonical_struct(types, s, value, tag),
        TypeModel::Enum(_) => false,
    }
}

/// Whether entries stand field by field, in the order of the fields.
pub open spec fn in_field_order(entries: Seq<EntryModel>) -> bool {
    forall|i: int, j: int|
        0 <= i <= j < entries.len() ==> (#[trigger] entries[i]).field <= (
        #[trigger] entries[j]).field
}

/// What the first `n` entries of the content of a struct are written as,
/// one after the other in their own order.
pub open spec fn encode_in_order(
    types: Seq<TypeModel>,
    s: StructModel,
    entries: Seq<EntryModel>,
    n: nat,
) -> Option<Seq<EventModel>>
    decreases n,
{
    if n == 0 || n > entries.len() {
        Some(seq![])
    } else {
        match (encode_in_order(types, s, entries, (n - 1) as nat), encode_entry(
            types,
            s,
            entries[n - 1],
        )) {
            (Some(before), Some(events)) => Some(before + events),
            _ => None,
        }
    }
}

/// What the entries of the first `f` fields among the first `n` entries
/// are written as, field by field.
pub open spec fn content_upto(
    types: Seq<TypeModel>,
    s: StructModel,
    entries: Seq<EntryModel>,
    n: nat,
    f: nat,
) -> Option<Seq<EventModel>>
    decreases f,
{
    if f == 0 {
        Some(seq![])
    } else {
        match (
            content_upto(types, s, entries, n, (f - 1) as nat),
            encode_field(types, s, entries, f - 1, n),
        ) {
            (Some(before), Some(events)) => Some(before + events),
            _ => None,
        }
    }
}

/// Of all the entries, that is the content as it is written.
pub proof fn lemma_content_upto_all(
    types: Seq<TypeModel>,
    s: StructModel,
    entries: Seq<EntryModel>,
    f: nat,
)
    ensures
        content_upto(types, s, entries, entries.len(), f) == encode_content(types, s, entries, f),
    decreases f,
{
    if f > 0 {
        lemma_content_upto_all(types, s, entries, (f - 1) as nat);
    }
}

/// Where every entry can be written, so can the entries of every field.
proof fn lemma_fields_are_written(
    types: Seq<TypeModel>,
    s: StructModel,
    entries: Seq<EntryModel>,
    field: int,
    n: nat,
)
    requires
        n <= entries.len(),
        forall|k: int| 0 <= k < entries.len() ==> encode_entry(types, s, #[trigger] entries[k]) is Some,
    ensures
        encode_field(types, s, entries, field, n) is Some,
    decreases n,
{
    if n > 0 {
        lemma_fields_are_written(types, s, entries, field, (n - 1) as nat);
    }
}

/// A field that none of the first `n` entries belongs to is written as
/// nothing.
proof fn lemma_absent_field_is_empty(
    types: Seq<TypeModel>,
    s: StructModel,
    entries: Seq<EntryModel>,
    field: int,
    n: nat,
)
    requires
        n <= entries.len(),
        forall|k: int| 0 <= k < n ==> (#[trigger] entries[k]).field != field,
    ensures
        encode_field(types, s, entries, field, n) == Some(Seq::<EventModel>::empty()),
    decreases n,
{
    if n > 0 {
        lemma_absent_field_is_empty(types, s, entries, field, (n - 1) as nat);
    }
}

/// Where every entry can be written, so can the content of every number of
/// fields.
pub proof fn lemma_content_is_written(
    types: Seq<TypeModel>,
    s: StructModel,
    entries: Seq<EntryModel>,
    n: nat,
    f: nat,
)
    requires
        n <= entries.len(),
        forall|k: int| 0 <= k < entries.len() ==> encode_entry(types, s, #[trigger] entries[k]) is Some,
    ensures
        content_upto(types, s, entries, n, f) is Some,
    decreases f,
{
    if f > 0 {
        lemma_content_is_written(types, s, entries, n, (f - 1) as nat);
        lemma_fields_are_written(types, s, entries, f - 1, n);
    }
}

/// One more entry, in field order, adds what it is written as at the end
/// of what the fields up to its own are written as.
proof fn lemma_content_step(
    types: Seq<TypeModel>,
    s: StructModel,
    entries: Seq<EntryModel>,
    n: nat,
    f: nat,
)
    requires
        0 < n <= entries.len(),
        in_field_order(entries),
        forall|k: int| 0 <= k < entries.len() ==> encode_entry(types, s, #[trigger] entries[k]) is Some,
    ensures
        content_upto(types, s, entries, n, f) is Some,
        content_upto(types, s, entries, (n - 1) as nat, f) is Some,
        content_upto(types, s, entries, n, f)->0 == content_upto(
            types,
            s,
            entries,
            (n - 1) as nat,
            f,
        )->0 + if entries[n - 1].field < f {
            encode_entry(types, s, entries[n - 1])->0
        } else {
            seq![]
        },
    decreases f,
{
    let last = entries[n - 1];
    let events = encode_entry(types, s, last)->0;
    lemma_content_is_written(types, s, entries, n, f);
    lemma_content_is_written(types, s, entries, (n - 1) as nat, f);
    if f == 0 {
        assert(Seq::<EventModel>::empty() + Seq::<EventModel>::empty() =~= Seq::<
            EventModel,
        >::empty());
    } else {
        lemma_content_step(types, s, entries, n, (f - 1) as nat);
        lemma_fields_are_written(types, s, entries, f - 1, n);
        lemma_fields_are_written(types, s, entries, f - 1, (n - 1) as nat);
        let before_n = content_upto(types, s, entries, n, (f - 1) as nat)->0;
        let before_m = content_upto(types, s, entries, (n - 1) as nat, (f - 1) as nat)->0;
        let field_n = encode_field(types, s, entries, f - 1, n)->0;
        let field_m = encode_field(types, s, entries, f - 1, (n - 1) as nat)->0;
        if last.field > f - 1 {
            assert(field_n == field_m);
            assert(before_n == before_m + Seq::<EventModel>::empty());
            assert(before_m + Seq::<EventModel>::empty() =~= before_m);
            assert((before_m + field_m) + Seq::<EventModel>::empty() =~= before_m + field_m);
        } else if last.field == f - 1 {
            assert(field_n == field_m + events);
            assert(before_n == before_m + Seq::<EventModel>::empty());
            assert(before_m + Seq::<EventModel>::empty() =~= before_m);
            assert(before_m + (field_m + events) =~= (before_m + field_m) + events);
        } else {
            assert(field_n == field_m);
            assert forall|k: int| 0 <= k < n - 1 implies (#[trigger] entries[k]).field != f - 1 by {
                assert(entries[k].field <= entries[n - 1].field);
            }
            lemma_absent_field_is_empty(types, s, entries, f - 1, (n - 1) as nat);
            assert(before_n == before_m + events);
            assert((before_m + events) + Seq::<EventModel>::empty() =~= before_m + events);
            assert((before_m + Seq::<EventModel>::empty()) + events =~= before_m + events);
        }
    }
}

/// Entries that stand in field order are written field by field as they
/// are written one after the other.
proof fn lemma_field_order_is_entry_order(
    types: Seq<TypeModel>,
    s: StructModel,
    entries: Seq<EntryModel>,
    n: nat,
)
    requires
        n <= entries.len(),
        in_field_order(entries),
        forall|k: int| 0 <= k < entries.len() ==> encode_entry(types, s, #[trigger] entries[k]) is Some,
    ensures
        content_upto(types, s, entries, n, s.fields.len()) == encode_in_order(
            types,
            s,
            entries,
            n,
        ),
        encode_in_order(types, s, entries, n) is Some,
    decreases n,
{
    if n == 0 {
        lemma_no_entries_no_content(types, s, entries, s.fields.len());
    } else {
        lemma_field_order_is_entry_order(types, s, entries, (n - 1) as nat);
        lemma_content_step(types, s, entries, n, s.fields.len());
    }
}

/// Of no entries, nothing is written.
proof fn lemma_no_entries_no_content(
    types: Seq<TypeModel>,
    s: StructModel,
    entries: Seq<EntryModel>,
    f: nat,
)
    ensures
        content_upto(types, s, entries, 0, f) == Some(Seq::<EventModel>::empty()),
    decreases f,
{
    if f > 0 {
        lemma_no_entries_no_content(types, s, entries, (f - 1) as nat);
        assert(Seq::<EventModel>::empty() + Seq::<EventModel>::empty() =~= Seq::<
            EventModel,
        >::empty());
    }
}

/// Canonical entries belong to fields of the struct and can be written.
pub proof fn lemma_canonical_entries_fit(
    types: Seq<TypeModel>,
    s: StructModel,
    entries: Seq<EntryModel>,
    n: nat,
)
    requires
        n <= entries.len(),
        canonical_entries(types, s, entries, entries.len()),
    ensures
        entries_fit(s, entries, n),
    decreases n,
{
    if n > 0 {
        lemma_canonical_entries_fit(types, s, entries, (n - 1) as nat);
        lemma_canonical_entries_at(types, s, entries, entries.len(), n - 1);
    }
}

/// A struct is canonical if it is named as it is written, its attributes
/// and its content are canonical, its content stands in field order, and
/// no required field is missing.
pub open spec fn canonical_struct(
    types: Seq<TypeModel>,
    s: StructModel,
    value: ValueModel,
    tag: Option<TagModel>,
) -> bool
    decreases value, 0int,
{
    match value {
        ValueModel::Struct { name, attributes, content } => {
            &&& struct_tag(s, name, tag) is Some
            &&& struct_tag(s, name, tag)->0.local_name == name
            &&& canonical_attrs(s, attributes, attributes.len())
            &&& canonical_entries(types, s, content, content.len())
            &&& in_field_order(content)
            &&& !missing_required(s.fields, attributes, content, s.fields.len())
        },
        _ => false,
    }
}

/// An attribute entry is canonical if its field is an attribute of the
/// struct, the first of its name, and the name declares no namespace.
pub open spec fn canonical_attr(s: StructModel, entry: AttrEntryModel) -> bool {
    &&& 0 <= entry.field < s.fields.len()
    &&& s.fields[entry.field].ty == FieldType::Attr
    &&& !is_xmlns(s.fields[entry.field].name)
    &&& attr_field(s.fields, s.fields[entry.field].name, s.fields.len()) == Some(entry.field)
}

/// Whether the first `n` attribute entries are canonical.
pub open spec fn canonical_attrs(s: StructModel, entries: Seq<AttrEntryModel>, n: nat) -> bool
    decreases n,
{
    n == 0 || (n <= entries.len() && canonical_attrs(s, entries, (n - 1) as nat)
        && canonical_attr(s, entries[n - 1]))
}

/// An entry of the content is canonical if its value is, and what it is
/// written as comes back to its field: a child's element is taken by the
/// field, a text goes to the one text field.
pub open spec fn canonical_entry(types: Seq<TypeModel>, s: StructModel, entry: EntryModel) -> bool
    decreases entry, 3int,
{
    0 <= entry.field < s.fields.len() && match s.fields[entry.field].ty {
        FieldType::Tag => {
            &&& canonical(
                types,
                s.fields[entry.field].shape,
                entry.value,
                Some(field_tag(s.fields[entry.field])),
            )
            &&& encode_entry(types, s, entry) is Some
            &&& field_for(s.fields, encode_entry(types, s, entry)->0[0]) == Some(entry.field)
        },
        FieldType::Untagged => {
            &&& canonical(types, s.fields[entry.field].shape, entry.value, None)
            &&& encode_entry(types, s, entry) is Some
            &&& field_for(s.fields, encode_entry(types, s, entry)->0[0]) == Some(entry.field)
        },
        FieldType::Text => match entry.value {
            ValueModel::Text(text) => text_entries(s.fields, text, s.fields.len()) == seq![entry],
            _ => false,
        },
        _ => false,
    }
}

/// Whether the first `n` entries of the content are canonical.
pub open spec fn canonical_entries(
    types: Seq<TypeModel>,
    s: StructModel,
    entries: Seq<EntryModel>,
    n: nat,
) -> bool
    decreases entries, n,
{
    n == 0 || (n <= entries.len() && canonical_entries(types, s, entries, (n - 1) as nat)
        && canonical_entry(types, s, entries[n - 1]))
}

/// Whether events stand in a document from the position `at` on.
pub open spec fn stands_at(document: Seq<EventModel>, at: int, events: Seq<EventModel>) -> bool {
    &&& 0 <= at
    &&& at + events.len() <= document.len()
    &&& forall|j: int| 0 <= j < events.len() ==> document[at + j] == #[trigger] events[j]
}

/// The attributes written so far are the start of all attributes written.
proof fn lemma_attr_list_prefix(s: StructModel, entries: Seq<AttrEntryModel>, n: nat, m: nat)
    requires
        n <= m <= entries.len(),
        attr_list(s, entries, m) is Some,
    ensures
        attr_list(s, entries, n) is Some,
        attr_list(s, entries, n)->0.len() == n,
        attr_list(s, entries, m)->0.len() == m,
        forall|k: int|
            0 <= k < n ==> attr_list(s, entries, n)->0[k] == attr_list(s, entries, m)->0[k],
    decreases m,
{
    if m > 0 {
        lemma_attr_list_prefix(s, entries, if n < m {
            n
        } else {
            (m - 1) as nat
        }, (m - 1) as nat);
    }
}

/// Canonical attributes, once written, are read back as themselves.
proof fn lemma_attrs_round_trip(s: StructModel, entries: Seq<AttrEntryModel>, n: nat)
    requires
        n <= entries.len(),
        canonical_attrs(s, entries, entries.len()),
        attr_list(s, entries, entries.len()) is Some,
    ensures
        decode_attrs(s, attr_list(s, entries, entries.len())->0, n) == Ok::<
            Seq<AttrEntryModel>,
            XmlDeError,
        >(entries.take(n as int)),
    decreases n,
{
    let written = attr_list(s, entries, entries.len())->0;
    if n == 0 {
        assert(entries.take(0) =~= seq![]);
    } else {
        lemma_attrs_round_trip(s, entries, (n - 1) as nat);
        lemma_canonical_attrs_at(s, entries, entries.len(), n - 1);
        lemma_attr_list_prefix(s, entries, n, entries.len());
        lemma_attr_list_prefix(s, entries, (n - 1) as nat, n);
        let entry = entries[n - 1];
        assert(attr_list(s, entries, n)->0[n - 1] == AttributeModel {
            key: s.fields[entry.field].name,
            value: entry.value,
        });
        assert(written[n - 1] == attr_list(s, entries, n)->0[n - 1]);
        assert(entries.take(n as int) =~= entries.take(n - 1).push(entry));
    }
}

/// Each of the first `n` canonical attribute entries is canonical.
proof fn lemma_canonical_attrs_at(s: StructModel, entries: Seq<AttrEntryModel>, n: nat, k: int)
    requires
        0 <= k < n <= entries.len(),
        canonical_attrs(s, entries, n),
    ensures
        canonical_attr(s, entries[k]),
    decreases n,
{
    if k < n - 1 {
        lemma_canonical_attrs_at(s, entries, (n - 1) as nat, k);
    }
}

/// Each of the first `n` canonical entries is canonical.
proof fn lemma_canonical_entries_at(
    types: Seq<TypeModel>,
    s: StructModel,
    entries: Seq<EntryModel>,
    n: nat,
    k: int,
)
    requires
        0 <= k < n <= entries.len(),
        canonical_entries(types, s, entries, n),
    ensures
        canonical_entry(types, s, entries[k]),
    decreases n,
{
    if k < n - 1 {
        lemma_canonical_entries_at(types, s, entries, (n - 1) as nat, k);
    }
}

/// The content written so far is the start of all content written, and an
/// entry adds what it is written as.
proof fn lemma_entries_prefix(
    types: Seq<TypeModel>,
    s: StructModel,
    entries: Seq<EntryModel>,
    n: nat,
    m: nat,
)
    requires
        n <= m <= entries.len(),
        encode_in_order(types, s, entries, m) is Some,
    ensures
        encode_in_order(types, s, entries, n) is Some,
        encode_in_order(types, s, entries, n)->0.len() <= encode_in_order(types, s, entries, m)->0.len(),
        forall|k: int|
            0 <= k < encode_in_order(types, s, entries, n)->0.len() ==> encode_in_order(
                types,
                s,
                entries,
                n,
            )->0[k] == encode_in_order(types, s, entries, m)->0[k],
    decreases m,
{
    if n < m {
        lemma_entries_prefix(types, s, entries, n, (m - 1) as nat);
    }
}

/// An element has at least one event, and the first opens it.
pub proof fn lemma_element_opens(tag: TagModel, attributes: Seq<AttributeModel>, body: Seq<EventModel>)
    ensures
        element(tag, attributes, body).len() > 0,
        element(tag, attributes, body)[0].opens(),
        element(tag, attributes, body)[0].name == tag.name,
        element(tag, attributes, body)[0].local_name == tag.local_name,
        element(tag, attributes, body)[0].attributes == attributes,
        element(tag, attributes, body).len() == if body.len() == 0 {
            1
        } else {
            body.len() + 2
        },
{
}

/// A canonical value of a type that is no enum, written and then decoded
/// where it stands in a document, is decoded as itself, and decoding ends
/// where what was written ends.
pub proof fn lemma_round_trip_plain(
    types: Seq<TypeModel>,
    ty: int,
    value: ValueModel,
    tag: Option<TagModel>,
    document: Seq<EventModel>,
    at: int,
)
    requires
        canonical_plain(types, ty, value, tag),
        encode_plain(types, ty, value, tag) is Some,
        stands_at(document, at, encode_plain(types, ty, value, tag)->0),
    ensures
        encode_plain(types, ty, value, tag)->0.len() > 0,
        document[at].opens(),
        document[at] == encode_plain(types, ty, value, tag)->0[0],
        decode_plain(types, ty, document, at) == Ok::<(ValueModel, int), XmlDeError>(
            (value, at + encode_plain(types, ty, value, tag)->0.len()),
        ),
    decreases value, 1int,
{
    let events = encode_plain(types, ty, value, tag)->0;
    match types[ty] {
        TypeModel::Text(primitive) => {
            let text = value->Text_0;
            let t = tag->0;
            if text.len() == 0 {
                assert(text =~= seq![]);
                assert(events[0] == open_event(EventKind::Empty, t, seq![]));
                assert(document[at + 0] == events[0]);
            } else {
                assert(events =~= seq![
                    open_event(EventKind::Start, t, seq![]),
                    EventModel::text(text),
                    EventModel::end(t.name, t.local_name, t.namespace),
                ]);
                assert(document[at + 0] == events[0]);
                assert(document[at + 1] == events[1]);
                assert(document[at + 2] == events[2]);
                assert(scan_text(document, at + 2, text) == Ok::<(Seq<char>, int), XmlDeError>(
                    (text, at + 3),
                ));
                assert(scan_text(document, at + 1, seq![]) == scan_text(document, at + 2, text));
            }
        },
        TypeModel::Any => {
            let t = tag->0;
            assert(events[0] == open_event(EventKind::Empty, t, seq![]));
            assert(document[at + 0] == events[0]);
        },
        TypeModel::Struct(s) => {
            lemma_round_trip_struct(types, s, value, tag, document, at);
        },
        TypeModel::Enum(_) => {},
    }
}

/// In entries that stand in field order, no entry of a later field stands
/// before the end.
proof fn lemma_place_is_the_end(entries: Seq<EntryModel>, field: int, n: nat)
    requires
        n <= entries.len(),
        forall|i: int| 0 <= i < n ==> (#[trigger] entries[i]).field <= field,
    ensures
        place_after(entries, field, n) == n,
    decreases n,
{
    if n > 0 {
        lemma_place_is_the_end(entries, field, (n - 1) as nat);
    }
}

/// Entries that stand in field order stay as they are when put in field
/// order.
pub proof fn lemma_ordered_stays(entries: Seq<EntryModel>, n: nat)
    requires
        n <= entries.len(),
        in_field_order(entries),
    ensures
        by_field(entries, n) == entries.take(n as int),
    decreases n,
{
    if n > 0 {
        lemma_ordered_stays(entries, (n - 1) as nat);
        let before = entries.take(n - 1);
        assert forall|i: int| 0 <= i < before.len() implies (#[trigger] before[i]).field
            <= entries[n - 1].field by {
            assert(entries[i].field <= entries[n - 1].field);
        }
        lemma_place_is_the_end(before, entries[n - 1].field, before.len());
        assert(before.insert(before.len() as int, entries[n - 1]) =~= entries.take(n as int));
    }
}

/// A struct whose parts are decoded as the parts of a value is decoded as
/// the value.
proof fn lemma_struct_is_decoded(
    types: Seq<TypeModel>,
    s: StructModel,
    value: ValueModel,
    document: Seq<EventModel>,
    at: int,
    next: int,
)
    requires
        value is Struct,
        0 <= at < document.len(),
        document[at].opens(),
        document[at].local_name == value->name,
        decode_attrs(s, document[at].attributes, document[at].attributes.len()) == Ok::<
            Seq<AttrEntryModel>,
            XmlDeError,
        >(value->attributes),
        !missing_required(s.fields, value->attributes, value->content, s.fields.len()),
        in_field_order(value->content),
        document[at].kind == EventKind::Empty ==> value->content == Seq::<EntryModel>::empty()
            && next == at + 1,
        document[at].kind != EventKind::Empty ==> decode_children(
            types,
            s,
            document[at].name,
            document,
            at + 1,
            seq![],
        ) == Ok::<(Seq<EntryModel>, int), XmlDeError>((value->content, next)),
    ensures
        decode_struct(types, s, document, at) == Ok::<(ValueModel, int), XmlDeError>((value, next)),
{
    let content = value->content;
    lemma_ordered_stays(content, content.len());
    assert(content.take(content.len() as int) =~= content);
}

/// The same for a struct.
pub proof fn lemma_round_trip_struct(
    types: Seq<TypeModel>,
    s: StructModel,
    value: ValueModel,
    tag: Option<TagModel>,
    document: Seq<EventModel>,
    at: int,
)
    requires
        canonical_struct(types, s, value, tag),
        encode_struct(types, s, value, tag) is Some,
        stands_at(document, at, encode_struct(types, s, value, tag)->0),
    ensures
        encode_struct(types, s, value, tag)->0.len() > 0,
        document[at].opens(),
        document[at] == encode_struct(types, s, value, tag)->0[0],
        decode_struct(types, s, document, at) == Ok::<(ValueModel, int), XmlDeError>(
            (value, at + encode_struct(types, s, value, tag)->0.len()),
        ),
    decreases value, 0int,
{
    let events = encode_struct(types, s, value, tag)->0;
    let name = value->name;
    let attributes = value->attributes;
    let content = value->content;
    let t = struct_tag(s, name, tag)->0;
    let written = attr_list(s, attributes, attributes.len())->0;
    let body = encode_content(types, s, content, s.fields.len())->0;
    assert(events == element(t, written, body));
    assert forall|k: int| 0 <= k < content.len() implies encode_entry(
        types,
        s,
        #[trigger] content[k],
    ) is Some by {
        lemma_canonical_entries_at(types, s, content, content.len(), k);
    }
    lemma_field_order_is_entry_order(types, s, content, content.len());
    lemma_content_upto_all(types, s, content, s.fields.len());
    assert(encode_in_order(types, s, content, content.len()) == Some(body));
    lemma_element_opens(t, written, body);
    assert(document[at + 0] == events[0]);
    lemma_attrs_round_trip(s, attributes, attributes.len());
    lemma_attr_list_prefix(s, attributes, attributes.len(), attributes.len());
    assert(written.len() == attributes.len());
    assert(attributes.take(attributes.len() as int) =~= attributes);
    assert(document[at].attributes == written);
    if body.len() == 0 {
        lemma_empty_body(types, s, content);
        assert(events[0].kind == EventKind::Empty);
    } else {
        assert(events[0].kind == EventKind::Start);
        lemma_body_stands(t, written, body, document, at);
        lemma_children_round_trip(types, s, t.name, document, at + 1, content, 0);
        assert(content.take(0) =~= seq![]);
        assert(encode_in_order(types, s, content, 0)->0.len() == 0);
    }
    lemma_struct_is_decoded(types, s, value, document, at, at + events.len());
}

/// A canonical content that is written as nothing is empty.
proof fn lemma_empty_body(types: Seq<TypeModel>, s: StructModel, content: Seq<EntryModel>)
    requires
        canonical_entries(types, s, content, content.len()),
        encode_in_order(types, s, content, content.len()) is Some,
        encode_in_order(types, s, content, content.len())->0.len() == 0,
    ensures
        content == Seq::<EntryModel>::empty(),
{
    if content.len() > 0 {
        lemma_canonical_entries_at(types, s, content, content.len(), 0);
        lemma_entries_prefix(types, s, content, 1, content.len());
        lemma_entry_is_written(types, s, content[0]);
        assert(encode_in_order(types, s, content, 0) == Some(Seq::<EventModel>::empty()));
    }
    assert(content =~= seq![]);
}

/// Where an element with content stands, its content stands after its
/// start tag, and its end tag after that.
proof fn lemma_body_stands(
    t: TagModel,
    written: Seq<AttributeModel>,
    body: Seq<EventModel>,
    document: Seq<EventModel>,
    at: int,
)
    requires
        body.len() > 0,
        stands_at(document, at, element(t, written, body)),
    ensures
        stands_at(document, at + 1, body),
        at + 1 + body.len() < document.len(),
        document[at + 1 + body.len()].kind == EventKind::End,
        document[at + 1 + body.len()].name == t.name,
        element(t, written, body).len() == body.len() + 2,
{
    let events = element(t, written, body);
    assert(events =~= seq![open_event(EventKind::Start, t, written)] + body + seq![
        EventModel::end(t.name, t.local_name, t.namespace),
    ]);
    assert forall|j: int| 0 <= j < body.len() implies document[at + 1 + j] == #[trigger] body[j] by {
        assert(events[j + 1] == body[j]);
        assert(document[at + (j + 1)] == events[j + 1]);
    }
    assert(document[at + (body.len() + 1)] == events[body.len() as int + 1]);
}

/// A canonical entry is written as at least one event.
proof fn lemma_entry_is_written(types: Seq<TypeModel>, s: StructModel, entry: EntryModel)
    requires
        canonical_entry(types, s, entry),
        encode_entry(types, s, entry) is Some,
    ensures
        encode_entry(types, s, entry)->0.len() > 0,
{
    let field = s.fields[entry.field];
    match field.ty {
        FieldType::Tag => {
            lemma_is_written(types, field.shape, entry.value, Some(field_tag(field)));
        },
        FieldType::Untagged => {
            lemma_is_written(types, field.shape, entry.value, None);
        },
        _ => {},
    }
}

/// What a canonical value is written as has at least one event.
proof fn lemma_is_written(
    types: Seq<TypeModel>,
    ty: int,
    value: ValueModel,
    tag: Option<TagModel>,
)
    requires
        canonical(types, ty, value, tag),
        encode(types, ty, value, tag) is Some,
    ensures
        encode(types, ty, value, tag)->0.len() > 0,
{
    match types[ty] {
        TypeModel::Enum(variants) => {
            let i = value->Variant_0;
            lemma_plain_is_written(
                types,
                variants[i].shape,
                *value->Variant_1,
                tag_of_variant(variants[i]),
            );
        },
        _ => {
            lemma_plain_is_written(types, ty, value, tag);
        },
    }
}

proof fn lemma_plain_is_written(
    types: Seq<TypeModel>,
    ty: int,
    value: ValueModel,
    tag: Option<TagModel>,
)
    requires
        canonical_plain(types, ty, value, tag),
        encode_plain(types, ty, value, tag) is Some,
    ensures
        encode_plain(types, ty, value, tag)->0.len() > 0,
{
}

/// The content of a canonical struct, decoded from where its entry `n`
/// stands, with the entries before it read, gives all of the content, and
/// decoding ends after the struct's end tag.
proof fn lemma_children_round_trip(
    types: Seq<TypeModel>,
    s: StructModel,
    name: Seq<char>,
    document: Seq<EventModel>,
    base: int,
    content: Seq<EntryModel>,
    n: nat,
)
    requires
        n <= content.len(),
        canonical_entries(types, s, content, content.len()),
        encode_in_order(types, s, content, content.len()) is Some,
        stands_at(document, base, encode_in_order(types, s, content, content.len())->0),
        base + encode_in_order(types, s, content, content.len())->0.len() < document.len(),
        document[base + encode_in_order(types, s, content, content.len())->0.len()].kind
            == EventKind::End,
        document[base + encode_in_order(types, s, content, content.len())->0.len()].name == name,
    ensures
        encode_in_order(types, s, content, n) is Some,
        decode_children(
            types,
            s,
            name,
            document,
            base + encode_in_order(types, s, content, n)->0.len(),
            content.take(n as int),
        ) == Ok::<(Seq<EntryModel>, int), XmlDeError>(
            (content, base + encode_in_order(types, s, content, content.len())->0.len() + 1),
        ),
    decreases content, content.len() - n,
{
    let body = encode_in_order(types, s, content, content.len())->0;
    lemma_entries_prefix(types, s, content, n, content.len());
    let done = encode_in_order(types, s, content, n)->0;
    let p = base + done.len();
    if n == content.len() {
        assert(content.take(n as int) =~= content);
    } else {
        lemma_entries_prefix(types, s, content, n + 1, content.len());
        lemma_canonical_entries_at(types, s, content, content.len(), n as int);
        let entry = content[n as int];
        let events = encode_entry(types, s, entry)->0;
        let next = encode_in_order(types, s, content, n + 1)->0;
        assert(next == done + events);
        lemma_entry_is_written(types, s, entry);
        assert forall|j: int| 0 <= j < events.len() implies document[p + j] == #[trigger] events[j] by {
            assert(next[done.len() + j] == events[j]);
            assert(body[done.len() + j] == next[done.len() + j]);
            assert(document[base + (done.len() + j)] == body[done.len() + j]);
        }
        assert(stands_at(document, p, events));
        assert(document[p + 0] == events[0]);
        lemma_children_round_trip(types, s, name, document, base, content, n + 1);
        assert(content.take(n as int + 1) =~= content.take(n as int).push(entry));
        let field = s.fields[entry.field];
        match field.ty {
            FieldType::Tag => {
                lemma_round_trip(
                    types,
                    field.shape,
                    entry.value,
                    Some(field_tag(field)),
                    document,
                    p,
                );
            },
            FieldType::Untagged => {
                lemma_round_trip(types, field.shape, entry.value, None, document, p);
            },
            FieldType::Text => {
                let text = entry.value->Text_0;
                assert(events =~= seq![EventModel::text(text)]);
                assert(content.take(n as int) + seq![entry] =~= content.take(n as int + 1));
            },
            _ => {},
        }
    }
}

/// A canonical value, written and then decoded where it stands in a
/// document, is decoded as itself, and decoding ends where what was written
/// ends.
pub proof fn lemma_round_trip(
    types: Seq<TypeModel>,
    ty: int,
    value: ValueModel,
    tag: Option<TagModel>,
    document: Seq<EventModel>,
    at: int,
)
    requires
        canonical(types, ty, value, tag),
        encode(types, ty, value, tag) is Some,
        stands_at(document, at, encode(types, ty, value, tag)->0),
    ensures
        encode(types, ty, value, tag)->0.len() > 0,
        document[at].opens(),
        document[at] == encode(types, ty, value, tag)->0[0],
        decode(types, ty, document, at) == Ok::<(ValueModel, int), XmlDeError>(
            (value, at + encode(types, ty, value, tag)->0.len()),
        ),
    decreases value, 2int,
{
    match types[ty] {
        TypeModel::Enum(variants) => {
            let i = value->Variant_0;
            let payload = *value->Variant_1;
            lemma_round_trip_plain(
                types,
                variants[i].shape,
                payload,
                tag_of_variant(variants[i]),
                document,
                at,
            );
        },
        _ => {
            lemma_round_trip_plain(types, ty, value, tag, document, at);
        },
    }
}

/// The attribute entries read from any start tag that a struct accepts are
/// canonical and can be written.
pub proof fn lemma_decoded_attributes_are_canonical(
    s: StructModel,
    attributes: Seq<AttributeModel>,
    n: nat,
)
    requires
        n <= attributes.len(),
        decode_attrs(s, attributes, n) is Ok,
    ensures
        canonical_attrs(
            s,
            decode_attrs(s, attributes, n)->Ok_0,
            decode_attrs(s, attributes, n)->Ok_0.len(),
        ),
        attr_list(
            s,
            decode_attrs(s, attributes, n)->Ok_0,
            decode_attrs(s, attributes, n)->Ok_0.len(),
        ) is Some,
    decreases n,
{
    if n > 0 {
        lemma_decoded_attributes_are_canonical(s, attributes, (n - 1) as nat);
        let before = decode_attrs(s, attributes, (n - 1) as nat)->Ok_0;
        let now = decode_attrs(s, attributes, n)->Ok_0;
        if now.len() > before.len() {
            let f = attr_field(s.fields, attributes[n - 1].key, s.fields.len())->0;
            lemma_attr_field_is_an_attribute(s.fields, attributes[n - 1].key, s.fields.len());
            assert(now == before.push(AttrEntryModel { field: f, value: attributes[n - 1].value }));
            lemma_canonical_attrs_extend(s, before, now, before.len());
            lemma_attr_list_extend(s, before, now, before.len());
        }
    }
}

/// The field found for an attribute is an attribute of that name.
proof fn lemma_attr_field_is_an_attribute(fields: Seq<FieldModel>, key: Seq<char>, n: nat)
    requires
        n <= fields.len(),
        attr_field(fields, key, n) is Some,
    ensures
        0 <= attr_field(fields, key, n)->0 < n,
        fields[attr_field(fields, key, n)->0].ty == FieldType::Attr,
        fields[attr_field(fields, key, n)->0].name == key,
    decreases n,
{
    if n > 0 && attr_field(fields, key, (n - 1) as nat) is Some {
        lemma_attr_field_is_an_attribute(fields, key, (n - 1) as nat);
    }
}

/// Entries that are canonical stay so when more entries follow them.
proof fn lemma_canonical_attrs_extend(
    s: StructModel,
    a: Seq<AttrEntryModel>,
    b: Seq<AttrEntryModel>,
    n: nat,
)
    requires
        n <= a.len() <= b.len(),
        forall|k: int| 0 <= k < a.len() ==> a[k] == b[k],
        canonical_attrs(s, a, n),
    ensures
        canonical_attrs(s, b, n),
    decreases n,
{
    if n > 0 {
        lemma_canonical_attrs_extend(s, a, b, (n - 1) as nat);
    }
}

/// What entries are written as does not change when more entries follow
/// them.
proof fn lemma_attr_list_extend(
    s: StructModel,
    a: Seq<AttrEntryModel>,
    b: Seq<AttrEntryModel>,
    n: nat,
)
    requires
        n <= a.len() <= b.len(),
        forall|k: int| 0 <= k < a.len() ==> a[k] == b[k],
    ensures
        attr_list(s, b, n) == attr_list(s, a, n),
    decreases n,
{
    if n > 0 {
        lemma_attr_list_extend(s, a, b, (n - 1) as nat);
    }
}

/// The attributes of every start tag that a struct accepts come back:
/// what was read from them, written and read again, is the same.
pub proof fn lemma_accepted_attributes_come_back(s: StructModel, attributes: Seq<AttributeModel>)
    requires
        decode_attrs(s, attributes, attributes.len()) is Ok,
    ensures
        attr_list(
            s,
            decode_attrs(s, attributes, attributes.len())->Ok_0,
            decode_attrs(s, attributes, attributes.len())->Ok_0.len(),
        ) matches Some(written) && decode_attrs(s, written, written.len()) == decode_attrs(
            s,
            attributes,
            attributes.len(),
        ),
{
    let entries = decode_attrs(s, attributes, attributes.len())->Ok_0;
    lemma_decoded_attributes_are_canonical(s, attributes, attributes.len());
    lemma_attrs_round_trip(s, entries, entries.len());
    lemma_attr_list_prefix(s, entries, entries.len(), entries.len());
    assert(entries.take(entries.len() as int) =~= entries);
}

/// What is encoded is decoded as itself: the events of a canonical value,
/// taken as a document of their own, decode to the value, all of them.
pub proof fn lemma_encoded_is_decoded(
    types: Seq<TypeModel>,
    ty: int,
    value: ValueModel,
    tag: Option<TagModel>,
)
    requires
        canonical(types, ty, value, tag),
        encode(types, ty, value, tag) is Some,
    ensures
        decode(types, ty, encode(types, ty, value, tag)->0, 0) == Ok::<
            (ValueModel, int),
            XmlDeError,
        >((value, encode(types, ty, value, tag)->0.len() as int)),
{
    lemma_round_trip(types, ty, value, tag, encode(types, ty, value, tag)->0, 0);
}

/// Decoding and encoding again reproduces what was encoded: for events
/// that are the encoding of a canonical value, encoding what they decode
/// to gives the same events.
pub proof fn lemma_decoded_is_encoded(
    types: Seq<TypeModel>,
    ty: int,
    value: ValueModel,
    tag: Option<TagModel>,
)
    requires
        canonical(types, ty, value, tag),
        encode(types, ty, value, tag) is Some,
    ensures
        decode(types, ty, encode(types, ty, value, tag)->0, 0) is Ok,
        encode(types, ty, decode(types, ty, encode(types, ty, value, tag)->0, 0)->Ok_0.0, tag)
            == encode(types, ty, value, tag),
{
    lemma_encoded_is_decoded(types, ty, value, tag);
}

} // verus!
