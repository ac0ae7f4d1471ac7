//! What is decoded can be written, and comes back.
//!
//! Every value that is read from a document is in canonical form, given a
//! table of types in which whatever is written without a tag has a name of
//! its own. So what is read, written and read again is the same value.

use vstd::prelude::*;
use crate::error::XmlDeError;
use crate::xml::de::{
    by_field, decode, decode_children, decode_plain, decode_struct, field_for, kind_field,
    named_variant, other_variant, pick_variant, place_after, skip_element, tag_field, takes,
    text_entries, variant_takes,
};
use crate::xml::dynamic::{EntryModel, ValueModel};
use crate::xml::event::{EventKind, EventModel};
use crate::xml::round_trip::{
    canonical, canonical_entries, canonical_entry, canonical_plain, canonical_struct,
    in_field_order, lemma_canonical_entries_fit, lemma_content_is_written,
    lemma_content_upto_all, lemma_decoded_attributes_are_canonical, lemma_element_opens,
    lemma_encoded_is_decoded, tag_of_variant,
};
use crate::xml::schema::{
    count_fields, FieldModel, FieldType, schema_wf, struct_wf, StructModel, TypeModel,
    VariantModel,
};
use crate::xml::se::{
    attr_list, encode, encode_content, encode_entry, encode_plain, encode_struct, field_tag,
    TagModel,
};

verus! {

/// Whether a struct has a name of its own to be written with.
pub open spec fn has_own_name(s: StructModel) -> bool {
    kind_field(s.fields, FieldType::TagName, s.fields.len()) is Some
}

/// Whether a value of a type can be written where no tag is given: the
/// type is an enum, or a struct with a name of its own.
pub open spec fn names_itself(types: Seq<TypeModel>, ty: int) -> bool {
    0 <= ty < types.len() && match types[ty] {
        TypeModel::Enum(_) => true,
        TypeModel::Struct(s) => has_own_name(s),
        _ => false,
    }
}

/// A struct whose content comes back: what its untagged field holds names
/// itself, and no more than one field is the text.
pub open spec fn struct_comes_back(types: Seq<TypeModel>, s: StructModel) -> bool {
    &&& forall|i: int|
        0 <= i < s.fields.len() && (#[trigger] s.fields[i]).ty == FieldType::Untagged
            ==> names_itself(types, s.fields[i].shape)
    &&& count_fields(s.fields, FieldType::Text, s.fields.len()) <= 1
}

/// An enum whose variants come back: the variant that takes every tag holds
/// a struct with a name of its own.
pub open spec fn enum_comes_back(types: Seq<TypeModel>, variants: Seq<VariantModel>) -> bool {
    forall|i: int|
        0 <= i < variants.len() && (#[trigger] variants[i]).other ==> (types[variants[i].shape]
            matches TypeModel::Struct(s) && has_own_name(s))
}

/// A table of types in which what is read can always be written.
pub open spec fn schema_comes_back(types: Seq<TypeModel>) -> bool {
    forall|i: int|
        0 <= i < types.len() ==> match #[trigger] types[i] {
            TypeModel::Struct(s) => struct_comes_back(types, s),
            TypeModel::Enum(variants) => enum_comes_back(types, variants),
            _ => true,
        }
}

/// Whether a tag suits the element that an event opens: it has the
/// element's local name and, if it has a namespace, the element's; or no
/// tag is given and the type names itself.
pub open spec fn tag_suits(
    types: Seq<TypeModel>,
    ty: int,
    tag: Option<TagModel>,
    event: EventModel,
) -> bool {
    match tag {
        Some(t) => t.local_name == event.local_name && (t.namespace is None || t.namespace
            == event.namespace),
        None => names_itself(types, ty),
    }
}

/// Whether an event opens an element that nothing takes unless it takes
/// the element of `event` too: it has the same local name, and no
/// namespace or the same.
pub open spec fn opens_like(first: EventModel, event: EventModel) -> bool {
    &&& first.opens()
    &&& first.local_name == event.local_name
    &&& first.namespace is None || first.namespace == event.namespace
}

/// The field that takes an element is the first that does.
proof fn lemma_tag_field_is_first(fields: Seq<FieldModel>, event: EventModel, n: nat)
    requires
        n <= fields.len(),
    ensures
        match tag_field(fields, event, n) {
            Some(f) => 0 <= f < n && takes(fields[f], event) && forall|g: int|
                0 <= g < f ==> !takes(#[trigger] fields[g], event),
            None => forall|g: int| 0 <= g < n ==> !takes(#[trigger] fields[g], event),
        },
    decreases n,
{
    if n > 0 {
        lemma_tag_field_is_first(fields, event, (n - 1) as nat);
    }
}

/// The first field that takes an element is the field found for it.
proof fn lemma_first_is_tag_field(fields: Seq<FieldModel>, event: EventModel, f: int, n: nat)
    requires
        0 <= f < n <= fields.len(),
        takes(fields[f], event),
        forall|g: int| 0 <= g < f ==> !takes(#[trigger] fields[g], event),
    ensures
        tag_field(fields, event, n) == Some(f),
    decreases n,
{
    lemma_tag_field_is_first(fields, event, (n - 1) as nat);
    if f < n - 1 {
        lemma_first_is_tag_field(fields, event, f, (n - 1) as nat);
    }
}

/// The field found of a kind is of that kind.
proof fn lemma_kind_field_is_of_kind(fields: Seq<FieldModel>, ty: FieldType, n: nat)
    requires
        n <= fields.len(),
        kind_field(fields, ty, n) is Some,
    ensures
        0 <= kind_field(fields, ty, n)->0 < n,
        fields[kind_field(fields, ty, n)->0].ty == ty,
    decreases n,
{
    if n > 0 && kind_field(fields, ty, (n - 1) as nat) is Some {
        lemma_kind_field_is_of_kind(fields, ty, (n - 1) as nat);
    }
}

/// The variant that takes an element by its name is the first that does.
proof fn lemma_named_variant_is_first(variants: Seq<VariantModel>, event: EventModel, n: nat)
    requires
        n <= variants.len(),
    ensures
        match named_variant(variants, event, n) {
            Some(i) => 0 <= i < n && variant_takes(variants[i], event) && forall|j: int|
                0 <= j < i ==> !variant_takes(#[trigger] variants[j], event),
            None => forall|j: int| 0 <= j < n ==> !variant_takes(#[trigger] variants[j], event),
        },
    decreases n,
{
    if n > 0 {
        lemma_named_variant_is_first(variants, event, (n - 1) as nat);
    }
}

/// The first variant that takes an element by its name is the variant
/// found for it.
proof fn lemma_first_is_named_variant(
    variants: Seq<VariantModel>,
    event: EventModel,
    i: int,
    n: nat,
)
    requires
        0 <= i < n <= variants.len(),
        variant_takes(variants[i], event),
        forall|j: int| 0 <= j < i ==> !variant_takes(#[trigger] variants[j], event),
    ensures
        named_variant(variants, event, n) == Some(i),
    decreases n,
{
    lemma_named_variant_is_first(variants, event, (n - 1) as nat);
    if i < n - 1 {
        lemma_first_is_named_variant(variants, event, i, (n - 1) as nat);
    }
}

/// The variant found that takes every tag is such a variant.
proof fn lemma_other_variant_is_other(variants: Seq<VariantModel>, n: nat)
    requires
        n <= variants.len(),
        other_variant(variants, n) is Some,
    ensures
        0 <= other_variant(variants, n)->0 < n,
        variants[other_variant(variants, n)->0].other,
    decreases n,
{
    if n > 0 && other_variant(variants, (n - 1) as nat) is Some {
        lemma_other_variant_is_other(variants, (n - 1) as nat);
    }
}

/// A run of text gives one entry for each text field.
proof fn lemma_text_entries(fields: Seq<FieldModel>, text: Seq<char>, n: nat)
    requires
        n <= fields.len(),
    ensures
        text_entries(fields, text, n).len() == count_fields(fields, FieldType::Text, n),
        forall|k: int|
            0 <= k < text_entries(fields, text, n).len() ==> {
                let entry = #[trigger] text_entries(fields, text, n)[k];
                0 <= entry.field < n && fields[entry.field].ty == FieldType::Text && entry.value
                    == ValueModel::Text(text)
            },
    decreases n,
{
    if n > 0 {
        lemma_text_entries(fields, text, (n - 1) as nat);
    }
}

/// Entries put in field order stand in field order, and each of them is
/// one of the entries.
pub proof fn lemma_by_field(entries: Seq<EntryModel>, n: nat)
    requires
        n <= entries.len(),
    ensures
        by_field(entries, n).len() == n,
        in_field_order(by_field(entries, n)),
        forall|k: int|
            0 <= k < n ==> entries.take(n as int).contains(#[trigger] by_field(entries, n)[k]),
    decreases n,
{
    if n > 0 {
        lemma_by_field(entries, (n - 1) as nat);
        let before = by_field(entries, (n - 1) as nat);
        let entry = entries[n - 1];
        let at = place_after(before, entry.field, before.len()) as int;
        lemma_place(before, entry.field, before.len());
        let now = by_field(entries, n);
        assert(now == before.insert(at, entry));
        assert forall|i: int, j: int| 0 <= i <= j < now.len() implies (#[trigger] now[i]).field <= (
        #[trigger] now[j]).field by {
            if i < at && j > at {
                assert(now[i] == before[i] && now[j] == before[j - 1]);
            } else if i < at && j < at {
                assert(now[i] == before[i] && now[j] == before[j]);
            } else if i > at {
                assert(now[i] == before[i - 1] && now[j] == before[j - 1]);
            } else if i == at && j > at {
                assert(now[j] == before[j - 1]);
                assert(before[at].field <= before[j - 1].field);
            } else if j == at && i < at {
                assert(now[i] == before[i]);
            }
        }
        assert forall|k: int| 0 <= k < n implies entries.take(n as int).contains(
            #[trigger] now[k],
        ) by {
            if k == at {
                assert(entries.take(n as int)[n - 1] == now[k]);
            } else {
                let old_k = if k < at {
                    k
                } else {
                    k - 1
                };
                assert(now[k] == before[old_k]);
                let early = entries.take(n - 1);
                let j = choose|j: int| 0 <= j < early.len() && early[j] == before[old_k];
                assert(entries.take(n as int)[j] == now[k]);
            }
        }
    }
}

/// Where an entry is put: before it stand entries of its own field and of
/// earlier ones, and at its place one of a later field, if any.
proof fn lemma_place(entries: Seq<EntryModel>, field: int, n: nat)
    requires
        n <= entries.len(),
    ensures
        place_after(entries, field, n) <= n,
        forall|i: int|
            0 <= i < place_after(entries, field, n) ==> (#[trigger] entries[i]).field <= field,
        place_after(entries, field, n) < n ==> entries[place_after(entries, field, n) as int].field
            > field,
    decreases n,
{
    if n > 0 {
        lemma_place(entries, field, (n - 1) as nat);
    }
}

/// Entries that are each canonical are canonical, all of them.
proof fn lemma_canonical_entries_of_each(
    types: Seq<TypeModel>,
    s: StructModel,
    entries: Seq<EntryModel>,
    n: nat,
)
    requires
        n <= entries.len(),
        forall|k: int| 0 <= k < entries.len() ==> canonical_entry(types, s, #[trigger] entries[k]),
    ensures
        canonical_entries(types, s, entries, n),
    decreases n,
{
    if n > 0 {
        lemma_canonical_entries_of_each(types, s, entries, (n - 1) as nat);
    }
}

/// A canonical entry can be written.
proof fn lemma_canonical_entry_is_written(types: Seq<TypeModel>, s: StructModel, entry: EntryModel)
    requires
        canonical_entry(types, s, entry),
    ensures
        encode_entry(types, s, entry) is Some,
{
}

/// Every value that is read is in canonical form and can be written with
/// any tag that suits the element it was read from; what it is written as
/// opens like that element.
pub proof fn lemma_decoded_is_canonical(
    types: Seq<TypeModel>,
    ty: int,
    events: Seq<EventModel>,
    at: int,
    tag: Option<TagModel>,
)
    requires
        schema_wf(types),
        schema_comes_back(types),
        decode(types, ty, events, at) is Ok,
        tag_suits(types, ty, tag, events[at]),
    ensures
        canonical(types, ty, decode(types, ty, events, at)->Ok_0.0, tag),
        encode(types, ty, decode(types, ty, events, at)->Ok_0.0, tag) is Some,
        encode(types, ty, decode(types, ty, events, at)->Ok_0.0, tag)->0.len() > 0,
        opens_like(encode(types, ty, decode(types, ty, events, at)->Ok_0.0, tag)->0[0], events[at]),
    decreases events.len() - at, 2int,
{
    let event = events[at];
    match types[ty] {
        TypeModel::Enum(variants) => {
            let i = pick_variant(variants, event)->0;
            lemma_named_variant_is_first(variants, event, variants.len());
            if named_variant(variants, event, variants.len()) is None {
                lemma_other_variant_is_other(variants, variants.len());
            }
            let shape = variants[i].shape;
            let inner = tag_of_variant(variants[i]);
            lemma_decoded_plain_is_canonical(types, shape, events, at, inner);
            let payload = decode_plain(types, shape, events, at)->Ok_0.0;
            let first = encode_plain(types, shape, payload, inner)->0[0];
            if variants[i].other {
                assert forall|j: int| 0 <= j < variants.len() implies !variant_takes(
                    #[trigger] variants[j],
                    first,
                ) by {
                    if variant_takes(variants[j], first) {
                        assert(variant_takes(variants[j], event));
                    }
                }
                lemma_named_variant_is_first(variants, first, variants.len());
            } else {
                assert(variant_takes(variants[i], first));
                assert forall|j: int| 0 <= j < i implies !variant_takes(
                    #[trigger] variants[j],
                    first,
                ) by {
                    if variant_takes(variants[j], first) {
                        assert(variant_takes(variants[j], event));
                    }
                }
                lemma_first_is_named_variant(variants, first, i, variants.len());
            }
        },
        _ => {
            lemma_decoded_plain_is_canonical(types, ty, events, at, tag);
        },
    }
}

/// The same for a type that is no enum. What is written has the names of
/// the tag, or the local name of the element and no namespace.
pub proof fn lemma_decoded_plain_is_canonical(
    types: Seq<TypeModel>,
    ty: int,
    events: Seq<EventModel>,
    at: int,
    tag: Option<TagModel>,
)
    requires
        schema_wf(types),
        schema_comes_back(types),
        decode_plain(types, ty, events, at) is Ok,
        tag_suits(types, ty, tag, events[at]),
    ensures
        canonical_plain(types, ty, decode_plain(types, ty, events, at)->Ok_0.0, tag),
        encode_plain(types, ty, decode_plain(types, ty, events, at)->Ok_0.0, tag) is Some,
        encode_plain(types, ty, decode_plain(types, ty, events, at)->Ok_0.0, tag)->0.len() > 0,
        first_is_named(
            encode_plain(types, ty, decode_plain(types, ty, events, at)->Ok_0.0, tag)->0[0],
            tag,
            events[at],
        ),
    decreases events.len() - at, 1int,
{
    let value = decode_plain(types, ty, events, at)->Ok_0.0;
    match types[ty] {
        TypeModel::Text(_) => {
            let text = value->Text_0;
            lemma_element_opens(
                tag->0,
                seq![],
                if text.len() == 0 {
                    seq![]
                } else {
                    seq![EventModel::text(text)]
                },
            );
        },
        TypeModel::Any => {
            lemma_element_opens(tag->0, seq![], seq![]);
        },
        TypeModel::Struct(s) => {
            lemma_decoded_struct_is_canonical(types, s, events, at, tag);
        },
        TypeModel::Enum(_) => {},
    }
}

/// Whether the event that opens what was written has the names it was
/// written with: those of the tag, or the local name of the element it was
/// read from and no namespace.
pub open spec fn first_is_named(first: EventModel, tag: Option<TagModel>, event: EventModel) -> bool {
    &&& first.opens()
    &&& match tag {
        Some(t) => first.local_name == t.local_name && first.namespace == t.namespace,
        None => first.local_name == event.local_name && first.namespace is None,
    }
}

/// The same for a struct.
pub proof fn lemma_decoded_struct_is_canonical(
    types: Seq<TypeModel>,
    s: StructModel,
    events: Seq<EventModel>,
    at: int,
    tag: Option<TagModel>,
)
    requires
        schema_wf(types),
        schema_comes_back(types),
        struct_wf(types, s),
        struct_comes_back(types, s),
        decode_struct(types, s, events, at) is Ok,
        match tag {
            Some(t) => t.local_name == events[at].local_name,
            None => has_own_name(s),
        },
    ensures
        canonical_struct(types, s, decode_struct(types, s, events, at)->Ok_0.0, tag),
        encode_struct(types, s, decode_struct(types, s, events, at)->Ok_0.0, tag) is Some,
        encode_struct(types, s, decode_struct(types, s, events, at)->Ok_0.0, tag)->0.len() > 0,
        first_is_named(
            encode_struct(types, s, decode_struct(types, s, events, at)->Ok_0.0, tag)->0[0],
            tag,
            events[at],
        ),
    decreases events.len() - at, 0int,
{
    let start = events[at];
    let value = decode_struct(types, s, events, at)->Ok_0.0;
    lemma_decoded_attributes_are_canonical(s, start.attributes, start.attributes.len());
    let raw = if start.kind == EventKind::Empty {
        Seq::<EntryModel>::empty()
    } else {
        lemma_decoded_children_are_canonical(types, s, start.name, events, at + 1, seq![]);
        decode_children(types, s, start.name, events, at + 1, seq![])->Ok_0.0
    };
    let content = by_field(raw, raw.len());
    assert(value->content == content);
    lemma_by_field(raw, raw.len());
    assert forall|k: int| 0 <= k < content.len() implies canonical_entry(
        types,
        s,
        #[trigger] content[k],
    ) by {
        let j = choose|j: int| 0 <= j < raw.take(raw.len() as int).len() && raw.take(
            raw.len() as int,
        )[j] == content[k];
        assert(raw[j] == content[k]);
    }
    lemma_canonical_entries_of_each(types, s, content, content.len());
    lemma_canonical_entries_fit(types, s, content, content.len());
    assert forall|k: int| 0 <= k < content.len() implies encode_entry(
        types,
        s,
        #[trigger] content[k],
    ) is Some by {
        lemma_canonical_entry_is_written(types, s, content[k]);
    }
    lemma_content_is_written(types, s, content, content.len(), s.fields.len());
    lemma_content_upto_all(types, s, content, s.fields.len());
    let named = match tag {
        Some(t) => t,
        None => TagModel { name: value->name, local_name: value->name, namespace: None },
    };
    lemma_element_opens(
        named,
        attr_list(s, value->attributes, value->attributes.len())->0,
        encode_content(types, s, content, s.fields.len())->0,
    );
}

/// All the content of a struct that is read is canonical, given that what
/// was read before is.
pub proof fn lemma_decoded_children_are_canonical(
    types: Seq<TypeModel>,
    s: StructModel,
    name: Seq<char>,
    events: Seq<EventModel>,
    p: int,
    entries: Seq<EntryModel>,
)
    requires
        schema_wf(types),
        schema_comes_back(types),
        struct_wf(types, s),
        struct_comes_back(types, s),
        decode_children(types, s, name, events, p, entries) is Ok,
        forall|k: int| 0 <= k < entries.len() ==> canonical_entry(types, s, #[trigger] entries[k]),
    ensures
        forall|k: int|
            0 <= k < decode_children(types, s, name, events, p, entries)->Ok_0.0.len()
                ==> canonical_entry(
                types,
                s,
                #[trigger] decode_children(types, s, name, events, p, entries)->Ok_0.0[k],
            ),
    decreases events.len() - p, 3int,
{
    let event = events[p];
    if event.opens() {
        match field_for(s.fields, event) {
            Some(f) => {
                lemma_tag_field_is_first(s.fields, event, s.fields.len());
                if tag_field(s.fields, event, s.fields.len()) is None {
                    lemma_kind_field_is_of_kind(s.fields, FieldType::Untagged, s.fields.len());
                }
                let field = s.fields[f];
                let tag = if field.ty == FieldType::Tag {
                    Some(field_tag(field))
                } else {
                    None
                };
                lemma_decoded_is_canonical(types, field.shape, events, p, tag);
                let (value, next) = decode(types, field.shape, events, p)->Ok_0;
                let entry = EntryModel { field: f, value };
                let first = encode(types, field.shape, value, tag)->0[0];
                if field.ty == FieldType::Tag {
                    assert(encode(types, field.shape, value, tag) == encode_plain(
                        types,
                        field.shape,
                        value,
                        tag,
                    ));
                    lemma_decoded_plain_is_canonical(types, field.shape, events, p, tag);
                    assert(takes(field, first));
                    assert forall|g: int| 0 <= g < f implies !takes(
                        #[trigger] s.fields[g],
                        first,
                    ) by {
                        if takes(s.fields[g], first) {
                            assert(takes(s.fields[g], event));
                        }
                    }
                    lemma_first_is_tag_field(s.fields, first, f, s.fields.len());
                } else {
                    assert forall|g: int| 0 <= g < s.fields.len() implies !takes(
                        #[trigger] s.fields[g],
                        first,
                    ) by {
                        if takes(s.fields[g], first) {
                            assert(takes(s.fields[g], event));
                        }
                    }
                    lemma_tag_field_is_first(s.fields, first, s.fields.len());
                }
                assert(canonical_entry(types, s, entry));
                let more = entries.push(entry);
                assert forall|k: int| 0 <= k < more.len() implies canonical_entry(
                    types,
                    s,
                    #[trigger] more[k],
                ) by {
                    if k < entries.len() {
                        assert(more[k] == entries[k]);
                    }
                }
                lemma_decoded_children_are_canonical(types, s, name, events, next, more);
            },
            None => {
                let next = skip_element(events, p)->Ok_0;
                lemma_decoded_children_are_canonical(types, s, name, events, next, entries);
            },
        }
    } else if event.kind == EventKind::Text {
        let added = text_entries(s.fields, event.content, s.fields.len());
        lemma_text_entries(s.fields, event.content, s.fields.len());
        let more = entries + added;
        assert forall|k: int| 0 <= k < more.len() implies canonical_entry(
            types,
            s,
            #[trigger] more[k],
        ) by {
            if k < entries.len() {
                assert(more[k] == entries[k]);
            } else {
                assert(added.len() == 1);
                assert(more[k] == added[0]);
                assert(added =~= seq![added[0]]);
            }
        }
        lemma_decoded_children_are_canonical(types, s, name, events, p + 1, more);
    } else if event.kind == EventKind::Comment {
        lemma_decoded_children_are_canonical(types, s, name, events, p + 1, entries);
    }
}

/// What is read comes back: the value read from any element that is
/// accepted can be written with any tag that suits the element, and what
/// is written is read as the same value, all of it.
pub proof fn lemma_accepted_comes_back(
    types: Seq<TypeModel>,
    ty: int,
    events: Seq<EventModel>,
    at: int,
    tag: Option<TagModel>,
)
    requires
        schema_wf(types),
        schema_comes_back(types),
        decode(types, ty, events, at) is Ok,
        tag_suits(types, ty, tag, events[at]),
    ensures
        encode(types, ty, decode(types, ty, events, at)->Ok_0.0, tag) matches Some(written)
            && decode(types, ty, written, 0) == Ok::<(ValueModel, int), XmlDeError>(
            (decode(types, ty, events, at)->Ok_0.0, written.len() as int),
        ),
{
    lemma_decoded_is_canonical(types, ty, events, at, tag);
    lemma_encoded_is_decoded(types, ty, decode(types, ty, events, at)->Ok_0.0, tag);
}

} // verus!
