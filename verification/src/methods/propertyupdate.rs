//! The body of a PROPPATCH request.
//!
//! The body is decoded twice: once with the properties as values of the
//! resource kind, once with only their tags, so that the tag of a property
//! is known also where the resource kind does not know the property.

use vstd::prelude::*;
use crate::elements::{inner_struct, make_struct, struct_at, unnamed_field};
use crate::error::XmlDeError;
use crate::methods::proppatch::{
    Operation, OperationModel, PropertyElement, PropertyupdateElement, RemovePropertyElement,
    SetPropertyElement, TagName,
};
use crate::resource::value_views;
use crate::text::views;
use crate::xml::document::decode_document;
use crate::xml::dynamic::{ValueModel, XmlValue};
use crate::xml::event::{EventModel, XmlEvent};
use crate::xml::reader::{read_events, xml_events};
use crate::xml::schema::{
    count_fields, count_others, EnumDef, Field, FieldModel, FieldType, NamedStruct, Schema,
    schema_wf, struct_wf, StructAttrs, StructModel, TypeDef, TypeModel, Variant, VariantModel,
};
use crate::xml::typed::{lemma_extend_wf, XmlType};

verus! {

/// A child element that is taken by its name alone.
pub open spec fn plain_field(name: Seq<char>, shape: int) -> FieldModel {
    FieldModel {
        ty: FieldType::Tag,
        name,
        tag: name,
        ns: None,
        flatten: false,
        required: true,
        shape,
    }
}

/// A variant that is taken by its name alone.
pub open spec fn plain_variant(name: Seq<char>, shape: int) -> VariantModel {
    VariantModel { name, tag: name, ns: None, shape, other: false }
}

/// `<propertyupdate>`: any number of operations.
pub open spec fn update_struct(operation: int) -> StructModel {
    StructModel {
        root: Some("propertyupdate"@),
        ns: None,
        allow_invalid: false,
        fields: seq![unnamed_field(FieldType::Untagged, operation, false, true)],
    }
}

/// The types of a property update that stand at the place `base` of a
/// table, with the type of a property to set at the place `prop`: the
/// root; the operations; `<set>` and its `<prop>`; `<remove>` and its
/// `<prop>`; and an element of which only the name counts.
pub open spec fn update_types(base: int, prop: int) -> Seq<TypeModel> {
    seq![
        TypeModel::Struct(update_struct(base + 1)),
        TypeModel::Enum(seq![plain_variant("set"@, base + 2), plain_variant("remove"@, base + 4)]),
        TypeModel::Struct(inner_struct(seq![plain_field("prop"@, base + 3)])),
        TypeModel::Struct(inner_struct(seq![unnamed_field(FieldType::Untagged, prop, true, false)])),
        TypeModel::Struct(inner_struct(seq![plain_field("prop"@, base + 5)])),
        TypeModel::Struct(
            inner_struct(seq![unnamed_field(FieldType::Untagged, base + 6, true, false)]),
        ),
        TypeModel::Struct(
            StructModel {
                root: None,
                ns: None,
                allow_invalid: true,
                fields: seq![unnamed_field(FieldType::TagName, 0, true, false)],
            },
        ),
    ]
}

/// The table for the values: the types of the properties, then those of
/// the update.
pub open spec fn typed_update_types<P: XmlType>() -> Seq<TypeModel> {
    P::spec_types() + update_types(P::spec_types().len() as int, 0)
}

/// The table for the tags: a property to set is read as its name, like one
/// to remove.
pub open spec fn named_update_types() -> Seq<TypeModel> {
    update_types(0, 6)
}

/// The table for the values is well formed.
pub proof fn lemma_typed_update_types_wf<P: XmlType>()
    ensures
        schema_wf(typed_update_types::<P>()),
        struct_wf(typed_update_types::<P>(), update_struct(P::spec_types().len() as int + 1)),
        typed_update_types::<P>()[P::spec_types().len() as int] == TypeModel::Struct(
            update_struct(P::spec_types().len() as int + 1),
        ),
{
    P::types_are_wf();
    reveal_with_fuel(count_fields, 3);
    reveal_with_fuel(count_others, 3);
    let a = P::spec_types();
    let k = a.len() as int;
    let b = update_types(k, 0);
    let all = a + b;
    assert(all[0] == a[0]);
    assert forall|j: int| 0 <= j < b.len() implies match #[trigger] b[j] {
        TypeModel::Struct(s) => struct_wf(all, s),
        TypeModel::Enum(variants) => crate::xml::schema::enum_wf(all, variants),
        _ => true,
    } by {
        assert(all[k + 1] == b[1] && all[k + 2] == b[2] && all[k + 3] == b[3] && all[k + 4] == b[4]
            && all[k + 5] == b[5] && all[k + 6] == b[6]);
    }
    lemma_extend_wf(a, b);
    assert(all[k] == b[0]);
}

/// The table for the tags is well formed.
pub proof fn lemma_named_update_types_wf()
    ensures
        schema_wf(named_update_types()),
        struct_wf(named_update_types(), update_struct(1)),
        named_update_types()[0] == TypeModel::Struct(update_struct(1)),
{
    reveal_with_fuel(count_fields, 3);
    reveal_with_fuel(count_others, 3);
    let b = named_update_types();
    assert(b[1] is Enum && b[2] is Struct && b[3] is Struct && b[4] is Struct && b[5] is Struct
        && b[6] is Struct);
}

/// Adds the types of a property update to a table.
fn push_update_types(types: &mut Vec<TypeDef>, prop: usize)
    requires
        old(types).len() < usize::MAX - 8,
    ensures
        final(types)@.map_values(|t: TypeDef| t@) == old(types)@.map_values(|t: TypeDef| t@)
            + update_types(old(types).len() as int, prop as int),
{
    let base = types.len();
    let ghost before = types@.map_values(|t: TypeDef| t@);
    let ghost target = update_types(base as int, prop as int);
    let mut fields: Vec<Field> = Vec::new();
    fields.push(Field::unnamed(FieldType::Untagged, base + 1, false, true));
    let root = TypeDef::Struct(
        NamedStruct::parse(StructAttrs::rooted("propertyupdate", None), fields),
    );
    assert(root@ =~= target[0]) by {
        assert(fields@.map_values(|f: Field| f@) =~= target[0]->Struct_0.fields);
    }
    let mut variants: Vec<Variant> = Vec::new();
    variants.push(Variant::named("set", "set", None, base + 2));
    variants.push(Variant::named("remove", "remove", None, base + 4));
    let operation = TypeDef::Enum(EnumDef { variants });
    assert(operation@ =~= target[1]) by {
        assert(variants@.map_values(|v: Variant| v@) =~= target[1]->Enum_0);
    }
    let mut fields: Vec<Field> = Vec::new();
    fields.push(Field::tag("prop", "prop", None, base + 3, true, false));
    let set = make_struct(fields);
    assert(set@ =~= target[2]) by {
        assert(fields@.map_values(|f: Field| f@) =~= target[2]->Struct_0.fields);
    }
    let mut fields: Vec<Field> = Vec::new();
    fields.push(Field::unnamed(FieldType::Untagged, prop, true, false));
    let set_prop = make_struct(fields);
    assert(set_prop@ =~= target[3]) by {
        assert(fields@.map_values(|f: Field| f@) =~= target[3]->Struct_0.fields);
    }
    let mut fields: Vec<Field> = Vec::new();
    fields.push(Field::tag("prop", "prop", None, base + 5, true, false));
    let remove = make_struct(fields);
    assert(remove@ =~= target[4]) by {
        assert(fields@.map_values(|f: Field| f@) =~= target[4]->Struct_0.fields);
    }
    let mut fields: Vec<Field> = Vec::new();
    fields.push(Field::unnamed(FieldType::Untagged, base + 6, true, false));
    let remove_prop = make_struct(fields);
    assert(remove_prop@ =~= target[5]) by {
        assert(fields@.map_values(|f: Field| f@) =~= target[5]->Struct_0.fields);
    }
    let mut fields: Vec<Field> = Vec::new();
    fields.push(Field::unnamed(FieldType::TagName, 0, true, false));
    let name = TypeDef::Struct(
        NamedStruct::parse(StructAttrs { root: None, ns: None, allow_invalid: true }, fields),
    );
    assert(name@ =~= target[6]) by {
        assert(fields@.map_values(|f: Field| f@) =~= target[6]->Struct_0.fields);
    }
    types.push(root);
    types.push(operation);
    types.push(set);
    types.push(set_prop);
    types.push(remove);
    types.push(remove_prop);
    types.push(name);
    assert(types@.map_values(|t: TypeDef| t@) =~= before + target);
}

/// The property that a decoded operation holds: what stands in the `<prop>`
/// of its element.
pub open spec fn property_of(operation: ValueModel) -> Option<ValueModel> {
    match operation {
        ValueModel::Variant(_, element) => match element.last(0) {
            Some(prop) => prop.last(0),
            None => None,
        },
        _ => None,
    }
}

/// The property that a decoded operation holds.
pub fn property(operation: &XmlValue) -> (found: Option<&XmlValue>)
    ensures
        match property_of(operation@) {
            Some(v) => found matches Some(x) && x@ == v,
            None => found is None,
        },
{
    match operation {
        XmlValue::Variant(i, element) => {
            assert(operation@ == ValueModel::Variant(*i as int, Box::new(element.model())));
            match element.last(0) {
                Some(prop) => prop.last(0),
                None => None,
            }
        },
        _ => None,
    }
}

/// The tag that a decoded property holds, where it was read as a name.
pub open spec fn tag_of(operation: ValueModel) -> Option<Seq<char>> {
    match property_of(operation) {
        Some(ValueModel::Struct { name, .. }) => Some(name),
        _ => None,
    }
}

/// The tags of the first `n` decoded operations; `None` where one has no
/// tag.
pub open spec fn tags_of(operations: Seq<ValueModel>, n: nat) -> Option<Seq<Seq<char>>>
    decreases n,
{
    if n == 0 {
        Some(seq![])
    } else {
        match (tags_of(operations, (n - 1) as nat), tag_of(operations[n - 1])) {
            (Some(before), Some(tag)) => Some(before.push(tag)),
            _ => None,
        }
    }
}

/// A decoded operation as a typed one: the first variant sets the property
/// that it holds, the second removes the one whose tag it holds.
pub open spec fn operation_of<P: XmlType>(operation: ValueModel) -> Option<OperationModel<P::V>> {
    match operation {
        ValueModel::Variant(i, _) => if i == 0 {
            match property_of(operation) {
                Some(prop) => match P::spec_from_value(prop) {
                    Some(value) => Some(OperationModel::SetProperty(value)),
                    None => None,
                },
                None => None,
            }
        } else if i == 1 {
            match tag_of(operation) {
                Some(tag) => Some(OperationModel::Remove(tag)),
                None => None,
            }
        } else {
            None
        },
        _ => None,
    }
}

/// The first `n` decoded operations as typed ones.
pub open spec fn operations_of<P: XmlType>(operations: Seq<ValueModel>, n: nat) -> Option<
    Seq<OperationModel<P::V>>,
>
    decreases n,
{
    if n == 0 {
        Some(seq![])
    } else {
        match (
            operations_of::<P>(operations, (n - 1) as nat),
            operation_of::<P>(operations[n - 1]),
        ) {
            (Some(before), Some(operation)) => Some(before.push(operation)),
            _ => None,
        }
    }
}

/// The decoded operations of a decoded `<propertyupdate>`.
pub open spec fn decoded_operations(update: ValueModel) -> Seq<ValueModel> {
    update.all(0)
}

/// The operations with the property of each remove named by the tag at
/// its place.
pub open spec fn with_names<V>(operations: Seq<OperationModel<V>>, tags: Seq<Seq<char>>) -> Seq<
    OperationModel<V>,
> {
    Seq::new(
        operations.len(),
        |i: int|
            match operations[i] {
                OperationModel::Remove(own) => OperationModel::Remove(
                    if i < tags.len() {
                        tags[i]
                    } else {
                        own
                    },
                ),
                set => set,
            },
    )
}

/// The operations of a body and the tags of their properties, in document
/// order. A remove holds the tag at its place.
pub open spec fn spec_parse_update<P: XmlType>(events: Seq<EventModel>) -> Result<
    (Seq<OperationModel<P::V>>, Seq<Seq<char>>),
    XmlDeError,
> {
    match decode_document(
        typed_update_types::<P>(),
        update_struct(P::spec_types().len() as int + 1),
        events,
    ) {
        Err(e) => Err(e),
        Ok(typed) => match operations_of::<P>(
            decoded_operations(typed),
            decoded_operations(typed).len(),
        ) {
            None => Err(XmlDeError::InvalidVariant),
            Some(operations) => match decode_document(
                named_update_types(),
                update_struct(1),
                events,
            ) {
                Err(e) => Err(e),
                Ok(named) => match tags_of(
                    decoded_operations(named),
                    decoded_operations(named).len(),
                ) {
                    None => Err(XmlDeError::InvalidVariant),
                    Some(tags) => Ok((with_names(operations, tags), tags)),
                },
            },
        },
    }
}

fn operations_in(update: &XmlValue) -> (operations: Vec<&XmlValue>)
    ensures
        operations@.map_values(|x: &XmlValue| x@) == decoded_operations(update@),
{
    update.all(0)
}

fn typed_operation<P: XmlType>(operation: &XmlValue) -> (typed: Option<Operation<P>>)
    ensures
        match operation_of::<P>(operation@) {
            Some(m) => typed matches Some(x) && x@ == m,
            None => typed is None,
        },
{
    match operation {
        XmlValue::Variant(i, element) => {
            assert(operation@ == ValueModel::Variant(*i as int, Box::new(element.model())));
            if *i == 0 {
                match property(operation) {
                    Some(prop) => match P::from_value(prop) {
                        Some(value) => Some(Operation::SetProperty(SetPropertyElement { prop: value })),
                        None => None,
                    },
                    None => None,
                }
            } else if *i == 1 {
                match tag(operation) {
                    Some(name) => Some(
                        Operation::Remove(
                            RemovePropertyElement {
                                prop: PropertyElement { property: TagName { name } },
                            },
                        ),
                    ),
                    None => None,
                }
            } else {
                None
            }
        },
        _ => None,
    }
}

fn tag(operation: &XmlValue) -> (name: Option<String>)
    ensures
        match tag_of(operation@) {
            Some(t) => name matches Some(x) && x@ == t,
            None => name is None,
        },
{
    match property(operation) {
        Some(name) => match name.name() {
            Some(tag) => Some(tag.clone()),
            None => None,
        },
        None => None,
    }
}

/// Once an operation has no typed form, the list has none.
proof fn lemma_operations_failure_stays<P: XmlType>(operations: Seq<ValueModel>, n: nat, m: nat)
    requires
        n <= m,
        operations_of::<P>(operations, n) is None,
    ensures
        operations_of::<P>(operations, m) is None,
    decreases m,
{
    if n < m {
        lemma_operations_failure_stays::<P>(operations, n, (m - 1) as nat);
    }
}

/// Once an operation has no tag, the list has none.
proof fn lemma_tags_failure_stays(operations: Seq<ValueModel>, n: nat, m: nat)
    requires
        n <= m,
        tags_of(operations, n) is None,
    ensures
        tags_of(operations, m) is None,
    decreases m,
{
    if n < m {
        lemma_tags_failure_stays(operations, n, (m - 1) as nat);
    }
}

/// Names the property of each remove by the tag at its place.
fn name_removes<P: XmlType>(operations: Vec<Operation<P>>, names: &Vec<String>) -> (named: Vec<
    Operation<P>,
>)
    ensures
        value_views(named@) == with_names(value_views(operations@), views(names@)),
        forall|i: int|
            0 <= i < named.len() && i < names.len() ==> (#[trigger] named[i] matches Operation::Remove(
                remove,
            ) ==> remove.prop.property.name@ == names[i]@),
{
    let ghost all = value_views(operations@);
    let mut named: Vec<Operation<P>> = Vec::new();
    for operation in it: operations
        invariant
            it.seq() == operations@,
            all == value_views(operations@),
            named.len() == it.index(),
            forall|j: int|
                0 <= j < named.len() ==> (#[trigger] named[j])@ == with_names(
                    all,
                    views(names@),
                )[j],
            forall|j: int|
                0 <= j < named.len() && j < names.len() ==> (
                #[trigger] named[j] matches Operation::Remove(remove)
                    ==> remove.prop.property.name@ == names[j]@),
    {
        let ghost i = it.index();
        assert(all[i] == operation@);
        let next = match operation {
            Operation::Remove(remove) => if named.len() < names.len() {
                assert(views(names@)[i] == names[i]@);
                Operation::Remove(
                    RemovePropertyElement {
                        prop: PropertyElement {
                            property: TagName { name: names[named.len()].clone() },
                        },
                    },
                )
            } else {
                Operation::Remove(remove)
            },
            set => set,
        };
        assert(next@ == with_names(all, views(names@))[i]);
        named.push(next);
    }
    assert(value_views(named@) =~= with_names(all, views(names@)));
    named
}

impl<P: XmlType> PropertyupdateElement<P> {
    /// Decodes the events of a body: the operations with their properties
    /// as values of the resource kind, and beside them the tags of the
    /// properties. Each remove holds the tag that stands at its place.
    #[verifier::loop_isolation(false)]
    pub fn parse_events(events: &Vec<XmlEvent>) -> (parsed: Result<
        (PropertyupdateElement<P>, Vec<String>),
        XmlDeError,
    >)
        ensures
            match spec_parse_update::<P>(crate::xml::event::event_views(events@)) {
                Ok((operations, tags)) => parsed matches Ok((update, names)) && value_views(
                    update.operations@,
                ) == operations && views(names@) == tags,
                Err(e) => parsed matches Err(x) && x == e,
            },
            parsed matches Ok((update, names)) ==> forall|i: int|
                0 <= i < update.operations.len() && i < names.len() ==> (
                #[trigger] update.operations[i] matches Operation::Remove(remove)
                    ==> remove.prop.property.name@ == names[i]@),
    {
        proof {
            P::types_are_wf();
            lemma_typed_update_types_wf::<P>();
            lemma_named_update_types_wf();
        }
        let mut types = P::types();
        let base = types.len();
        push_update_types(&mut types, 0);
        let typed_schema = Schema { types };
        assert(typed_schema@ =~= typed_update_types::<P>());
        let mut types: Vec<TypeDef> = Vec::new();
        push_update_types(&mut types, 6);
        let named_schema = Schema { types };
        assert(named_schema@ =~= named_update_types());
        let (typed_root, named_root) = match (
            struct_at(&typed_schema, base),
            struct_at(&named_schema, 0),
        ) {
            (Some(t), Some(n)) => (t, n),
            _ => {
                return Err(XmlDeError::InvalidTag);
            },
        };
        // Extract the operations.
        let typed = match typed_root.parse_events(&typed_schema, events) {
            Ok(typed) => typed,
            Err(e) => {
                return Err(e);
            },
        };
        let decoded = operations_in(&typed);
        let ghost models = decoded@.map_values(|x: &XmlValue| x@);
        let mut operations: Vec<Operation<P>> = Vec::new();
        let mut i: usize = 0;
        assert(value_views(operations@) =~= seq![]);
        while i < decoded.len()
            invariant
                i <= decoded.len(),
                models == decoded@.map_values(|x: &XmlValue| x@),
                operations_of::<P>(models, i as nat) == Some(value_views(operations@)),
            decreases decoded.len() - i,
        {
            let ghost before = value_views(operations@);
            assert(models[i as int] == decoded[i as int]@);
            match typed_operation::<P>(decoded[i]) {
                Some(operation) => {
                    operations.push(operation);
                    assert(value_views(operations@) =~= before.push(operation@));
                },
                None => {
                    proof {
                        lemma_operations_failure_stays::<P>(models, (i + 1) as nat, models.len());
                    }
                    return Err(XmlDeError::InvalidVariant);
                },
            }
            i = i + 1;
        }
        // Extract the tags of all properties, known to the resource or not.
        let named = match named_root.parse_events(&named_schema, events) {
            Ok(named) => named,
            Err(e) => {
                return Err(e);
            },
        };
        let decoded = operations_in(&named);
        let ghost models = decoded@.map_values(|x: &XmlValue| x@);
        let mut propnames: Vec<String> = Vec::new();
        let mut i: usize = 0;
        assert(views(propnames@) =~= seq![]);
        while i < decoded.len()
            invariant
                i <= decoded.len(),
                models == decoded@.map_values(|x: &XmlValue| x@),
                tags_of(models, i as nat) == Some(views(propnames@)),
            decreases decoded.len() - i,
        {
            let ghost before = views(propnames@);
            assert(models[i as int] == decoded[i as int]@);
            match tag(decoded[i]) {
                Some(name) => {
                    propnames.push(name);
                    assert(views(propnames@) =~= before.push(name@));
                },
                None => {
                    proof {
                        lemma_tags_failure_stays(models, (i + 1) as nat, models.len());
                    }
                    return Err(XmlDeError::InvalidVariant);
                },
            }
            i = i + 1;
        }
        let operations = name_removes(operations, &propnames);
        Ok((PropertyupdateElement { operations }, propnames))
    }

    /// Decodes a body.
    pub fn parse_str(body: &str) -> (parsed: Result<
        (PropertyupdateElement<P>, Vec<String>),
        XmlDeError,
    >)
        ensures
            match spec_parse_update::<P>(xml_events(body@)) {
                Ok((operations, tags)) => parsed matches Ok((update, names)) && value_views(
                    update.operations@,
                ) == operations && views(names@) == tags,
                Err(e) => parsed matches Err(x) && x == e,
            },
            parsed matches Ok((update, names)) ==> forall|i: int|
                0 <= i < update.operations.len() && i < names.len() ==> (
                #[trigger] update.operations[i] matches Operation::Remove(remove)
                    ==> remove.prop.property.name@ == names[i]@),
    {
        let events = read_events(body);
        Self::parse_events(&events)
    }
}

} // verus!
