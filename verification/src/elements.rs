//! The request elements shared by PROPFIND and REPORT.

use vstd::prelude::*;
use crate::error::XmlDeError;
use crate::xml::de::kind_field;
use crate::xml::decoded::{names_itself, schema_comes_back};
use crate::xml::document::decode_document;
use crate::xml::dynamic::{ValueModel, XmlValue};
use crate::xml::reader::xml_events;
use crate::xml::schema::{
    count_fields, count_others, EnumDef, Field, FieldModel, FieldType, NamedStruct, Schema,
    schema_wf, struct_wf, StructAttrs, StructModel, TypeDef, TypeModel, Variant, VariantModel,
};

verus! {

/// The namespace of WebDAV.
pub fn ns_dav() -> (ns: &'static str)
    ensures
        ns@ == "DAV:"@,
{
    "DAV:"
}

/// The namespace of CalDAV.
pub fn ns_caldav() -> (ns: &'static str)
    ensures
        ns@ == "urn:ietf:params:xml:ns:caldav"@,
{
    "urn:ietf:params:xml:ns:caldav"
}

/// The namespace of the calendar extensions of Apple.
pub fn ns_ical() -> (ns: &'static str)
    ensures
        ns@ == "http://apple.com/ns/ical/"@,
{
    "http://apple.com/ns/ical/"
}

/// A property asked for by its tag.
#[derive(Debug, Clone)]
pub struct Propname(pub String);

/// `<prop>`: the properties asked for, in document order.
#[derive(Debug)]
pub struct PropElement(pub Vec<Propname>);

/// What a query asks for.
#[derive(Debug)]
pub enum PropfindType {
    /// The names of all properties, without values.
    Propname,
    /// All properties.
    Allprop,
    /// The listed properties.
    Prop(PropElement),
}

/// `<propfind>`: the body of a PROPFIND request.
#[derive(Debug)]
pub struct PropfindElement {
    pub prop: PropfindType,
}

impl View for PropElement {
    type V = Seq<Seq<char>>;

    open spec fn view(&self) -> Seq<Seq<char>> {
        self.0@.map_values(|p: Propname| p.0@)
    }
}

pub enum PropfindModel {
    Propname,
    Allprop,
    Prop(Seq<Seq<char>>),
}

impl View for PropfindType {
    type V = PropfindModel;

    open spec fn view(&self) -> PropfindModel {
        match self {
            PropfindType::Propname => PropfindModel::Propname,
            PropfindType::Allprop => PropfindModel::Allprop,
            PropfindType::Prop(list) => PropfindModel::Prop(list@),
        }
    }
}

impl View for PropfindElement {
    type V = PropfindModel;

    open spec fn view(&self) -> PropfindModel {
        self.prop@
    }
}

/// A field without a name.
pub open spec fn unnamed_field(ty: FieldType, shape: int, required: bool, flatten: bool) -> FieldModel {
    FieldModel { ty, name: seq![], tag: seq![], ns: None, flatten, required, shape }
}

/// A child element of WebDAV.
pub open spec fn dav_field(name: Seq<char>, shape: int, required: bool, flatten: bool) -> FieldModel {
    FieldModel {
        ty: FieldType::Tag,
        name,
        tag: name,
        ns: Some("DAV:"@),
        flatten,
        required,
        shape,
    }
}

/// A variant of WebDAV.
pub open spec fn dav_variant(name: Seq<char>, shape: int) -> VariantModel {
    VariantModel { name, tag: name, ns: Some("DAV:"@), shape, other: false }
}

/// A struct that is no root.
pub open spec fn inner_struct(fields: Seq<FieldModel>) -> StructModel {
    StructModel { root: None, ns: None, allow_invalid: false, fields }
}

/// `<propfind>`: one child, which says what is asked for.
pub open spec fn propfind_struct() -> StructModel {
    StructModel {
        root: Some("propfind"@),
        ns: Some("DAV:"@),
        allow_invalid: false,
        fields: seq![unnamed_field(FieldType::Untagged, 1, true, false)],
    }
}

/// The types of a PROPFIND body: the root; the three ways to ask; the
/// element without content; `<prop>`, which holds any number of elements;
/// and an element of which only the name counts.
pub open spec fn propfind_types() -> Seq<TypeModel> {
    seq![
        TypeModel::Struct(propfind_struct()),
        TypeModel::Enum(
            seq![
                dav_variant("propname"@, 2),
                dav_variant("allprop"@, 2),
                dav_variant("prop"@, 3),
            ],
        ),
        TypeModel::Struct(inner_struct(seq![])),
        TypeModel::Struct(inner_struct(seq![unnamed_field(FieldType::Untagged, 4, false, true)])),
        TypeModel::Struct(inner_struct(seq![unnamed_field(FieldType::TagName, 0, true, false)])),
    ]
}

/// The table of the types of a PROPFIND body is well formed.
pub proof fn lemma_propfind_types_wf()
    ensures
        schema_wf(propfind_types()),
        struct_wf(propfind_types(), propfind_struct()),
{
    reveal_with_fuel(count_fields, 3);
    reveal_with_fuel(count_others, 4);
    let types = propfind_types();
    assert(types[0] == TypeModel::Struct(propfind_struct()));
    assert(types[1] is Enum);
    assert(types[2] is Struct && types[3] is Struct && types[4] is Struct);
}

/// What is read from a PROPFIND body can always be written, and comes
/// back.
pub proof fn lemma_propfind_types_come_back()
    ensures
        schema_comes_back(propfind_types()),
{
    reveal_with_fuel(count_fields, 3);
    reveal_with_fuel(kind_field, 3);
    let types = propfind_types();
    assert(types[0] == TypeModel::Struct(propfind_struct()));
    assert(types[1] is Enum);
    assert(types[2] is Struct && types[3] is Struct && types[4] is Struct);
    assert(names_itself(types, 1));
    assert(names_itself(types, 4));
}

/// The struct of a type of a table.
pub fn struct_at(schema: &Schema, ty: usize) -> (s: Option<&NamedStruct>)
    ensures
        match s {
            Some(named) => ty < schema@.len() && schema@[ty as int] == TypeModel::Struct(named@),
            None => !(ty < schema@.len() && schema@[ty as int] is Struct),
        },
{
    if ty >= schema.types.len() {
        return None;
    }
    assert(schema@[ty as int] == schema.types[ty as int]@);
    match &schema.types[ty] {
        TypeDef::Struct(s) => Some(s),
        _ => None,
    }
}

/// A struct that is no root, of the given fields.
pub fn make_struct(fields: Vec<Field>) -> (def: TypeDef)
    ensures
        def@ == TypeModel::Struct(inner_struct(fields@.map_values(|f: Field| f@))),
{
    TypeDef::Struct(NamedStruct::parse(StructAttrs::plain(), fields))
}

/// The names that the children of a `<prop>` element stand for: their
/// element names, in document order.
pub open spec fn names_of(items: Seq<ValueModel>, n: nat) -> Seq<Seq<char>>
    decreases n,
{
    if n == 0 {
        seq![]
    } else {
        let before = names_of(items, (n - 1) as nat);
        match items[n - 1] {
            ValueModel::Struct { name, .. } => before.push(name),
            _ => before,
        }
    }
}

/// What a decoded value of one of the three ways to ask stands for, if it is
/// one.
pub open spec fn query_model(value: ValueModel) -> Option<PropfindModel> {
    match value {
        ValueModel::Variant(i, payload) => if i == 0 {
            Some(PropfindModel::Propname)
        } else if i == 1 {
            Some(PropfindModel::Allprop)
        } else if i == 2 {
            Some(PropfindModel::Prop(names_of(payload.all(0), payload.all(0).len())))
        } else {
            None
        },
        _ => None,
    }
}

/// What a decoded `<propfind>` stands for.
pub open spec fn propfind_model(value: ValueModel) -> Option<PropfindModel> {
    match value.last(0) {
        Some(query) => query_model(query),
        None => None,
    }
}

/// The body of a PROPFIND request as the events of its text give it.
pub open spec fn spec_parse_propfind(body: Seq<char>) -> Result<PropfindModel, XmlDeError> {
    match decode_document(propfind_types(), propfind_struct(), xml_events(body)) {
        Err(e) => Err(e),
        Ok(value) => match propfind_model(value) {
            Some(query) => Ok(query),
            None => Err(XmlDeError::InvalidVariant),
        },
    }
}

impl PropfindType {
    /// The typed value of a decoded way to ask.
    pub fn from_value(value: &XmlValue) -> (query: Option<PropfindType>)
        ensures
            match query_model(value@) {
                Some(m) => query matches Some(q) && q@ == m,
                None => query is None,
            },
    {
        match value {
            XmlValue::Variant(i, payload) => {
                assert(value@ == ValueModel::Variant(*i as int, Box::new(payload.model())));
                if *i == 0 {
                    Some(PropfindType::Propname)
                } else if *i == 1 {
                    Some(PropfindType::Allprop)
                } else if *i == 2 {
                    let items = payload.all(0);
                    let ghost models = items@.map_values(|x: &XmlValue| x@);
                    let mut names: Vec<Propname> = Vec::new();
                    let mut k: usize = 0;
                    assert(names@.map_values(|p: Propname| p.0@) =~= seq![]);
                    while k < items.len()
                        invariant
                            k <= items.len(),
                            models == items@.map_values(|x: &XmlValue| x@),
                            names@.map_values(|p: Propname| p.0@) == names_of(models, k as nat),
                        decreases items.len() - k,
                    {
                        let ghost before = names@.map_values(|p: Propname| p.0@);
                        assert(models[k as int] == items[k as int]@);
                        match items[k].name() {
                            Some(name) => {
                                names.push(Propname(name.clone()));
                                assert(names@.map_values(|p: Propname| p.0@) =~= before.push(
                                    name@,
                                ));
                            },
                            None => {},
                        }
                        k = k + 1;
                    }
                    Some(PropfindType::Prop(PropElement(names)))
                } else {
                    None
                }
            },
            _ => None,
        }
    }

    /// The types of the three ways to ask, for a table in which they start
    /// at the place `base`: the enum first.
    pub(crate) fn push_types(types: &mut Vec<TypeDef>)
        requires
            old(types).len() < usize::MAX - 8,
        ensures
            final(types)@.map_values(|t: TypeDef| t@) == old(types)@.map_values(|t: TypeDef| t@)
                + query_types(old(types).len() as int),
    {
        let base = types.len();
        let ghost before = types@.map_values(|t: TypeDef| t@);
        let mut variants: Vec<Variant> = Vec::new();
        variants.push(Variant::named("propname", "propname", Some(ns_dav()), base + 1));
        variants.push(Variant::named("allprop", "allprop", Some(ns_dav()), base + 1));
        variants.push(Variant::named("prop", "prop", Some(ns_dav()), base + 2));
        let query = TypeDef::Enum(EnumDef { variants });
        assert(query@ =~= query_types(base as int)[0]) by {
            assert(variants@.map_values(|v: Variant| v@) =~= seq![
                dav_variant("propname"@, base + 1),
                dav_variant("allprop"@, base + 1),
                dav_variant("prop"@, base + 2),
            ]);
        }
        let unit = make_struct(Vec::new());
        assert(unit@ =~= query_types(base as int)[1]) by {
            assert(Seq::<Field>::empty().map_values(|f: Field| f@) =~= seq![]);
        }
        let mut fields: Vec<Field> = Vec::new();
        fields.push(Field::unnamed(FieldType::Untagged, base + 3, false, true));
        let prop = make_struct(fields);
        assert(prop@ =~= query_types(base as int)[2]) by {
            assert(fields@.map_values(|f: Field| f@) =~= seq![
                unnamed_field(FieldType::Untagged, base + 3, false, true),
            ]);
        }
        let mut fields: Vec<Field> = Vec::new();
        fields.push(Field::unnamed(FieldType::TagName, 0, true, false));
        let name = make_struct(fields);
        assert(name@ =~= query_types(base as int)[3]) by {
            assert(fields@.map_values(|f: Field| f@) =~= seq![
                unnamed_field(FieldType::TagName, 0, true, false),
            ]);
        }
        types.push(query);
        types.push(unit);
        types.push(prop);
        types.push(name);
        assert(types@.map_values(|t: TypeDef| t@) =~= before + query_types(base as int));
    }
}

/// The types of the three ways to ask, where the first of them stands at
/// the place `base` of a table.
pub open spec fn query_types(base: int) -> Seq<TypeModel> {
    seq![
        TypeModel::Enum(
            seq![
                dav_variant("propname"@, base + 1),
                dav_variant("allprop"@, base + 1),
                dav_variant("prop"@, base + 2),
            ],
        ),
        TypeModel::Struct(inner_struct(seq![])),
        TypeModel::Struct(
            inner_struct(seq![unnamed_field(FieldType::Untagged, base + 3, false, true)]),
        ),
        TypeModel::Struct(inner_struct(seq![unnamed_field(FieldType::TagName, 0, true, false)])),
    ]
}

impl PropfindElement {
    /// The table of the types of a PROPFIND body. The root is its first
    /// type.
    pub fn schema() -> (schema: Schema)
        ensures
            schema@ == propfind_types(),
    {
        let mut types: Vec<TypeDef> = Vec::new();
        let mut fields: Vec<Field> = Vec::new();
        fields.push(Field::unnamed(FieldType::Untagged, 1, true, false));
        let root = TypeDef::Struct(
            NamedStruct::parse(StructAttrs::rooted("propfind", Some(ns_dav())), fields),
        );
        assert(root@ =~= TypeModel::Struct(propfind_struct())) by {
            assert(fields@.map_values(|f: Field| f@) =~= seq![
                unnamed_field(FieldType::Untagged, 1, true, false),
            ]);
        }
        types.push(root);
        PropfindType::push_types(&mut types);
        let schema = Schema { types };
        assert(schema@ =~= propfind_types());
        schema
    }

    /// The typed value of a decoded `<propfind>`.
    pub fn from_value(value: &XmlValue) -> (element: Option<PropfindElement>)
        ensures
            match propfind_model(value@) {
                Some(m) => element matches Some(e) && e@ == m,
                None => element is None,
            },
    {
        match value.last(0) {
            Some(query) => match PropfindType::from_value(query) {
                Some(prop) => Some(PropfindElement { prop }),
                None => None,
            },
            None => None,
        }
    }

    /// Decodes the body of a PROPFIND request.
    pub fn parse_str(body: &str) -> (element: Result<PropfindElement, XmlDeError>)
        ensures
            match spec_parse_propfind(body@) {
                Ok(m) => element matches Ok(e) && e@ == m,
                Err(e) => element matches Err(x) && x == e,
            },
    {
        let schema = Self::schema();
        proof {
            lemma_propfind_types_wf();
        }
        let root = match struct_at(&schema, 0) {
            Some(root) => root,
            None => {
                return Err(XmlDeError::InvalidTag);
            },
        };
        let value = match root.parse_str(&schema, body) {
            Ok(value) => value,
            Err(e) => {
                return Err(e);
            },
        };
        match Self::from_value(&value) {
            Some(element) => Ok(element),
            None => Err(XmlDeError::InvalidVariant),
        }
    }
}

} // verus!
