//! Schemas: what the elements of a document type look like.
//!
//! A schema is a table of types. A struct type lists its fields, an enum
//! type its variants; fields and variants name their own types by their
//! place in the table, so a type may contain itself.

use vstd::prelude::*;
use crate::store::option_view;

verus! {

/// The primitive types that the text of an element can be read as.
#[derive(Clone, Copy, Debug, PartialEq, Eq, Structural)]
pub enum Primitive {
    String,
    I8,
    U8,
    I16,
    U16,
    I32,
    U32,
    I64,
    U64,
    Isize,
    Usize,
}

/// Where a field of a struct comes from.
#[derive(Clone, Copy, Debug, PartialEq, Eq, Structural)]
pub enum FieldType {
    /// A child element with the field's name.
    Tag,
    /// Any child element that no named field takes.
    Untagged,
    /// An attribute with the field's name.
    Attr,
    /// The character content.
    Text,
    /// The element's own name.
    TagName,
}

/// One field of a struct.
#[derive(Debug)]
pub struct Field {
    pub ty: FieldType,
    /// The local name of the child element or the name of the attribute.
    pub name: String,
    /// The name as it is written, with its prefix.
    pub tag: String,
    /// The namespace that a child element must be bound to, if any is asked.
    pub ns: Option<String>,
    /// Whether the field collects every occurrence.
    pub flatten: bool,
    /// Whether the field must occur.
    pub required: bool,
    /// The place of the type of a child element in the table.
    pub shape: usize,
}

pub struct FieldModel {
    pub ty: FieldType,
    pub name: Seq<char>,
    pub tag: Seq<char>,
    pub ns: Option<Seq<char>>,
    pub flatten: bool,
    pub required: bool,
    pub shape: int,
}

impl View for Field {
    type V = FieldModel;

    open spec fn view(&self) -> FieldModel {
        FieldModel {
            ty: self.ty,
            name: self.name@,
            tag: self.tag@,
            ns: option_view(self.ns),
            flatten: self.flatten,
            required: self.required,
            shape: self.shape as int,
        }
    }
}

impl Field {
    /// A child element with a name of its own, of the type at `shape`.
    pub fn tag(name: &str, tag: &str, ns: Option<&str>, shape: usize, required: bool, flatten: bool) -> (field:
        Field)
        ensures
            field@ == (FieldModel {
                ty: FieldType::Tag,
                name: name@,
                tag: tag@,
                ns: match ns {
                    Some(n) => Some(n@),
                    None => None,
                },
                flatten,
                required,
                shape: shape as int,
            }),
    {
        Field {
            ty: FieldType::Tag,
            name: name.to_owned(),
            tag: tag.to_owned(),
            ns: match ns {
                Some(n) => Some(n.to_owned()),
                None => None,
            },
            flatten,
            required,
            shape,
        }
    }

    /// A field of a kind that has no name: the untagged child, the text or
    /// the element's own name.
    pub fn unnamed(ty: FieldType, shape: usize, required: bool, flatten: bool) -> (field: Field)
        ensures
            field@ == (FieldModel {
                ty,
                name: seq![],
                tag: seq![],
                ns: None,
                flatten,
                required,
                shape: shape as int,
            }),
    {
        Field {
            ty,
            name: String::new(),
            tag: String::new(),
            ns: None,
            flatten,
            required,
            shape,
        }
    }

    /// An attribute.
    pub fn attr(name: &str, required: bool) -> (field: Field)
        ensures
            field@ == (FieldModel {
                ty: FieldType::Attr,
                name: name@,
                tag: name@,
                ns: None,
                flatten: false,
                required,
                shape: 0,
            }),
    {
        Field {
            ty: FieldType::Attr,
            name: name.to_owned(),
            tag: name.to_owned(),
            ns: None,
            flatten: false,
            required,
            shape: 0,
        }
    }
}

/// What is said of a struct as a whole.
#[derive(Debug)]
pub struct StructAttrs {
    /// The tag of the document's root, where the struct is one.
    pub root: Option<String>,
    /// The namespace of the root.
    pub ns: Option<String>,
    /// Whether attributes and children that no field takes are passed over.
    pub allow_invalid: bool,
}

/// A struct type.
#[derive(Debug)]
pub struct NamedStruct {
    pub attrs: StructAttrs,
    pub fields: Vec<Field>,
}

pub struct StructModel {
    pub root: Option<Seq<char>>,
    pub ns: Option<Seq<char>>,
    pub allow_invalid: bool,
    pub fields: Seq<FieldModel>,
}

impl View for NamedStruct {
    type V = StructModel;

    open spec fn view(&self) -> StructModel {
        StructModel {
            root: option_view(self.attrs.root),
            ns: option_view(self.attrs.ns),
            allow_invalid: self.attrs.allow_invalid,
            fields: self.fields@.map_values(|f: Field| f@),
        }
    }
}

/// One variant of an enum.
#[derive(Debug)]
pub struct Variant {
    pub name: String,
    pub tag: String,
    pub ns: Option<String>,
    /// The place of the type of the variant's element in the table.
    pub shape: usize,
    /// Whether the variant takes every tag that no other variant takes.
    pub other: bool,
}

pub struct VariantModel {
    pub name: Seq<char>,
    pub tag: Seq<char>,
    pub ns: Option<Seq<char>>,
    pub shape: int,
    pub other: bool,
}

impl View for Variant {
    type V = VariantModel;

    open spec fn view(&self) -> VariantModel {
        VariantModel {
            name: self.name@,
            tag: self.tag@,
            ns: option_view(self.ns),
            shape: self.shape as int,
            other: self.other,
        }
    }
}

impl Variant {
    /// A variant that takes the elements of one name.
    pub fn named(name: &str, tag: &str, ns: Option<&str>, shape: usize) -> (variant: Variant)
        ensures
            variant@ == (VariantModel {
                name: name@,
                tag: tag@,
                ns: match ns {
                    Some(n) => Some(n@),
                    None => None,
                },
                shape: shape as int,
                other: false,
            }),
    {
        Variant {
            name: name.to_owned(),
            tag: tag.to_owned(),
            ns: match ns {
                Some(n) => Some(n.to_owned()),
                None => None,
            },
            shape,
            other: false,
        }
    }

    /// The variant that takes every tag that no other variant takes.
    pub fn other(shape: usize) -> (variant: Variant)
        ensures
            variant@ == (VariantModel {
                name: seq![],
                tag: seq![],
                ns: None,
                shape: shape as int,
                other: true,
            }),
    {
        Variant { name: String::new(), tag: String::new(), ns: None, shape, other: true }
    }
}

/// An enum type.
#[derive(Debug)]
pub struct EnumDef {
    pub variants: Vec<Variant>,
}

/// One type of the table.
#[derive(Debug)]
pub enum TypeDef {
    /// An element that holds text only.
    Text(Primitive),
    /// An element whose content is passed over.
    Any,
    Struct(NamedStruct),
    Enum(EnumDef),
}

pub enum TypeModel {
    Text(Primitive),
    Any,
    Struct(StructModel),
    Enum(Seq<VariantModel>),
}

impl View for TypeDef {
    type V = TypeModel;

    open spec fn view(&self) -> TypeModel {
        match self {
            TypeDef::Text(p) => TypeModel::Text(*p),
            TypeDef::Any => TypeModel::Any,
            TypeDef::Struct(s) => TypeModel::Struct(s@),
            TypeDef::Enum(e) => TypeModel::Enum(e.variants@.map_values(|v: Variant| v@)),
        }
    }
}

/// The table of types.
#[derive(Debug)]
pub struct Schema {
    pub types: Vec<TypeDef>,
}

impl View for Schema {
    type V = Seq<TypeModel>;

    open spec fn view(&self) -> Seq<TypeModel> {
        self.types@.map_values(|t: TypeDef| t@)
    }
}

/// How many of the first `n` fields are of a kind.
pub open spec fn count_fields(fields: Seq<FieldModel>, ty: FieldType, n: nat) -> nat
    decreases n,
{
    if n == 0 {
        0
    } else {
        count_fields(fields, ty, (n - 1) as nat) + if fields[n - 1].ty == ty {
            1nat
        } else {
            0nat
        }
    }
}

/// How many of the first `n` variants take every tag.
pub open spec fn count_others(variants: Seq<VariantModel>, n: nat) -> nat
    decreases n,
{
    if n == 0 {
        0
    } else {
        count_others(variants, (n - 1) as nat) + if variants[n - 1].other {
            1nat
        } else {
            0nat
        }
    }
}

/// Whether a type is one that an element is read as on its own tag: every
/// type but an enum, which chooses by the tag.
pub open spec fn is_plain(types: Seq<TypeModel>, shape: int) -> bool {
    0 <= shape < types.len() && !(types[shape] is Enum)
}

/// A struct is well formed in a table if its child fields name types of the
/// table, a named child is no enum, and at most one field is untagged.
pub open spec fn struct_wf(types: Seq<TypeModel>, s: StructModel) -> bool {
    &&& forall|i: int|
        0 <= i < s.fields.len() && (#[trigger] s.fields[i]).ty == FieldType::Tag ==> is_plain(
            types,
            s.fields[i].shape,
        )
    &&& forall|i: int|
        0 <= i < s.fields.len() && (#[trigger] s.fields[i]).ty == FieldType::Untagged ==> 0
            <= s.fields[i].shape < types.len()
    &&& count_fields(s.fields, FieldType::Untagged, s.fields.len()) <= 1
}

/// An enum is well formed in a table if its variants name types of the
/// table that are no enums, and at most one variant takes every tag.
pub open spec fn enum_wf(types: Seq<TypeModel>, variants: Seq<VariantModel>) -> bool {
    &&& forall|i: int| 0 <= i < variants.len() ==> is_plain(types, (#[trigger] variants[i]).shape)
    &&& count_others(variants, variants.len()) <= 1
}

/// A table is well formed if each of its types is.
pub open spec fn schema_wf(types: Seq<TypeModel>) -> bool {
    forall|i: int|
        0 <= i < types.len() ==> match #[trigger] types[i] {
            TypeModel::Struct(s) => struct_wf(types, s),
            TypeModel::Enum(variants) => enum_wf(types, variants),
            _ => true,
        }
}

impl StructAttrs {
    /// A struct that is no root and passes nothing over.
    pub fn plain() -> (attrs: StructAttrs)
        ensures
            attrs.root is None,
            attrs.ns is None,
            !attrs.allow_invalid,
    {
        StructAttrs { root: None, ns: None, allow_invalid: false }
    }

    /// The root of a document.
    pub fn rooted(root: &str, ns: Option<&str>) -> (attrs: StructAttrs)
        ensures
            option_view(attrs.root) == Some(root@),
            option_view(attrs.ns) == match ns {
                Some(n) => Some(n@),
                None => None,
            },
            !attrs.allow_invalid,
    {
        StructAttrs {
            root: Some(root.to_owned()),
            ns: match ns {
                Some(n) => Some(n.to_owned()),
                None => None,
            },
            allow_invalid: false,
        }
    }
}

impl NamedStruct {
    /// A struct type of the given fields.
    pub fn parse(attrs: StructAttrs, fields: Vec<Field>) -> (named: NamedStruct)
        ensures
            named.attrs == attrs,
            named.fields == fields,
    {
        NamedStruct { attrs, fields }
    }

    /// The tag and the namespace of the document's root.
    pub fn impl_xml_root(&self) -> (root: (&str, Option<&str>))
        requires
            self.attrs.root is Some,
        ensures
            Some(root.0@) == self@.root,
            match root.1 {
                Some(ns) => Some(ns@) == self@.ns,
                None => self@.ns is None,
            },
    {
        let tag = match &self.attrs.root {
            Some(tag) => tag.as_str(),
            None => "",
        };
        let ns = match &self.attrs.ns {
            Some(ns) => Some(ns.as_str()),
            None => None,
        };
        (tag, ns)
    }
}

impl Schema {
    fn check_struct(&self, s: &NamedStruct) -> (ok: bool)
        ensures
            ok == struct_wf(self@, s@),
    {
        let mut untagged: usize = 0;
        let mut i: usize = 0;
        while i < s.fields.len()
            invariant
                i <= s.fields.len(),
                untagged == count_fields(s@.fields, FieldType::Untagged, i as nat),
                untagged <= i,
                untagged <= 1,
                forall|k: int|
                    0 <= k < i && (#[trigger] s@.fields[k]).ty == FieldType::Tag ==> is_plain(
                        self@,
                        s@.fields[k].shape,
                    ),
                forall|k: int|
                    0 <= k < i && (#[trigger] s@.fields[k]).ty == FieldType::Untagged ==> 0
                        <= s@.fields[k].shape < self@.len(),
            decreases s.fields.len() - i,
        {
            let field = &s.fields[i];
            assert(s@.fields[i as int] == field@);
            match field.ty {
                FieldType::Tag => {
                    if field.shape >= self.types.len() {
                        return false;
                    }
                    assert(self@[field.shape as int] == self.types[field.shape as int]@);
                    if let TypeDef::Enum(_) = &self.types[field.shape] {
                        return false;
                    }
                },
                FieldType::Untagged => {
                    if field.shape >= self.types.len() {
                        return false;
                    }
                    if untagged == 1 {
                        proof {
                            lemma_count_fields_grows(
                                s@.fields,
                                FieldType::Untagged,
                                (i + 1) as nat,
                                s@.fields.len(),
                            );
                        }
                        return false;
                    }
                    untagged = untagged + 1;
                },
                _ => {},
            }
            i = i + 1;
        }
        true
    }

    fn check_enum(&self, e: &EnumDef) -> (ok: bool)
        ensures
            ok == enum_wf(self@, e.variants@.map_values(|v: Variant| v@)),
    {
        let ghost variants = e.variants@.map_values(|v: Variant| v@);
        let mut others: usize = 0;
        let mut i: usize = 0;
        while i < e.variants.len()
            invariant
                i <= e.variants.len(),
                variants == e.variants@.map_values(|v: Variant| v@),
                others == count_others(variants, i as nat),
                others <= 1,
                forall|k: int| 0 <= k < i ==> is_plain(self@, (#[trigger] variants[k]).shape),
            decreases e.variants.len() - i,
        {
            let variant = &e.variants[i];
            assert(variants[i as int] == variant@);
            if variant.shape >= self.types.len() {
                return false;
            }
            assert(self@[variant.shape as int] == self.types[variant.shape as int]@);
            if let TypeDef::Enum(_) = &self.types[variant.shape] {
                return false;
            }
            if variant.other {
                if others == 1 {
                    proof {
                        lemma_count_others_grows(variants, (i + 1) as nat, variants.len());
                    }
                    return false;
                }
                others = others + 1;
            }
            i = i + 1;
        }
        true
    }

    /// Whether the table is well formed.
    pub fn check(&self) -> (ok: bool)
        ensures
            ok == schema_wf(self@),
    {
        let mut i: usize = 0;
        while i < self.types.len()
            invariant
                i <= self.types.len(),
                forall|k: int|
                    0 <= k < i ==> match #[trigger] self@[k] {
                        TypeModel::Struct(s) => struct_wf(self@, s),
                        TypeModel::Enum(variants) => enum_wf(self@, variants),
                        _ => true,
                    },
            decreases self.types.len() - i,
        {
            assert(self@[i as int] == self.types[i as int]@);
            let ok = match &self.types[i] {
                TypeDef::Struct(s) => self.check_struct(s),
                TypeDef::Enum(e) => self.check_enum(e),
                _ => true,
            };
            if !ok {
                return false;
            }
            i = i + 1;
        }
        true
    }
}

/// A count never shrinks as more fields are counted.
pub proof fn lemma_count_fields_grows(fields: Seq<FieldModel>, ty: FieldType, n: nat, m: nat)
    requires
        n <= m,
    ensures
        count_fields(fields, ty, n) <= count_fields(fields, ty, m),
    decreases m,
{
    if n < m {
        lemma_count_fields_grows(fields, ty, n, (m - 1) as nat);
    }
}

/// A count never shrinks as more variants are counted.
pub proof fn lemma_count_others_grows(variants: Seq<VariantModel>, n: nat, m: nat)
    requires
        n <= m,
    ensures
        count_others(variants, n) <= count_others(variants, m),
    decreases m,
{
    if n < m {
        lemma_count_others_grows(variants, n, (m - 1) as nat);
    }
}

} // verus!
