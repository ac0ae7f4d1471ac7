//! Rust types that have an XML form.

use vstd::prelude::*;
use crate::xml::dynamic::{ValueModel, XmlValue};
use crate::xml::schema::{
    enum_wf, is_plain, schema_wf, struct_wf, StructModel, TypeDef, TypeModel, VariantModel,
};

verus! {

/// A type that is decoded from and encoded to XML by a table of types of
/// its own, in which its own type stands first.
pub trait XmlType: Sized + View {
    /// The table of types.
    spec fn spec_types() -> Seq<TypeModel>;

    /// What a decoded value of the first type stands for, if it stands for
    /// a value of the Rust type.
    spec fn spec_from_value(value: ValueModel) -> Option<Self::V>;

    /// The decoded form of a value, if it has one.
    spec fn spec_to_value(value: Self::V) -> Option<ValueModel>;

    /// The table is well formed, not empty, and of a moderate size.
    proof fn types_are_wf()
        ensures
            schema_wf(Self::spec_types()),
            0 < Self::spec_types().len() < 0x1_0000,
    ;

    fn types() -> (types: Vec<TypeDef>)
        ensures
            types@.map_values(|t: TypeDef| t@) == Self::spec_types(),
    ;

    fn from_value(value: &XmlValue) -> (typed: Option<Self>)
        ensures
            match Self::spec_from_value(value@) {
                Some(v) => typed matches Some(x) && x@ == v,
                None => typed is None,
            },
    ;

    fn to_value(&self) -> (value: Option<XmlValue>)
        ensures
            match Self::spec_to_value(self@) {
                Some(v) => value matches Some(x) && x@ == v,
                None => value is None,
            },
    ;
}

/// A bare text. It has no tag of its own, so it is never written as an
/// element by itself.
impl XmlType for String {
    open spec fn spec_types() -> Seq<TypeModel> {
        seq![TypeModel::Text(crate::xml::schema::Primitive::String)]
    }

    open spec fn spec_from_value(value: ValueModel) -> Option<Seq<char>> {
        match value {
            ValueModel::Text(text) => Some(text),
            _ => None,
        }
    }

    open spec fn spec_to_value(value: Seq<char>) -> Option<ValueModel> {
        None
    }

    proof fn types_are_wf() {
    }

    fn types() -> (types: Vec<TypeDef>) {
        let mut types: Vec<TypeDef> = Vec::new();
        types.push(TypeDef::Text(crate::xml::schema::Primitive::String));
        assert(types@.map_values(|t: TypeDef| t@) =~= Self::spec_types());
        types
    }

    fn from_value(value: &XmlValue) -> (typed: Option<String>) {
        match value {
            XmlValue::Text(text) => Some(text.clone()),
            _ => None,
        }
    }

    fn to_value(&self) -> (value: Option<XmlValue>) {
        None
    }
}

/// A struct that is well formed in a table is well formed in a longer one.
pub proof fn lemma_struct_wf_extends(a: Seq<TypeModel>, b: Seq<TypeModel>, s: StructModel)
    requires
        struct_wf(a, s),
    ensures
        struct_wf(a + b, s),
{
    assert forall|i: int|
        0 <= i < s.fields.len() && (#[trigger] s.fields[i]).ty
            == crate::xml::schema::FieldType::Tag implies is_plain(a + b, s.fields[i].shape) by {
        assert((a + b)[s.fields[i].shape] == a[s.fields[i].shape]);
    }
}

/// An enum that is well formed in a table is well formed in a longer one.
pub proof fn lemma_enum_wf_extends(a: Seq<TypeModel>, b: Seq<TypeModel>, variants: Seq<VariantModel>)
    requires
        enum_wf(a, variants),
    ensures
        enum_wf(a + b, variants),
{
    assert forall|i: int| 0 <= i < variants.len() implies is_plain(
        a + b,
        (#[trigger] variants[i]).shape,
    ) by {
        assert((a + b)[variants[i].shape] == a[variants[i].shape]);
    }
}

/// A well-formed table stays well formed when types are added that are
/// well formed in the whole.
pub proof fn lemma_extend_wf(a: Seq<TypeModel>, b: Seq<TypeModel>)
    requires
        schema_wf(a),
        forall|j: int|
            0 <= j < b.len() ==> match #[trigger] b[j] {
                TypeModel::Struct(s) => struct_wf(a + b, s),
                TypeModel::Enum(variants) => enum_wf(a + b, variants),
                _ => true,
            },
    ensures
        schema_wf(a + b),
{
    let all = a + b;
    assert forall|i: int| 0 <= i < all.len() implies match #[trigger] all[i] {
        TypeModel::Struct(s) => struct_wf(all, s),
        TypeModel::Enum(variants) => enum_wf(all, variants),
        _ => true,
    } by {
        if i < a.len() {
            assert(all[i] == a[i]);
            match a[i] {
                TypeModel::Struct(s) => {
                    lemma_struct_wf_extends(a, b, s);
                },
                TypeModel::Enum(variants) => {
                    lemma_enum_wf_extends(a, b, variants);
                },
                _ => {},
            }
        } else {
            assert(all[i] == b[i - a.len()]);
        }
    }
}

} // verus!
