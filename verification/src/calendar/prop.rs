//! The properties of a calendar collection and their XML form.

use vstd::prelude::*;
use crate::elements::{
    dav_field, dav_variant, inner_struct, make_struct, ns_caldav, ns_dav, ns_ical,
};
use crate::resource::{InvalidProperty, PropName, static_views};
use crate::store::option_view;
use crate::text::str_eq;
use crate::xml::dynamic::{
    attr_views, AttrEntry, AttrEntryModel, Entry, EntryModel, ValueModel, XmlValue,
};
use crate::xml::schema::{
    count_fields, count_others, EnumDef, Field, FieldModel, FieldType, Primitive, TypeDef,
    TypeModel, Variant, VariantModel,
};
use crate::xml::se::{
    attr_list, encode, encode_content, encode_entry, encode_field, encode_struct, entries_fit,
    field_tag, variant_tag,
};
use crate::xml::typed::XmlType;

verus! {

/// The names of the properties of a calendar collection.
#[derive(Clone, Copy, Debug, PartialEq, Eq, Structural)]
pub enum CalendarPropName {
    Resourcetype,
    CurrentUserPrincipal,
    Displayname,
    SupportedCalendarComponentSet,
    SupportedCalendarData,
    Getcontenttype,
    CalendarDescription,
    Owner,
    CalendarColor,
}

impl PropName for CalendarPropName {
    open spec fn spec_from_str(tag: Seq<char>) -> Option<CalendarPropName> {
        if tag == "resourcetype"@ {
            Some(CalendarPropName::Resourcetype)
        } else if tag == "current-user-principal"@ {
            Some(CalendarPropName::CurrentUserPrincipal)
        } else if tag == "displayname"@ {
            Some(CalendarPropName::Displayname)
        } else if tag == "supported-calendar-component-set"@ {
            Some(CalendarPropName::SupportedCalendarComponentSet)
        } else if tag == "supported-calendar-data"@ {
            Some(CalendarPropName::SupportedCalendarData)
        } else if tag == "getcontenttype"@ {
            Some(CalendarPropName::Getcontenttype)
        } else if tag == "calendar-description"@ {
            Some(CalendarPropName::CalendarDescription)
        } else if tag == "owner"@ {
            Some(CalendarPropName::Owner)
        } else if tag == "calendar-color"@ {
            Some(CalendarPropName::CalendarColor)
        } else {
            None
        }
    }

    open spec fn spec_as_str(&self) -> Seq<char> {
        match self {
            CalendarPropName::Resourcetype => "resourcetype"@,
            CalendarPropName::CurrentUserPrincipal => "current-user-principal"@,
            CalendarPropName::Displayname => "displayname"@,
            CalendarPropName::SupportedCalendarComponentSet => "supported-calendar-component-set"@,
            CalendarPropName::SupportedCalendarData => "supported-calendar-data"@,
            CalendarPropName::Getcontenttype => "getcontenttype"@,
            CalendarPropName::CalendarDescription => "calendar-description"@,
            CalendarPropName::Owner => "owner"@,
            CalendarPropName::CalendarColor => "calendar-color"@,
        }
    }

    open spec fn spec_variants() -> Seq<Seq<char>> {
        seq![
            "resourcetype"@,
            "current-user-principal"@,
            "displayname"@,
            "supported-calendar-component-set"@,
            "supported-calendar-data"@,
            "getcontenttype"@,
            "calendar-description"@,
            "owner"@,
            "calendar-color"@,
        ]
    }

    proof fn variants_are_the_names() {
        reveal_strlit("resourcetype");
        reveal_strlit("current-user-principal");
        reveal_strlit("displayname");
        reveal_strlit("supported-calendar-component-set");
        reveal_strlit("supported-calendar-data");
        reveal_strlit("getcontenttype");
        reveal_strlit("calendar-description");
        reveal_strlit("owner");
        reveal_strlit("calendar-color");
        let tags = Self::spec_variants();
        assert(tags[0] == "resourcetype"@ && tags[1] == "current-user-principal"@ && tags[2]
            == "displayname"@ && tags[3] == "supported-calendar-component-set"@ && tags[4]
            == "supported-calendar-data"@ && tags[5] == "getcontenttype"@ && tags[6]
            == "calendar-description"@ && tags[7] == "owner"@ && tags[8] == "calendar-color"@);
        assert(tags[0].len() == 12 && tags[1].len() == 22 && tags[2].len() == 11 && tags[3].len()
            == 32 && tags[4].len() == 23 && tags[5].len() == 14 && tags[6].len() == 20
            && tags[7].len() == 5 && tags[8].len() == 14);
        assert(tags[5][0] == 'g' && tags[8][0] == 'c');
    }

    fn from_str(tag: &str) -> (name: Option<CalendarPropName>) {
        if str_eq(tag, "resourcetype") {
            Some(CalendarPropName::Resourcetype)
        } else if str_eq(tag, "current-user-principal") {
            Some(CalendarPropName::CurrentUserPrincipal)
        } else if str_eq(tag, "displayname") {
            Some(CalendarPropName::Displayname)
        } else if str_eq(tag, "supported-calendar-component-set") {
            Some(CalendarPropName::SupportedCalendarComponentSet)
        } else if str_eq(tag, "supported-calendar-data") {
            Some(CalendarPropName::SupportedCalendarData)
        } else if str_eq(tag, "getcontenttype") {
            Some(CalendarPropName::Getcontenttype)
        } else if str_eq(tag, "calendar-description") {
            Some(CalendarPropName::CalendarDescription)
        } else if str_eq(tag, "owner") {
            Some(CalendarPropName::Owner)
        } else if str_eq(tag, "calendar-color") {
            Some(CalendarPropName::CalendarColor)
        } else {
            None
        }
    }

    fn as_str(&self) -> (tag: &'static str) {
        match self {
            CalendarPropName::Resourcetype => "resourcetype",
            CalendarPropName::CurrentUserPrincipal => "current-user-principal",
            CalendarPropName::Displayname => "displayname",
            CalendarPropName::SupportedCalendarComponentSet => "supported-calendar-component-set",
            CalendarPropName::SupportedCalendarData => "supported-calendar-data",
            CalendarPropName::Getcontenttype => "getcontenttype",
            CalendarPropName::CalendarDescription => "calendar-description",
            CalendarPropName::Owner => "owner",
            CalendarPropName::CalendarColor => "calendar-color",
        }
    }

    fn variants() -> (tags: Vec<&'static str>) {
        let tags = vec![
            "resourcetype",
            "current-user-principal",
            "displayname",
            "supported-calendar-component-set",
            "supported-calendar-data",
            "getcontenttype",
            "calendar-description",
            "owner",
            "calendar-color",
        ];
        assert(static_views(tags@) =~= Self::spec_variants());
        tags
    }
}

/// The value of a property of a calendar collection.
#[derive(Debug)]
pub enum CalendarProp {
    /// A collection that is a calendar.
    Resourcetype,
    /// The address of the principal of the identity that asks.
    CurrentUserPrincipal(String),
    Displayname(Option<String>),
    /// Events only.
    SupportedCalendarComponentSet,
    /// iCalendar 2.0 only.
    SupportedCalendarData,
    Getcontenttype(String),
    CalendarDescription(Option<String>),
    /// The address of the principal that owns the calendar.
    Owner(String),
    CalendarColor(Option<String>),
    /// A tag that a client cannot set: unknown, or read-only.
    Invalid,
}

pub enum CalendarPropModel {
    Resourcetype,
    CurrentUserPrincipal(Seq<char>),
    Displayname(Option<Seq<char>>),
    SupportedCalendarComponentSet,
    SupportedCalendarData,
    Getcontenttype(Seq<char>),
    CalendarDescription(Option<Seq<char>>),
    Owner(Seq<char>),
    CalendarColor(Option<Seq<char>>),
    Invalid,
}

impl View for CalendarProp {
    type V = CalendarPropModel;

    open spec fn view(&self) -> CalendarPropModel {
        match self {
            CalendarProp::Resourcetype => CalendarPropModel::Resourcetype,
            CalendarProp::CurrentUserPrincipal(h) => CalendarPropModel::CurrentUserPrincipal(h@),
            CalendarProp::Displayname(t) => CalendarPropModel::Displayname(option_view(*t)),
            CalendarProp::SupportedCalendarComponentSet => CalendarPropModel::SupportedCalendarComponentSet,
            CalendarProp::SupportedCalendarData => CalendarPropModel::SupportedCalendarData,
            CalendarProp::Getcontenttype(t) => CalendarPropModel::Getcontenttype(t@),
            CalendarProp::CalendarDescription(t) => CalendarPropModel::CalendarDescription(
                option_view(*t),
            ),
            CalendarProp::Owner(h) => CalendarPropModel::Owner(h@),
            CalendarProp::CalendarColor(t) => CalendarPropModel::CalendarColor(option_view(*t)),
            CalendarProp::Invalid => CalendarPropModel::Invalid,
        }
    }
}

impl InvalidProperty for CalendarProp {
    open spec fn spec_invalid_property(prop: CalendarPropModel) -> bool {
        prop is Invalid
    }

    fn invalid_property(&self) -> (invalid: bool) {
        matches!(self, Self::Invalid)
    }
}

/// A variant of CalDAV, written with the prefix `C`.
pub open spec fn caldav_variant(name: Seq<char>, tag: Seq<char>, shape: int) -> VariantModel {
    VariantModel { name, tag, ns: Some("urn:ietf:params:xml:ns:caldav"@), shape, other: false }
}

/// A child element of CalDAV, written with the prefix `C`.
pub open spec fn caldav_field(name: Seq<char>, tag: Seq<char>, shape: int) -> FieldModel {
    FieldModel {
        ty: FieldType::Tag,
        name,
        tag,
        ns: Some("urn:ietf:params:xml:ns:caldav"@),
        flatten: false,
        required: false,
        shape,
    }
}

/// An attribute.
pub open spec fn attr_model(name: Seq<char>, required: bool) -> FieldModel {
    FieldModel {
        ty: FieldType::Attr,
        name,
        tag: name,
        ns: None,
        flatten: false,
        required,
        shape: 0,
    }
}

/// The types of the properties of a calendar collection: the properties by
/// their tags; a text; anything; the element without content; the kinds of
/// the resource; an address; the components; one component; the data
/// formats; one data format.
pub open spec fn calendar_prop_types() -> Seq<TypeModel> {
    seq![
        TypeModel::Enum(
            seq![
                dav_variant("resourcetype"@, 4),
                dav_variant("current-user-principal"@, 5),
                dav_variant("displayname"@, 1),
                caldav_variant(
                    "supported-calendar-component-set"@,
                    "C:supported-calendar-component-set"@,
                    6,
                ),
                caldav_variant("supported-calendar-data"@, "C:supported-calendar-data"@, 8),
                dav_variant("getcontenttype"@, 1),
                caldav_variant("calendar-description"@, "C:calendar-description"@, 1),
                dav_variant("owner"@, 5),
                VariantModel {
                    name: "calendar-color"@,
                    tag: "IC:calendar-color"@,
                    ns: Some("http://apple.com/ns/ical/"@),
                    shape: 1,
                    other: false,
                },
                VariantModel { name: seq![], tag: seq![], ns: None, shape: 2, other: true },
            ],
        ),
        TypeModel::Text(Primitive::String),
        TypeModel::Any,
        TypeModel::Struct(inner_struct(seq![])),
        TypeModel::Struct(
            inner_struct(
                seq![
                    caldav_field("calendar"@, "C:calendar"@, 3),
                    dav_field("collection"@, 3, false, false),
                ],
            ),
        ),
        TypeModel::Struct(inner_struct(seq![dav_field("href"@, 1, true, false)])),
        TypeModel::Struct(inner_struct(seq![caldav_field("comp"@, "C:comp"@, 7)])),
        TypeModel::Struct(inner_struct(seq![attr_model("name"@, true)])),
        TypeModel::Struct(inner_struct(seq![caldav_field("calendar-data"@, "C:calendar-data"@, 9)])),
        TypeModel::Struct(
            inner_struct(seq![attr_model("content-type"@, true), attr_model("version"@, true)]),
        ),
    ]
}

/// A struct without attributes.
pub open spec fn plain_value(name: Seq<char>, content: Seq<EntryModel>) -> ValueModel {
    ValueModel::Struct { name, attributes: seq![], content }
}

/// A struct without content.
pub open spec fn attrs_value(name: Seq<char>, attributes: Seq<AttrEntryModel>) -> ValueModel {
    ValueModel::Struct { name, attributes, content: seq![] }
}

/// A property that holds a text, which may be missing.
pub open spec fn text_prop(place: int, text: Option<Seq<char>>) -> ValueModel {
    ValueModel::Variant(
        place,
        Box::new(
            ValueModel::Text(
                match text {
                    Some(t) => t,
                    None => seq![],
                },
            ),
        ),
    )
}

/// A property that holds an address.
pub open spec fn href_prop(place: int, name: Seq<char>, href: Seq<char>) -> ValueModel {
    ValueModel::Variant(
        place,
        Box::new(
            plain_value(name, seq![EntryModel { field: 0, value: ValueModel::Text(href) }]),
        ),
    )
}

/// The decoded form of a property.
pub open spec fn calendar_prop_value(prop: CalendarPropModel) -> Option<ValueModel> {
    match prop {
        CalendarPropModel::Resourcetype => Some(
            ValueModel::Variant(
                0,
                Box::new(
                    plain_value(
                        "resourcetype"@,
                        seq![
                            EntryModel { field: 0, value: plain_value("calendar"@, seq![]) },
                            EntryModel { field: 1, value: plain_value("collection"@, seq![]) },
                        ],
                    ),
                ),
            ),
        ),
        CalendarPropModel::CurrentUserPrincipal(href) => Some(
            href_prop(1, "current-user-principal"@, href),
        ),
        CalendarPropModel::Displayname(text) => Some(text_prop(2, text)),
        CalendarPropModel::SupportedCalendarComponentSet => Some(
            ValueModel::Variant(
                3,
                Box::new(
                    plain_value(
                        "supported-calendar-component-set"@,
                        seq![
                            EntryModel {
                                field: 0,
                                value: attrs_value(
                                    "comp"@,
                                    seq![AttrEntryModel { field: 0, value: "VEVENT"@ }],
                                ),
                            },
                        ],
                    ),
                ),
            ),
        ),
        CalendarPropModel::SupportedCalendarData => Some(
            ValueModel::Variant(
                4,
                Box::new(
                    plain_value(
                        "supported-calendar-data"@,
                        seq![
                            EntryModel {
                                field: 0,
                                value: attrs_value(
                                    "calendar-data"@,
                                    seq![
                                        AttrEntryModel { field: 0, value: "text/calendar"@ },
                                        AttrEntryModel { field: 1, value: "2.0"@ },
                                    ],
                                ),
                            },
                        ],
                    ),
                ),
            ),
        ),
        CalendarPropModel::Getcontenttype(text) => Some(text_prop(5, Some(text))),
        CalendarPropModel::CalendarDescription(text) => Some(text_prop(6, text)),
        CalendarPropModel::Owner(href) => Some(href_prop(7, "owner"@, href)),
        CalendarPropModel::CalendarColor(text) => Some(text_prop(8, text)),
        CalendarPropModel::Invalid => None,
    }
}

/// The property that a client sets with a decoded element: the name, the
/// description and the colour take a text; every other element is
/// `Invalid`.
pub open spec fn calendar_prop_of(value: ValueModel) -> CalendarPropModel {
    match value {
        ValueModel::Variant(i, payload) => match *payload {
            ValueModel::Text(text) => if i == 2 {
                CalendarPropModel::Displayname(Some(text))
            } else if i == 6 {
                CalendarPropModel::CalendarDescription(Some(text))
            } else if i == 8 {
                CalendarPropModel::CalendarColor(Some(text))
            } else {
                CalendarPropModel::Invalid
            },
            _ => CalendarPropModel::Invalid,
        },
        _ => CalendarPropModel::Invalid,
    }
}

fn make_plain(name: &str, content: Vec<Entry>) -> (value: XmlValue)
    ensures
        value@ == plain_value(name@, XmlValue::models(content@)),
{
    let attributes: Vec<AttrEntry> = Vec::new();
    assert(attr_views(attributes@) =~= seq![]);
    XmlValue::structure(name.to_owned(), attributes, content)
}

fn make_attrs(name: &str, attributes: Vec<AttrEntry>) -> (value: XmlValue)
    ensures
        value@ == attrs_value(name@, attr_views(attributes@)),
{
    let content: Vec<Entry> = Vec::new();
    assert(XmlValue::models(content@) =~= seq![]);
    XmlValue::structure(name.to_owned(), attributes, content)
}

fn one_entry(field: usize, value: XmlValue) -> (entries: Vec<Entry>)
    ensures
        XmlValue::models(entries@) == seq![EntryModel { field: field as int, value: value@ }],
{
    let mut entries: Vec<Entry> = Vec::new();
    entries.push(Entry { field, value });
    proof {
        XmlValue::lemma_models(entries@);
    }
    assert(XmlValue::models(entries@) =~= seq![EntryModel { field: field as int, value: value@ }]);
    entries
}

fn two_entries(first: XmlValue, second: XmlValue) -> (entries: Vec<Entry>)
    ensures
        XmlValue::models(entries@) == seq![
            EntryModel { field: 0, value: first@ },
            EntryModel { field: 1, value: second@ },
        ],
{
    let mut entries: Vec<Entry> = Vec::new();
    entries.push(Entry { field: 0, value: first });
    entries.push(Entry { field: 1, value: second });
    proof {
        XmlValue::lemma_models(entries@);
    }
    assert(XmlValue::models(entries@) =~= seq![
        EntryModel { field: 0, value: first@ },
        EntryModel { field: 1, value: second@ },
    ]);
    entries
}

fn no_entries() -> (entries: Vec<Entry>)
    ensures
        XmlValue::models(entries@) == Seq::<EntryModel>::empty(),
{
    let entries: Vec<Entry> = Vec::new();
    assert(XmlValue::models(entries@) =~= seq![]);
    entries
}

fn one_attr(text: &str) -> (attributes: Vec<AttrEntry>)
    ensures
        attr_views(attributes@) == seq![AttrEntryModel { field: 0, value: text@ }],
{
    let mut attributes: Vec<AttrEntry> = Vec::new();
    attributes.push(AttrEntry { field: 0, value: text.to_owned() });
    assert(attr_views(attributes@) =~= seq![AttrEntryModel { field: 0, value: text@ }]);
    attributes
}

fn two_attrs(first: &str, second: &str) -> (attributes: Vec<AttrEntry>)
    ensures
        attr_views(attributes@) == seq![
            AttrEntryModel { field: 0, value: first@ },
            AttrEntryModel { field: 1, value: second@ },
        ],
{
    let mut attributes: Vec<AttrEntry> = Vec::new();
    attributes.push(AttrEntry { field: 0, value: first.to_owned() });
    attributes.push(AttrEntry { field: 1, value: second.to_owned() });
    assert(attr_views(attributes@) =~= seq![
        AttrEntryModel { field: 0, value: first@ },
        AttrEntryModel { field: 1, value: second@ },
    ]);
    attributes
}

fn text_prop_of(place: usize, text: &Option<String>) -> (value: XmlValue)
    ensures
        value@ == text_prop(place as int, option_view(*text)),
{
    let text = match text {
        Some(t) => t.clone(),
        None => String::new(),
    };
    XmlValue::variant(place, XmlValue::text(text))
}

fn href_prop_of(place: usize, name: &str, href: &str) -> (value: XmlValue)
    ensures
        value@ == href_prop(place as int, name@, href@),
{
    XmlValue::variant(place, make_plain(name, one_entry(0, XmlValue::text(href.to_owned()))))
}

impl XmlType for CalendarProp {
    open spec fn spec_types() -> Seq<TypeModel> {
        calendar_prop_types()
    }

    open spec fn spec_from_value(value: ValueModel) -> Option<CalendarPropModel> {
        Some(calendar_prop_of(value))
    }

    open spec fn spec_to_value(value: CalendarPropModel) -> Option<ValueModel> {
        calendar_prop_value(value)
    }

    proof fn types_are_wf() {
        reveal_with_fuel(count_others, 11);
        reveal_with_fuel(count_fields, 3);
        let types = calendar_prop_types();
        assert(types[0] is Enum && types[1] is Text && types[2] is Any && types[3] is Struct
            && types[4] is Struct && types[5] is Struct && types[6] is Struct && types[7] is Struct
            && types[8] is Struct && types[9] is Struct);
    }

    fn types() -> (types: Vec<TypeDef>) {
        let ghost target = calendar_prop_types();
        let mut variants: Vec<Variant> = Vec::new();
        variants.push(Variant::named("resourcetype", "resourcetype", Some(ns_dav()), 4));
        variants.push(
            Variant::named("current-user-principal", "current-user-principal", Some(ns_dav()), 5),
        );
        variants.push(Variant::named("displayname", "displayname", Some(ns_dav()), 1));
        variants.push(
            Variant::named(
                "supported-calendar-component-set",
                "C:supported-calendar-component-set",
                Some(ns_caldav()),
                6,
            ),
        );
        variants.push(
            Variant::named(
                "supported-calendar-data",
                "C:supported-calendar-data",
                Some(ns_caldav()),
                8,
            ),
        );
        variants.push(Variant::named("getcontenttype", "getcontenttype", Some(ns_dav()), 1));
        variants.push(
            Variant::named("calendar-description", "C:calendar-description", Some(ns_caldav()), 1),
        );
        variants.push(Variant::named("owner", "owner", Some(ns_dav()), 5));
        variants.push(Variant::named("calendar-color", "IC:calendar-color", Some(ns_ical()), 1));
        variants.push(Variant::other(2));
        let props = TypeDef::Enum(EnumDef { variants });
        assert(props@ =~= target[0]) by {
            assert(variants@.map_values(|v: Variant| v@) =~= target[0]->Enum_0);
        }
        let unit = make_struct(Vec::new());
        assert(unit@ =~= target[3]) by {
            assert(Seq::<Field>::empty().map_values(|f: Field| f@) =~= seq![]);
        }
        let mut fields: Vec<Field> = Vec::new();
        fields.push(Field::tag("calendar", "C:calendar", Some(ns_caldav()), 3, false, false));
        fields.push(Field::tag("collection", "collection", Some(ns_dav()), 3, false, false));
        let kinds = make_struct(fields);
        assert(kinds@ =~= target[4]) by {
            assert(fields@.map_values(|f: Field| f@) =~= target[4]->Struct_0.fields);
        }
        let mut fields: Vec<Field> = Vec::new();
        fields.push(Field::tag("href", "href", Some(ns_dav()), 1, true, false));
        let address = make_struct(fields);
        assert(address@ =~= target[5]) by {
            assert(fields@.map_values(|f: Field| f@) =~= target[5]->Struct_0.fields);
        }
        let mut fields: Vec<Field> = Vec::new();
        fields.push(Field::tag("comp", "C:comp", Some(ns_caldav()), 7, false, false));
        let components = make_struct(fields);
        assert(components@ =~= target[6]) by {
            assert(fields@.map_values(|f: Field| f@) =~= target[6]->Struct_0.fields);
        }
        let mut fields: Vec<Field> = Vec::new();
        fields.push(Field::attr("name", true));
        let component = make_struct(fields);
        assert(component@ =~= target[7]) by {
            assert(fields@.map_values(|f: Field| f@) =~= target[7]->Struct_0.fields);
        }
        let mut fields: Vec<Field> = Vec::new();
        fields.push(
            Field::tag("calendar-data", "C:calendar-data", Some(ns_caldav()), 9, false, false),
        );
        let formats = make_struct(fields);
        assert(formats@ =~= target[8]) by {
            assert(fields@.map_values(|f: Field| f@) =~= target[8]->Struct_0.fields);
        }
        let mut fields: Vec<Field> = Vec::new();
        fields.push(Field::attr("content-type", true));
        fields.push(Field::attr("version", true));
        let format = make_struct(fields);
        assert(format@ =~= target[9]) by {
            assert(fields@.map_values(|f: Field| f@) =~= target[9]->Struct_0.fields);
        }
        let mut types: Vec<TypeDef> = Vec::new();
        types.push(props);
        types.push(TypeDef::Text(Primitive::String));
        types.push(TypeDef::Any);
        types.push(unit);
        types.push(kinds);
        types.push(address);
        types.push(components);
        types.push(component);
        types.push(formats);
        types.push(format);
        assert(types@.map_values(|t: TypeDef| t@) =~= target);
        types
    }

    fn from_value(value: &XmlValue) -> (typed: Option<CalendarProp>) {
        Some(
            match value {
                XmlValue::Variant(i, payload) => {
                    assert(value@ == ValueModel::Variant(*i as int, Box::new(payload.model())));
                    match &**payload {
                        XmlValue::Text(text) => {
                            if *i == 2 {
                                CalendarProp::Displayname(Some(text.clone()))
                            } else if *i == 6 {
                                CalendarProp::CalendarDescription(Some(text.clone()))
                            } else if *i == 8 {
                                CalendarProp::CalendarColor(Some(text.clone()))
                            } else {
                                CalendarProp::Invalid
                            }
                        },
                        _ => CalendarProp::Invalid,
                    }
                },
                _ => CalendarProp::Invalid,
            },
        )
    }

    fn to_value(&self) -> (value: Option<XmlValue>) {
        match self {
            CalendarProp::Resourcetype => Some(
                XmlValue::variant(
                    0,
                    make_plain(
                        "resourcetype",
                        two_entries(
                            make_plain("calendar", no_entries()),
                            make_plain("collection", no_entries()),
                        ),
                    ),
                ),
            ),
            CalendarProp::CurrentUserPrincipal(href) => Some(
                href_prop_of(1, "current-user-principal", href.as_str()),
            ),
            CalendarProp::Displayname(text) => Some(text_prop_of(2, text)),
            CalendarProp::SupportedCalendarComponentSet => Some(
                XmlValue::variant(
                    3,
                    make_plain(
                        "supported-calendar-component-set",
                        one_entry(0, make_attrs("comp", one_attr("VEVENT"))),
                    ),
                ),
            ),
            CalendarProp::SupportedCalendarData => Some(
                XmlValue::variant(
                    4,
                    make_plain(
                        "supported-calendar-data",
                        one_entry(
                            0,
                            make_attrs("calendar-data", two_attrs("text/calendar", "2.0")),
                        ),
                    ),
                ),
            ),
            CalendarProp::Getcontenttype(text) => Some(
                XmlValue::variant(5, XmlValue::text(text.clone())),
            ),
            CalendarProp::CalendarDescription(text) => Some(text_prop_of(6, text)),
            CalendarProp::Owner(href) => Some(href_prop_of(7, "owner", href.as_str())),
            CalendarProp::CalendarColor(text) => Some(text_prop_of(8, text)),
            CalendarProp::Invalid => None,
        }
    }
}

/// Every property but the marker is written.
pub proof fn lemma_calendar_props_are_written(prop: CalendarPropModel)
    requires
        !(prop is Invalid),
    ensures
        calendar_prop_value(prop) is Some,
        encode(calendar_prop_types(), 0, calendar_prop_value(prop)->0, None) is Some,
{
    reveal_with_fuel(encode_field, 3);
    reveal_with_fuel(encode_content, 3);
    reveal_with_fuel(entries_fit, 3);
    reveal_with_fuel(attr_list, 3);
    let types = calendar_prop_types();
    let variants = types[0]->Enum_0;
    assert(variants.len() == 10);
    assert(types[1] is Text && types[3] is Struct && types[4] is Struct && types[5] is Struct
        && types[6] is Struct && types[7] is Struct && types[8] is Struct && types[9] is Struct);
    let value = calendar_prop_value(prop)->0;
    let i = value->Variant_0;
    let payload = *value->Variant_1;
    assert(0 <= i < 9);
    assert(!variants[i].other);
    let tag = Some(variant_tag(variants[i]));
    match prop {
        CalendarPropModel::Resourcetype => {
            let s = types[4]->Struct_0;
            let unit = types[3]->Struct_0;
            let content = payload->content;
            assert(variants[0].shape == 4);
            assert(s.fields.len() == 2 && s.fields[0].shape == 3 && s.fields[1].shape == 3);
            assert(encode_struct(types, unit, content[0].value, Some(field_tag(s.fields[0])))
                is Some);
            assert(encode_struct(types, unit, content[1].value, Some(field_tag(s.fields[1])))
                is Some);
            assert(encode_entry(types, s, content[0]) is Some);
            assert(encode_entry(types, s, content[1]) is Some);
            assert(encode_field(types, s, content, 0, 2) is Some);
            assert(encode_field(types, s, content, 1, 2) is Some);
            assert(encode_content(types, s, content, 2) is Some);
            assert(encode_struct(types, s, payload, tag) is Some);
        },
        CalendarPropModel::CurrentUserPrincipal(_) => {
            let s = types[5]->Struct_0;
            let content = payload->content;
            assert(variants[1].shape == 5);
            assert(s.fields.len() == 1 && s.fields[0].shape == 1);
            assert(encode_entry(types, s, content[0]) is Some);
            assert(encode_field(types, s, content, 0, 1) is Some);
            assert(encode_content(types, s, content, 1) is Some);
            assert(encode_struct(types, s, payload, tag) is Some);
        },
        CalendarPropModel::Owner(_) => {
            let s = types[5]->Struct_0;
            let content = payload->content;
            assert(variants[7].shape == 5);
            assert(s.fields.len() == 1 && s.fields[0].shape == 1);
            assert(encode_entry(types, s, content[0]) is Some);
            assert(encode_field(types, s, content, 0, 1) is Some);
            assert(encode_content(types, s, content, 1) is Some);
            assert(encode_struct(types, s, payload, tag) is Some);
        },
        CalendarPropModel::SupportedCalendarComponentSet => {
            let s = types[6]->Struct_0;
            let inner = types[7]->Struct_0;
            let content = payload->content;
            assert(variants[3].shape == 6);
            assert(s.fields.len() == 1 && s.fields[0].shape == 7);
            assert(inner.fields.len() == 1 && inner.fields[0].ty == FieldType::Attr);
            assert(attr_list(inner, content[0].value->attributes, 1) is Some);
            assert(encode_struct(types, inner, content[0].value, Some(field_tag(s.fields[0])))
                is Some);
            assert(encode_entry(types, s, content[0]) is Some);
            assert(encode_field(types, s, content, 0, 1) is Some);
            assert(encode_content(types, s, content, 1) is Some);
            assert(encode_struct(types, s, payload, tag) is Some);
        },
        CalendarPropModel::SupportedCalendarData => {
            let s = types[8]->Struct_0;
            let inner = types[9]->Struct_0;
            let content = payload->content;
            assert(variants[4].shape == 8);
            assert(s.fields.len() == 1 && s.fields[0].shape == 9);
            assert(inner.fields.len() == 2 && inner.fields[0].ty == FieldType::Attr
                && inner.fields[1].ty == FieldType::Attr);
            assert(attr_list(inner, content[0].value->attributes, 2) is Some);
            assert(encode_struct(types, inner, content[0].value, Some(field_tag(s.fields[0])))
                is Some);
            assert(encode_entry(types, s, content[0]) is Some);
            assert(encode_field(types, s, content, 0, 1) is Some);
            assert(encode_content(types, s, content, 1) is Some);
            assert(encode_struct(types, s, payload, tag) is Some);
        },
        CalendarPropModel::Displayname(_) => {
            assert(variants[2].shape == 1);
        },
        CalendarPropModel::Getcontenttype(_) => {
            assert(variants[5].shape == 1);
        },
        CalendarPropModel::CalendarDescription(_) => {
            assert(variants[6].shape == 1);
        },
        CalendarPropModel::CalendarColor(_) => {
            assert(variants[8].shape == 1);
        },
        CalendarPropModel::Invalid => {},
    }
}

} // verus!
