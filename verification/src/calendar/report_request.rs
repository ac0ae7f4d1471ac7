//! The body of a REPORT request on a calendar.

use vstd::prelude::*;
use crate::calendar::prop::attr_model;
use crate::elements::{
    inner_struct, make_struct, ns_caldav, ns_dav, PropfindModel, PropfindType, query_model,
    query_types, unnamed_field,
};
use crate::error::XmlDeError;
use crate::store::option_view;
use crate::text::views;
use crate::xml::de::decode;
use crate::xml::document::{find_root, root_position};
use crate::xml::dynamic::{ValueModel, XmlValue};
use crate::xml::event::{event_views, EventModel, XmlEvent};
use crate::xml::reader::{read_events, xml_events};
use crate::xml::schema::{
    count_fields, count_others, EnumDef, Field, FieldModel, FieldType, Primitive, Schema, schema_wf,
    TypeDef, TypeModel, Variant, VariantModel,
};

verus! {

/// The three ways to ask for properties.
#[derive(Clone, Copy, Debug, PartialEq, Eq, Structural)]
pub enum PropQuery {
    Allprop,
    Prop,
    Propname,
}

impl PropQuery {
    /// The way that a query asks.
    pub fn of(query: &PropfindType) -> (way: PropQuery)
        ensures
            way == match query@ {
                PropfindModel::Allprop => PropQuery::Allprop,
                PropfindModel::Prop(_) => PropQuery::Prop,
                PropfindModel::Propname => PropQuery::Propname,
            },
    {
        match query {
            PropfindType::Allprop => PropQuery::Allprop,
            PropfindType::Prop(_) => PropQuery::Prop,
            PropfindType::Propname => PropQuery::Propname,
        }
    }
}

/// `<calendar-multiget>`: the properties asked for, of the objects at the
/// listed addresses.
#[derive(Debug)]
pub struct CalendarMultigetRequest {
    pub prop: PropfindType,
    pub href: Vec<String>,
}

/// `<filter>`: the decoded tree of filters. It is kept as it was read.
#[derive(Debug)]
pub struct FilterElement {
    pub comp_filter: XmlValue,
}

/// `<calendar-query>`: the properties asked for, of the objects that pass a
/// filter.
#[derive(Debug)]
pub struct CalendarQueryRequest {
    pub prop: PropfindType,
    pub filter: Option<FilterElement>,
    pub timezone: Option<String>,
}

/// The body of a REPORT request.
#[derive(Debug)]
pub enum ReportRequest {
    CalendarMultiget(CalendarMultigetRequest),
    CalendarQuery(CalendarQueryRequest),
}

pub enum ReportModel {
    CalendarMultiget { prop: PropfindModel, href: Seq<Seq<char>> },
    CalendarQuery { prop: PropfindModel, filter: Option<ValueModel>, timezone: Option<Seq<char>> },
}

impl View for ReportRequest {
    type V = ReportModel;

    open spec fn view(&self) -> ReportModel {
        match self {
            ReportRequest::CalendarMultiget(r) => ReportModel::CalendarMultiget {
                prop: r.prop@,
                href: views(r.href@),
            },
            ReportRequest::CalendarQuery(r) => ReportModel::CalendarQuery {
                prop: r.prop@,
                filter: match r.filter {
                    Some(f) => Some(f.comp_filter@),
                    None => None,
                },
                timezone: option_view(r.timezone),
            },
        }
    }
}

impl ReportModel {
    /// The properties asked for.
    pub open spec fn query(self) -> PropfindModel {
        match self {
            ReportModel::CalendarMultiget { prop, .. } => prop,
            ReportModel::CalendarQuery { prop, .. } => prop,
        }
    }
}

/// A child element of CalDAV.
pub open spec fn caldav_child(name: Seq<char>, tag: Seq<char>, shape: int, required: bool, flatten: bool) -> FieldModel {
    FieldModel {
        ty: FieldType::Tag,
        name,
        tag,
        ns: Some("urn:ietf:params:xml:ns:caldav"@),
        flatten,
        required,
        shape,
    }
}

/// The types of a REPORT body: the two reports; `<calendar-multiget>`;
/// `<calendar-query>`; the three ways to ask with their types; a text;
/// `<filter>`; `<comp-filter>`, which may hold itself; `<time-range>`;
/// `<prop-filter>`; `<text-match>`; `<param-filter>`.
pub open spec fn report_types() -> Seq<TypeModel> {
    seq![
        TypeModel::Enum(
            seq![
                VariantModel {
                    name: "calendar-multiget"@,
                    tag: "C:calendar-multiget"@,
                    ns: Some("urn:ietf:params:xml:ns:caldav"@),
                    shape: 1,
                    other: false,
                },
                VariantModel {
                    name: "calendar-query"@,
                    tag: "C:calendar-query"@,
                    ns: Some("urn:ietf:params:xml:ns:caldav"@),
                    shape: 2,
                    other: false,
                },
            ],
        ),
        TypeModel::Struct(
            inner_struct(
                seq![
                    unnamed_field(FieldType::Untagged, 3, true, false),
                    FieldModel {
                        ty: FieldType::Tag,
                        name: "href"@,
                        tag: "href"@,
                        ns: Some("DAV:"@),
                        flatten: true,
                        required: false,
                        shape: 7,
                    },
                ],
            ),
        ),
        TypeModel::Struct(
            inner_struct(
                seq![
                    unnamed_field(FieldType::Untagged, 3, true, false),
                    caldav_child("filter"@, "C:filter"@, 8, false, false),
                    caldav_child("timezone"@, "C:timezone"@, 7, false, false),
                ],
            ),
        ),
    ] + query_types(3) + seq![
        TypeModel::Text(Primitive::String),
        TypeModel::Struct(
            inner_struct(seq![caldav_child("comp-filter"@, "C:comp-filter"@, 9, true, false)]),
        ),
        TypeModel::Struct(
            inner_struct(
                seq![
                    caldav_child("is-not-defined"@, "C:is-not-defined"@, 4, false, false),
                    caldav_child("time-range"@, "C:time-range"@, 10, false, false),
                    caldav_child("prop-filter"@, "C:prop-filter"@, 11, false, true),
                    caldav_child("comp-filter"@, "C:comp-filter"@, 9, false, true),
                    attr_model("name"@, true),
                ],
            ),
        ),
        TypeModel::Struct(
            inner_struct(seq![attr_model("start"@, false), attr_model("end"@, false)]),
        ),
        TypeModel::Struct(
            inner_struct(
                seq![
                    caldav_child("is-not-defined"@, "C:is-not-defined"@, 4, false, false),
                    caldav_child("time-range"@, "C:time-range"@, 10, false, false),
                    caldav_child("text-match"@, "C:text-match"@, 12, false, false),
                    caldav_child("param-filter"@, "C:param-filter"@, 13, false, true),
                    attr_model("name"@, false),
                ],
            ),
        ),
        TypeModel::Struct(
            inner_struct(
                seq![
                    attr_model("collation"@, false),
                    attr_model("negate-collation"@, false),
                    unnamed_field(FieldType::Text, 0, false, false),
                ],
            ),
        ),
        TypeModel::Struct(
            inner_struct(
                seq![
                    caldav_child("is-not-defined"@, "C:is-not-defined"@, 4, false, false),
                    caldav_child("text-match"@, "C:text-match"@, 12, false, false),
                    attr_model("name"@, true),
                ],
            ),
        ),
    ]
}

/// The table of the types of a REPORT body is well formed.
pub proof fn lemma_report_types_wf()
    ensures
        schema_wf(report_types()),
        report_types().len() == 14,
{
    reveal_with_fuel(count_fields, 6);
    reveal_with_fuel(count_others, 4);
    let types = report_types();
    assert(types[0] is Enum && types[1] is Struct && types[2] is Struct && types[3] is Enum
        && types[4] is Struct && types[5] is Struct && types[6] is Struct && types[7] is Text
        && types[8] is Struct && types[9] is Struct && types[10] is Struct && types[11] is Struct
        && types[12] is Struct && types[13] is Struct);
}

fn caldav_field_of(name: &str, tag: &str, shape: usize, required: bool, flatten: bool) -> (field:
    Field)
    ensures
        field@ == caldav_child(name@, tag@, shape as int, required, flatten),
{
    Field::tag(name, tag, Some(ns_caldav()), shape, required, flatten)
}

fn attr_of(name: &str, required: bool) -> (field: Field)
    ensures
        field@ == attr_model(name@, required),
{
    Field::attr(name, required)
}

/// The texts among the first `n` values, in order.
pub open spec fn texts_of(values: Seq<ValueModel>, n: nat) -> Seq<Seq<char>>
    decreases n,
{
    if n == 0 {
        seq![]
    } else {
        let before = texts_of(values, (n - 1) as nat);
        match values[n - 1] {
            ValueModel::Text(text) => before.push(text),
            _ => before,
        }
    }
}

/// The text that a value holds, if it is a text.
pub open spec fn text_of(value: Option<ValueModel>) -> Option<Seq<char>> {
    match value {
        Some(ValueModel::Text(text)) => Some(text),
        _ => None,
    }
}

/// What a decoded report stands for, if the way it asks is one of the
/// three.
pub open spec fn report_model(value: ValueModel) -> Option<ReportModel> {
    match value {
        ValueModel::Variant(i, payload) => match payload.last(0) {
            Some(query) => match query_model(query) {
                Some(prop) => if i == 0 {
                    Some(
                        ReportModel::CalendarMultiget {
                            prop,
                            href: texts_of(payload.all(1), payload.all(1).len()),
                        },
                    )
                } else if i == 1 {
                    Some(
                        ReportModel::CalendarQuery {
                            prop,
                            filter: match payload.last(1) {
                                Some(filter) => filter.last(0),
                                None => None,
                            },
                            timezone: text_of(payload.last(2)),
                        },
                    )
                } else {
                    None
                },
                None => None,
            },
            None => None,
        },
        _ => None,
    }
}

/// The report that the events of a body stand for.
pub open spec fn spec_parse_report(events: Seq<EventModel>) -> Result<ReportModel, XmlDeError> {
    match find_root(events, 0) {
        Err(e) => Err(e),
        Ok(at) => match decode(report_types(), 0, events, at) {
            Err(e) => Err(e),
            Ok((value, _)) => match report_model(value) {
                Some(report) => Ok(report),
                None => Err(XmlDeError::InvalidVariant),
            },
        },
    }
}

fn texts(values: &Vec<&XmlValue>) -> (list: Vec<String>)
    ensures
        views(list@) == texts_of(values@.map_values(|x: &XmlValue| x@), values.len() as nat),
{
    let ghost models = values@.map_values(|x: &XmlValue| x@);
    let mut list: Vec<String> = Vec::new();
    let mut i: usize = 0;
    assert(views(list@) =~= seq![]);
    while i < values.len()
        invariant
            i <= values.len(),
            models == values@.map_values(|x: &XmlValue| x@),
            views(list@) == texts_of(models, i as nat),
        decreases values.len() - i,
    {
        let ghost before = views(list@);
        assert(models[i as int] == values[i as int]@);
        match values[i] {
            XmlValue::Text(text) => {
                list.push(text.clone());
                assert(views(list@) =~= before.push(text@));
            },
            _ => {},
        }
        i = i + 1;
    }
    list
}

impl ReportRequest {
    /// The table of the types of a REPORT body. The two reports are its
    /// first type.
    pub fn schema() -> (schema: Schema)
        ensures
            schema@ == report_types(),
    {
        let ghost target = report_types();
        let mut variants: Vec<Variant> = Vec::new();
        variants.push(
            Variant::named("calendar-multiget", "C:calendar-multiget", Some(ns_caldav()), 1),
        );
        variants.push(Variant::named("calendar-query", "C:calendar-query", Some(ns_caldav()), 2));
        let reports = TypeDef::Enum(EnumDef { variants });
        assert(reports@ =~= target[0]) by {
            assert(variants@.map_values(|v: Variant| v@) =~= target[0]->Enum_0);
        }
        let mut fields: Vec<Field> = Vec::new();
        fields.push(Field::unnamed(FieldType::Untagged, 3, true, false));
        fields.push(Field::tag("href", "href", Some(ns_dav()), 7, false, true));
        let multiget = make_struct(fields);
        assert(multiget@ =~= target[1]) by {
            assert(fields@.map_values(|f: Field| f@) =~= target[1]->Struct_0.fields);
        }
        let mut fields: Vec<Field> = Vec::new();
        fields.push(Field::unnamed(FieldType::Untagged, 3, true, false));
        fields.push(caldav_field_of("filter", "C:filter", 8, false, false));
        fields.push(caldav_field_of("timezone", "C:timezone", 7, false, false));
        let query = make_struct(fields);
        assert(query@ =~= target[2]) by {
            assert(fields@.map_values(|f: Field| f@) =~= target[2]->Struct_0.fields);
        }
        let mut types: Vec<TypeDef> = Vec::new();
        types.push(reports);
        types.push(multiget);
        types.push(query);
        PropfindType::push_types(&mut types);
        let ghost head = types@.map_values(|t: TypeDef| t@);
        assert(head =~= target.take(7));
        let mut fields: Vec<Field> = Vec::new();
        fields.push(caldav_field_of("comp-filter", "C:comp-filter", 9, true, false));
        let filter = make_struct(fields);
        assert(filter@ =~= target[8]) by {
            assert(fields@.map_values(|f: Field| f@) =~= target[8]->Struct_0.fields);
        }
        let mut fields: Vec<Field> = Vec::new();
        fields.push(caldav_field_of("is-not-defined", "C:is-not-defined", 4, false, false));
        fields.push(caldav_field_of("time-range", "C:time-range", 10, false, false));
        fields.push(caldav_field_of("prop-filter", "C:prop-filter", 11, false, true));
        fields.push(caldav_field_of("comp-filter", "C:comp-filter", 9, false, true));
        fields.push(attr_of("name", true));
        let comp = make_struct(fields);
        assert(comp@ =~= target[9]) by {
            assert(fields@.map_values(|f: Field| f@) =~= target[9]->Struct_0.fields);
        }
        let mut fields: Vec<Field> = Vec::new();
        fields.push(attr_of("start", false));
        fields.push(attr_of("end", false));
        let range = make_struct(fields);
        assert(range@ =~= target[10]) by {
            assert(fields@.map_values(|f: Field| f@) =~= target[10]->Struct_0.fields);
        }
        let mut fields: Vec<Field> = Vec::new();
        fields.push(caldav_field_of("is-not-defined", "C:is-not-defined", 4, false, false));
        fields.push(caldav_field_of("time-range", "C:time-range", 10, false, false));
        fields.push(caldav_field_of("text-match", "C:text-match", 12, false, false));
        fields.push(caldav_field_of("param-filter", "C:param-filter", 13, false, true));
        fields.push(attr_of("name", false));
        let prop = make_struct(fields);
        assert(prop@ =~= target[11]) by {
            assert(fields@.map_values(|f: Field| f@) =~= target[11]->Struct_0.fields);
        }
        let mut fields: Vec<Field> = Vec::new();
        fields.push(attr_of("collation", false));
        fields.push(attr_of("negate-collation", false));
        fields.push(Field::unnamed(FieldType::Text, 0, false, false));
        let text = make_struct(fields);
        assert(text@ =~= target[12]) by {
            assert(fields@.map_values(|f: Field| f@) =~= target[12]->Struct_0.fields);
        }
        let mut fields: Vec<Field> = Vec::new();
        fields.push(caldav_field_of("is-not-defined", "C:is-not-defined", 4, false, false));
        fields.push(caldav_field_of("text-match", "C:text-match", 12, false, false));
        fields.push(attr_of("name", true));
        let param = make_struct(fields);
        assert(param@ =~= target[13]) by {
            assert(fields@.map_values(|f: Field| f@) =~= target[13]->Struct_0.fields);
        }
        assert(target.len() == 14);
        assert(types@.len() == 7);
        types.push(TypeDef::Text(Primitive::String));
        assert(types@.map_values(|t: TypeDef| t@) =~= target.take(8)) by {
            assert(target[7] == TypeModel::Text(Primitive::String));
            assert(types@.map_values(|t: TypeDef| t@) =~= head.push(target[7]));
        }
        types.push(filter);
        types.push(comp);
        types.push(range);
        types.push(prop);
        types.push(text);
        types.push(param);
        let schema = Schema { types };
        assert(schema@ =~= target) by {
            assert(schema@.len() == 14);
            assert forall|k: int| 0 <= k < 14 implies schema@[k] == target[k] by {
                if k < 8 {
                    assert(schema@[k] == target.take(8)[k]);
                }
            }
        }
        schema
    }

    /// The typed value of a decoded report.
    pub fn from_value(value: &XmlValue) -> (report: Option<ReportRequest>)
        ensures
            match report_model(value@) {
                Some(m) => report matches Some(r) && r@ == m,
                None => report is None,
            },
    {
        match value {
            XmlValue::Variant(i, payload) => {
                assert(value@ == ValueModel::Variant(*i as int, Box::new(payload.model())));
                let prop = match payload.last(0) {
                    Some(query) => match PropfindType::from_value(query) {
                        Some(prop) => prop,
                        None => {
                            return None;
                        },
                    },
                    None => {
                        return None;
                    },
                };
                if *i == 0 {
                    let href = texts(&payload.all(1));
                    Some(ReportRequest::CalendarMultiget(CalendarMultigetRequest { prop, href }))
                } else if *i == 1 {
                    let filter = match payload.last(1) {
                        Some(filter) => match filter.last(0) {
                            Some(comp) => Some(FilterElement { comp_filter: comp.duplicate() }),
                            None => None,
                        },
                        None => None,
                    };
                    let timezone = match payload.last(2) {
                        Some(XmlValue::Text(text)) => Some(text.clone()),
                        _ => None,
                    };
                    Some(
                        ReportRequest::CalendarQuery(
                            CalendarQueryRequest { prop, filter, timezone },
                        ),
                    )
                } else {
                    None
                }
            },
            _ => None,
        }
    }

    /// Decodes the events of a body.
    pub fn parse_events(events: &Vec<XmlEvent>) -> (report: Result<ReportRequest, XmlDeError>)
        ensures
            match spec_parse_report(event_views(events@)) {
                Ok(m) => report matches Ok(r) && r@ == m,
                Err(e) => report matches Err(x) && x == e,
            },
    {
        let schema = Self::schema();
        proof {
            lemma_report_types_wf();
        }
        let at = match root_position(events) {
            Ok(at) => at,
            Err(e) => {
                return Err(e);
            },
        };
        let value = match schema.decode(0, events, at) {
            Ok((value, _)) => value,
            Err(e) => {
                return Err(e);
            },
        };
        match Self::from_value(&value) {
            Some(report) => Ok(report),
            None => Err(XmlDeError::InvalidVariant),
        }
    }

    /// Decodes a body.
    pub fn parse_str(body: &str) -> (report: Result<ReportRequest, XmlDeError>)
        ensures
            match spec_parse_report(xml_events(body@)) {
                Ok(m) => report matches Ok(r) && r@ == m,
                Err(e) => report matches Err(x) && x == e,
            },
    {
        let events = read_events(body);
        Self::parse_events(&events)
    }
}

} // verus!
