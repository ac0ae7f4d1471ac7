//! The calendar object as a resource.

use vstd::prelude::*;
use vstd::string::StrSliceExecFns;
use crate::elements::{dav_variant, ns_caldav, ns_dav};
use crate::error::Error;
use crate::privileges::UserPrivilegeSet;
use crate::resource::{InvalidProperty, PropName, Resource, ResourceService, User};
use crate::store::{CalendarObject, CalendarStore, ObjectModel, spec_etag};
use crate::text::str_eq;
use crate::xml::de::{named_variant, pick_variant, variant_takes};
use crate::xml::dynamic::{ValueModel, XmlValue};
use crate::xml::round_trip::{canonical, canonical_plain, tag_of_variant};
use crate::xml::schema::{
    count_others, EnumDef, Primitive, TypeDef, TypeModel, Variant, VariantModel,
};
use crate::xml::se::{encode, encode_plain};
use crate::xml::typed::XmlType;

verus! {

/// The names of the properties of a calendar object.
#[derive(Clone, Copy, Debug, PartialEq, Eq, Structural)]
pub enum CalendarObjectPropName {
    Getetag,
    CalendarData,
    Getcontenttype,
}

impl PropName for CalendarObjectPropName {
    open spec fn spec_from_str(tag: Seq<char>) -> Option<CalendarObjectPropName> {
        if tag == "getetag"@ {
            Some(CalendarObjectPropName::Getetag)
        } else if tag == "calendar-data"@ {
            Some(CalendarObjectPropName::CalendarData)
        } else if tag == "getcontenttype"@ {
            Some(CalendarObjectPropName::Getcontenttype)
        } else {
            None
        }
    }

    open spec fn spec_as_str(&self) -> Seq<char> {
        match self {
            CalendarObjectPropName::Getetag => "getetag"@,
            CalendarObjectPropName::CalendarData => "calendar-data"@,
            CalendarObjectPropName::Getcontenttype => "getcontenttype"@,
        }
    }

    open spec fn spec_variants() -> Seq<Seq<char>> {
        seq!["getetag"@, "calendar-data"@, "getcontenttype"@]
    }

    proof fn variants_are_the_names() {
        reveal_strlit("getetag");
        reveal_strlit("calendar-data");
        reveal_strlit("getcontenttype");
        let tags = Self::spec_variants();
        assert(tags[0] == "getetag"@ && tags[1] == "calendar-data"@ && tags[2]
            == "getcontenttype"@);
        assert(tags[0].len() == 7 && tags[1].len() == 13 && tags[2].len() == 14);
    }

    fn from_str(tag: &str) -> (name: Option<CalendarObjectPropName>) {
        if str_eq(tag, "getetag") {
            Some(CalendarObjectPropName::Getetag)
        } else if str_eq(tag, "calendar-data") {
            Some(CalendarObjectPropName::CalendarData)
        } else if str_eq(tag, "getcontenttype") {
            Some(CalendarObjectPropName::Getcontenttype)
        } else {
            None
        }
    }

    fn as_str(&self) -> (tag: &'static str) {
        match self {
            CalendarObjectPropName::Getetag => "getetag",
            CalendarObjectPropName::CalendarData => "calendar-data",
            CalendarObjectPropName::Getcontenttype => "getcontenttype",
        }
    }

    fn variants() -> (tags: Vec<&'static str>) {
        let tags = vec!["getetag", "calendar-data", "getcontenttype"];
        assert(crate::resource::static_views(tags@) =~= Self::spec_variants());
        tags
    }
}

/// The value of a property of a calendar object.
#[derive(Debug)]
pub enum CalendarObjectProp {
    Getetag(String),
    CalendarData(String),
    Getcontenttype(String),
    /// A tag that is none of the above.
    Invalid,
}

pub enum CalendarObjectPropModel {
    Getetag(Seq<char>),
    CalendarData(Seq<char>),
    Getcontenttype(Seq<char>),
    Invalid,
}

impl View for CalendarObjectProp {
    type V = CalendarObjectPropModel;

    open spec fn view(&self) -> CalendarObjectPropModel {
        match self {
            CalendarObjectProp::Getetag(v) => CalendarObjectPropModel::Getetag(v@),
            CalendarObjectProp::CalendarData(v) => CalendarObjectPropModel::CalendarData(v@),
            CalendarObjectProp::Getcontenttype(v) => CalendarObjectPropModel::Getcontenttype(v@),
            CalendarObjectProp::Invalid => CalendarObjectPropModel::Invalid,
        }
    }
}

/// The types of the properties of a calendar object: the properties by
/// their tags, each a text, and any other element, which is passed over.
pub open spec fn calendar_object_prop_types() -> Seq<TypeModel> {
    seq![
        TypeModel::Enum(
            seq![
                dav_variant("getetag"@, 1),
                VariantModel {
                    name: "calendar-data"@,
                    tag: "C:calendar-data"@,
                    ns: Some("urn:ietf:params:xml:ns:caldav"@),
                    shape: 1,
                    other: false,
                },
                dav_variant("getcontenttype"@, 1),
                VariantModel { name: seq![], tag: seq![], ns: None, shape: 2, other: true },
            ],
        ),
        TypeModel::Text(Primitive::String),
        TypeModel::Any,
    ]
}

impl XmlType for CalendarObjectProp {
    open spec fn spec_types() -> Seq<TypeModel> {
        calendar_object_prop_types()
    }

    /// Any element is a property: one that is none of the three is
    /// `Invalid`.
    open spec fn spec_from_value(value: ValueModel) -> Option<CalendarObjectPropModel> {
        Some(
            match value {
                ValueModel::Variant(i, payload) => match *payload {
                    ValueModel::Text(text) => if i == 0 {
                        CalendarObjectPropModel::Getetag(text)
                    } else if i == 1 {
                        CalendarObjectPropModel::CalendarData(text)
                    } else if i == 2 {
                        CalendarObjectPropModel::Getcontenttype(text)
                    } else {
                        CalendarObjectPropModel::Invalid
                    },
                    _ => CalendarObjectPropModel::Invalid,
                },
                _ => CalendarObjectPropModel::Invalid,
            },
        )
    }

    open spec fn spec_to_value(value: CalendarObjectPropModel) -> Option<ValueModel> {
        match value {
            CalendarObjectPropModel::Getetag(text) => Some(
                ValueModel::Variant(0, Box::new(ValueModel::Text(text))),
            ),
            CalendarObjectPropModel::CalendarData(text) => Some(
                ValueModel::Variant(1, Box::new(ValueModel::Text(text))),
            ),
            CalendarObjectPropModel::Getcontenttype(text) => Some(
                ValueModel::Variant(2, Box::new(ValueModel::Text(text))),
            ),
            CalendarObjectPropModel::Invalid => None,
        }
    }

    proof fn types_are_wf() {
        reveal_with_fuel(count_others, 5);
        let types = calendar_object_prop_types();
        assert(types[0] is Enum && types[1] is Text && types[2] is Any);
    }

    fn types() -> (types: Vec<TypeDef>) {
        let mut variants: Vec<Variant> = Vec::new();
        variants.push(Variant::named("getetag", "getetag", Some(ns_dav()), 1));
        variants.push(Variant::named("calendar-data", "C:calendar-data", Some(ns_caldav()), 1));
        variants.push(Variant::named("getcontenttype", "getcontenttype", Some(ns_dav()), 1));
        variants.push(Variant::other(2));
        let props = TypeDef::Enum(EnumDef { variants });
        assert(props@ =~= calendar_object_prop_types()[0]) by {
            assert(variants@.map_values(|v: Variant| v@) =~= calendar_object_prop_types()[0]->Enum_0);
        }
        let mut types: Vec<TypeDef> = Vec::new();
        types.push(props);
        types.push(TypeDef::Text(Primitive::String));
        types.push(TypeDef::Any);
        assert(types@.map_values(|t: TypeDef| t@) =~= calendar_object_prop_types());
        types
    }

    fn from_value(value: &XmlValue) -> (typed: Option<CalendarObjectProp>) {
        Some(
            match value {
                XmlValue::Variant(i, payload) => {
                    assert(value@ == ValueModel::Variant(*i as int, Box::new(payload.model())));
                    match &**payload {
                        XmlValue::Text(text) => {
                            if *i == 0 {
                                CalendarObjectProp::Getetag(text.clone())
                            } else if *i == 1 {
                                CalendarObjectProp::CalendarData(text.clone())
                            } else if *i == 2 {
                                CalendarObjectProp::Getcontenttype(text.clone())
                            } else {
                                CalendarObjectProp::Invalid
                            }
                        },
                        _ => CalendarObjectProp::Invalid,
                    }
                },
                _ => CalendarObjectProp::Invalid,
            },
        )
    }

    fn to_value(&self) -> (value: Option<XmlValue>) {
        match self {
            CalendarObjectProp::Getetag(text) => Some(
                XmlValue::variant(0, XmlValue::text(text.clone())),
            ),
            CalendarObjectProp::CalendarData(text) => Some(
                XmlValue::variant(1, XmlValue::text(text.clone())),
            ),
            CalendarObjectProp::Getcontenttype(text) => Some(
                XmlValue::variant(2, XmlValue::text(text.clone())),
            ),
            CalendarObjectProp::Invalid => None,
        }
    }
}

/// Every property but the marker has an XML form in canonical form: it
/// is written, and what is written is decoded as the property.
pub proof fn lemma_props_are_canonical(prop: CalendarObjectPropModel)
    requires
        !(prop is Invalid),
    ensures
        CalendarObjectProp::spec_to_value(prop) is Some,
        canonical(
            calendar_object_prop_types(),
            0,
            CalendarObjectProp::spec_to_value(prop)->0,
            None,
        ),
        encode(calendar_object_prop_types(), 0, CalendarObjectProp::spec_to_value(prop)->0, None)
            is Some,
        CalendarObjectProp::spec_from_value(CalendarObjectProp::spec_to_value(prop)->0) == Some(
            prop,
        ),
{
    reveal_with_fuel(named_variant, 5);
    reveal_strlit("getetag");
    reveal_strlit("calendar-data");
    reveal_strlit("getcontenttype");
    let types = calendar_object_prop_types();
    let variants = types[0]->Enum_0;
    assert(types[1] == TypeModel::Text(Primitive::String));
    assert(variants[0] == dav_variant("getetag"@, 1));
    assert(variants[2] == dav_variant("getcontenttype"@, 1));
    assert(variants[1].name == "calendar-data"@);
    assert(variants.len() == 4);
    let value = CalendarObjectProp::spec_to_value(prop)->0;
    let i = value->Variant_0;
    let payload = *value->Variant_1;
    let tag = tag_of_variant(variants[i]);
    assert(0 <= i < 3);
    assert(variants[i].shape == 1);
    assert(!variants[i].other);
    assert(payload is Text);
    assert(canonical_plain(types, 1, payload, tag));
    let events = encode_plain(types, 1, payload, tag)->0;
    assert(events[0].local_name == variants[i].name);
    assert(events[0].namespace == variants[i].ns);
    assert(variant_takes(variants[i], events[0]));
    assert(named_variant(variants, events[0], 4) == Some(i));
    assert(pick_variant(variants, events[0]) == Some(i));
}

impl InvalidProperty for CalendarObjectProp {
    open spec fn spec_invalid_property(prop: CalendarObjectPropModel) -> bool {
        prop is Invalid
    }

    fn invalid_property(&self) -> (invalid: bool) {
        matches!(self, Self::Invalid)
    }
}

/// A calendar object of a principal, as a resource.
#[derive(Debug)]
pub struct CalendarObjectResource {
    pub object: CalendarObject,
    pub principal: String,
}

pub struct CalendarObjectResourceModel {
    pub object: ObjectModel,
    pub principal: Seq<char>,
}

impl View for CalendarObjectResource {
    type V = CalendarObjectResourceModel;

    open spec fn view(&self) -> CalendarObjectResourceModel {
        CalendarObjectResourceModel { object: self.object@, principal: self.principal@ }
    }
}

impl CalendarObjectResource {
    pub fn new(object: CalendarObject, principal: String) -> (resource: CalendarObjectResource)
        ensures
            resource@ == (CalendarObjectResourceModel { object: object@, principal: principal@ }),
    {
        CalendarObjectResource { object, principal }
    }

    /// The object behind the resource.
    pub fn into_object(self) -> (object: CalendarObject)
        ensures
            object@ == self@.object,
    {
        self.object
    }
}

impl Resource for CalendarObjectResource {
    type PropName = CalendarObjectPropName;

    type Prop = CalendarObjectProp;

    open spec fn spec_get_prop(
        resource: CalendarObjectResourceModel,
        prefix: Seq<char>,
        prop: CalendarObjectPropName,
    ) -> Result<CalendarObjectPropModel, Error> {
        Ok(
            match prop {
                CalendarObjectPropName::Getetag => CalendarObjectPropModel::Getetag(
                    spec_etag(resource.object),
                ),
                CalendarObjectPropName::CalendarData => CalendarObjectPropModel::CalendarData(
                    resource.object.ics,
                ),
                CalendarObjectPropName::Getcontenttype => CalendarObjectPropModel::Getcontenttype(
                    "text/calendar;charset=utf-8"@,
                ),
            },
        )
    }

    /// Every property of a calendar object is read-only.
    open spec fn spec_set_prop(resource: CalendarObjectResourceModel, prop: CalendarObjectPropModel) -> (
        CalendarObjectResourceModel,
        Result<(), Error>,
    ) {
        (resource, Err(Error::PropReadOnly))
    }

    open spec fn spec_remove_prop(
        resource: CalendarObjectResourceModel,
        prop: CalendarObjectPropName,
    ) -> (CalendarObjectResourceModel, Result<(), Error>) {
        (resource, Err(Error::PropReadOnly))
    }

    /// The owner may do everything, anybody else nothing.
    open spec fn spec_user_privileges(resource: CalendarObjectResourceModel, user: Seq<char>) -> Result<
        UserPrivilegeSet,
        Error,
    > {
        Ok(
            UserPrivilegeSet {
                read: resource.principal == user,
                write: resource.principal == user,
            },
        )
    }

    open spec fn spec_resource_name() -> Seq<char> {
        "caldav_calendar_object"@
    }

    open spec fn spec_prop_name(prop: CalendarObjectPropModel) -> Option<CalendarObjectPropName> {
        match prop {
            CalendarObjectPropModel::Getetag(_) => Some(CalendarObjectPropName::Getetag),
            CalendarObjectPropModel::CalendarData(_) => Some(CalendarObjectPropName::CalendarData),
            CalendarObjectPropModel::Getcontenttype(_) => Some(
                CalendarObjectPropName::Getcontenttype,
            ),
            CalendarObjectPropModel::Invalid => None,
        }
    }

    proof fn get_prop_keeps_the_name(
        resource: CalendarObjectResourceModel,
        prefix: Seq<char>,
        prop: CalendarObjectPropName,
    ) {
    }

    fn list_props() -> (names: Vec<&'static str>) {
        CalendarObjectPropName::variants()
    }

    fn get_prop(&self, prefix: &str, prop: &CalendarObjectPropName) -> (value: Result<
        CalendarObjectProp,
        Error,
    >) {
        let value = match prop {
            CalendarObjectPropName::Getetag => {
                let etag = self.object.get_etag();
                assert(etag@ == spec_etag(self@.object));
                CalendarObjectProp::Getetag(etag)
            },
            CalendarObjectPropName::CalendarData => {
                let ics = self.object.get_ics().to_owned();
                assert(ics@ == self@.object.ics);
                CalendarObjectProp::CalendarData(ics)
            },
            CalendarObjectPropName::Getcontenttype => {
                let kind = "text/calendar;charset=utf-8".to_owned();
                assert(kind@ == "text/calendar;charset=utf-8"@);
                CalendarObjectProp::Getcontenttype(kind)
            },
        };
        assert(Ok::<CalendarObjectPropModel, Error>(value@) == Self::spec_get_prop(
            self@,
            prefix@,
            *prop,
        ));
        Ok(value)
    }

    fn set_prop(&mut self, prop: CalendarObjectProp) -> (done: Result<(), Error>) {
        Err(Error::PropReadOnly)
    }

    fn remove_prop(&mut self, prop: &CalendarObjectPropName) -> (done: Result<(), Error>) {
        Err(Error::PropReadOnly)
    }

    fn get_user_privileges(&self, user: &User) -> (privileges: Result<UserPrivilegeSet, Error>) {
        Ok(UserPrivilegeSet::owner_only(str_eq(self.principal.as_str(), user.id.as_str())))
    }

    #[inline]
    fn resource_name() -> (name: &'static str) {
        "caldav_calendar_object"
    }
}

/// The session of a request on the URL of one calendar object.
pub struct CalendarObjectResourceService<C: CalendarStore> {
    pub cal_store: C,
    pub path: String,
    pub principal: String,
    pub cid: String,
    pub uid: String,
}

pub struct CalendarObjectServiceModel<S> {
    pub cal_store: S,
    pub path: Seq<char>,
    pub principal: Seq<char>,
    pub cid: Seq<char>,
    pub uid: Seq<char>,
}

impl<C: CalendarStore> View for CalendarObjectResourceService<C> {
    type V = CalendarObjectServiceModel<C::V>;

    open spec fn view(&self) -> CalendarObjectServiceModel<C::V> {
        CalendarObjectServiceModel {
            cal_store: self.cal_store@,
            path: self.path@,
            principal: self.principal@,
            cid: self.cid@,
            uid: self.uid@,
        }
    }
}

/// The identifier of the object that the last segment of a URL names: the
/// segment without a final `.ics`.
pub open spec fn object_id_of(segment: Seq<char>) -> Seq<char> {
    if segment.len() >= 4 && segment.skip(segment.len() - 4) == seq!['.', 'i', 'c', 's'] {
        segment.take(segment.len() - 4)
    } else {
        segment
    }
}

/// Takes a final `.ics` off the last segment of a URL.
pub fn strip_ics(segment: String) -> (uid: String)
    ensures
        uid@ == object_id_of(segment@),
{
    let s = segment.as_str();
    let n = s.unicode_len();
    if n >= 4 && s.get_char(n - 4) == '.' && s.get_char(n - 3) == 'i' && s.get_char(n - 2) == 'c'
        && s.get_char(n - 1) == 's' {
        assert(segment@.skip(n - 4) =~= seq!['.', 'i', 'c', 's']);
        s.substring_char(0, n - 4).to_owned()
    } else {
        assert(n >= 4 ==> segment@.skip(n - 4) != seq!['.', 'i', 'c', 's']) by {
            if n >= 4 {
                let tail = segment@.skip(n - 4);
                assert(tail[0] == segment@[n - 4] && tail[1] == segment@[n - 3] && tail[2]
                    == segment@[n - 2] && tail[3] == segment@[n - 1]);
            }
        }
        segment
    }
}

impl<C: CalendarStore> CalendarObjectResourceService<C> {
    /// The session for the object that `path_components` name: the
    /// principal, the calendar, and the last segment of the URL.
    pub fn new(cal_store: C, path: String, path_components: (String, String, String)) -> (service:
        Result<Self, Error>)
        ensures
            service matches Ok(s) && s@ == (CalendarObjectServiceModel {
                cal_store: cal_store@,
                path: path@,
                principal: path_components.0@,
                cid: path_components.1@,
                uid: object_id_of(path_components.2@),
            }),
    {
        let (principal, cid, uid) = path_components;
        let uid = strip_ics(uid);
        Ok(Self { cal_store, principal, cid, uid, path })
    }

    /// The resource, for a request made in the name of `principal`: only
    /// the owner gets it.
    pub fn get_resource_as(&self, principal: &str) -> (resource: Result<
        CalendarObjectResource,
        Error,
    >)
        ensures
            match (if self@.principal != principal@ {
                Err(Error::Unauthorized)
            } else {
                Self::spec_get_resource(self@)
            }) {
                Ok(v) => resource matches Ok(x) && x@ == v,
                Err(e) => resource matches Err(x) && x == e,
            },
    {
        if !str_eq(self.principal.as_str(), principal) {
            return Err(Error::Unauthorized);
        }
        self.get_resource()
    }

    /// Hands the store back.
    pub fn into_store(self) -> (store: C)
        ensures
            store@ == self@.cal_store,
    {
        self.cal_store
    }
}

impl<C: CalendarStore> ResourceService for CalendarObjectResourceService<C> {
    type Resource = CalendarObjectResource;

    open spec fn spec_get_resource(service: CalendarObjectServiceModel<C::V>) -> Result<
        CalendarObjectResourceModel,
        Error,
    > {
        match C::spec_get_object(service.cal_store, service.principal, service.cid, service.uid) {
            Ok(object) => Ok(CalendarObjectResourceModel { object, principal: service.principal }),
            Err(e) => Err(e.spec_into_error()),
        }
    }

    /// Storing a calendar object through its properties is not offered.
    open spec fn spec_save_resource(
        service: CalendarObjectServiceModel<C::V>,
        file: CalendarObjectResourceModel,
    ) -> (CalendarObjectServiceModel<C::V>, Result<(), Error>) {
        (service, Err(Error::NotImplemented))
    }

    open spec fn spec_delete_resource(
        service: CalendarObjectServiceModel<C::V>,
        use_trashbin: bool,
    ) -> (CalendarObjectServiceModel<C::V>, Result<(), Error>) {
        let (store, done) = C::spec_delete_object(
            service.cal_store,
            service.principal,
            service.cid,
            service.uid,
            use_trashbin,
        );
        (
            CalendarObjectServiceModel { cal_store: store, ..service },
            match done {
                Ok(()) => Ok(()),
                Err(e) => Err(e.spec_into_error()),
            },
        )
    }

    proof fn saved_is_fetched(
        service: CalendarObjectServiceModel<C::V>,
        file: CalendarObjectResourceModel,
    ) {
    }

    fn get_resource(&self) -> (resource: Result<CalendarObjectResource, Error>) {
        match self.cal_store.get_object(
            self.principal.as_str(),
            self.cid.as_str(),
            self.uid.as_str(),
        ) {
            Ok(object) => Ok(CalendarObjectResource { object, principal: self.principal.clone() }),
            Err(e) => Err(e.into_error()),
        }
    }

    fn save_resource(&mut self, file: CalendarObjectResource) -> (done: Result<(), Error>) {
        Err(Error::NotImplemented)
    }

    fn delete_resource(&mut self, use_trashbin: bool) -> (done: Result<(), Error>) {
        match self.cal_store.delete_object(
            self.principal.as_str(),
            self.cid.as_str(),
            self.uid.as_str(),
            use_trashbin,
        ) {
            Ok(()) => Ok(()),
            Err(e) => Err(e.into_error()),
        }
    }
}

} // verus!
