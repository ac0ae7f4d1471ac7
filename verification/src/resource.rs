//! What a resource kind has to offer so that the generic engines can serve it.
//!
//! Contracts speak of a resource through its view: a plain mathematical
//! value that holds what the resource holds.

use vstd::prelude::*;
use crate::error::Error;
use crate::privileges::UserPrivilegeSet;
use crate::xml::typed::XmlType;

verus! {

/// An authenticated identity.
#[derive(Debug)]
pub struct User {
    pub id: String,
}

impl View for User {
    type V = Seq<char>;

    open spec fn view(&self) -> Seq<char> {
        self.id@
    }
}

/// A property value that may stand for a tag that could not be read.
pub trait InvalidProperty: View {
    spec fn spec_invalid_property(prop: Self::V) -> bool;

    /// Whether the value is the marker for an unreadable or unsettable tag.
    fn invalid_property(&self) -> (invalid: bool)
        ensures
            invalid == Self::spec_invalid_property(self@),
    ;
}

/// The closed set of property names of a resource kind.
pub trait PropName: Sized {
    /// The name that a wire tag stands for, if it is one of this kind.
    spec fn spec_from_str(tag: Seq<char>) -> Option<Self>;

    /// The wire tag of a name.
    spec fn spec_as_str(&self) -> Seq<char>;

    /// The wire tags of all the names, each once.
    spec fn spec_variants() -> Seq<Seq<char>>;

    /// A tag stands for a name exactly if it is listed, and then for the
    /// name whose tag it is; no tag is listed twice.
    proof fn variants_are_the_names()
        ensures
            Self::spec_variants().no_duplicates(),
            forall|tag: Seq<char>|
                #[trigger] Self::spec_variants().contains(tag) <==> Self::spec_from_str(
                    tag,
                ) is Some,
            forall|tag: Seq<char>|
                #[trigger] Self::spec_from_str(tag) is Some ==> Self::spec_from_str(
                    tag,
                )->0.spec_as_str() == tag,
    ;

    fn from_str(tag: &str) -> (name: Option<Self>)
        ensures
            name == Self::spec_from_str(tag@),
    ;

    fn as_str(&self) -> (tag: &'static str)
        ensures
            tag@ == self.spec_as_str(),
    ;

    fn variants() -> (tags: Vec<&'static str>)
        ensures
            static_views(tags@) == Self::spec_variants(),
    ;
}

/// One resource: its properties, and who may touch them.
pub trait Resource: Sized + View {
    type PropName: PropName;

    type Prop: InvalidProperty + XmlType;

    /// The value of a property, with `prefix` the path the service is
    /// mounted under.
    spec fn spec_get_prop(resource: Self::V, prefix: Seq<char>, prop: Self::PropName) -> Result<
        <Self::Prop as View>::V,
        Error,
    >;

    /// The resource after an attempt to set a property, and how it went.
    spec fn spec_set_prop(resource: Self::V, prop: <Self::Prop as View>::V) -> (
        Self::V,
        Result<(), Error>,
    );

    /// The resource after an attempt to remove a property, and how it went.
    spec fn spec_remove_prop(resource: Self::V, prop: Self::PropName) -> (
        Self::V,
        Result<(), Error>,
    );

    /// What the identity `user` may do to the resource.
    spec fn spec_user_privileges(resource: Self::V, user: Seq<char>) -> Result<
        UserPrivilegeSet,
        Error,
    >;

    /// The name under which the routes of this kind of resource are
    /// registered.
    spec fn spec_resource_name() -> Seq<char>;

    /// The name of the property that a value belongs to; `None` for the
    /// marker of an unreadable tag.
    spec fn spec_prop_name(prop: <Self::Prop as View>::V) -> Option<Self::PropName>;

    /// A value read under a name is a value of that name.
    proof fn get_prop_keeps_the_name(resource: Self::V, prefix: Seq<char>, prop: Self::PropName)
        ensures
            Self::spec_get_prop(resource, prefix, prop) matches Ok(value) ==> Self::spec_prop_name(
                value,
            ) == Some(prop),
    ;

    /// The wire names of all the properties of this kind.
    fn list_props() -> (names: Vec<&'static str>)
        ensures
            static_views(names@) == Self::PropName::spec_variants(),
    ;

    fn get_prop(&self, prefix: &str, prop: &Self::PropName) -> (value: Result<Self::Prop, Error>)
        ensures
            match Self::spec_get_prop(self@, prefix@, *prop) {
                Ok(v) => value matches Ok(x) && x@ == v,
                Err(e) => value matches Err(x) && x == e,
            },
    ;

    fn set_prop(&mut self, prop: Self::Prop) -> (done: Result<(), Error>)
        ensures
            (final(self)@, done) == Self::spec_set_prop(old(self)@, prop@),
    ;

    fn remove_prop(&mut self, prop: &Self::PropName) -> (done: Result<(), Error>)
        ensures
            (final(self)@, done) == Self::spec_remove_prop(old(self)@, *prop),
    ;

    fn get_user_privileges(&self, user: &User) -> (privileges: Result<UserPrivilegeSet, Error>)
        ensures
            privileges == Self::spec_user_privileges(self@, user@),
    ;

    /// The name under which the routes of this kind of resource are
    /// registered.
    fn resource_name() -> (name: &'static str)
        ensures
            name@ == Self::spec_resource_name(),
    ;
}

/// The session of one request on one URL: it fetches the resource from the
/// store and writes it back.
pub trait ResourceService: Sized + View {
    type Resource: Resource;

    /// What a fetch gives.
    spec fn spec_get_resource(service: Self::V) -> Result<<Self::Resource as View>::V, Error>;

    /// The session after an attempt to store a resource, and how it went.
    spec fn spec_save_resource(service: Self::V, file: <Self::Resource as View>::V) -> (
        Self::V,
        Result<(), Error>,
    );

    /// The session after an attempt to delete the resource, and how it went.
    spec fn spec_delete_resource(service: Self::V, use_trashbin: bool) -> (
        Self::V,
        Result<(), Error>,
    );

    /// What was stored is what the next fetch gives.
    proof fn saved_is_fetched(service: Self::V, file: <Self::Resource as View>::V)
        ensures
            Self::spec_save_resource(service, file).1 is Ok ==> Self::spec_get_resource(
                Self::spec_save_resource(service, file).0,
            ) == Ok::<<Self::Resource as View>::V, Error>(file),
    ;

    fn get_resource(&self) -> (resource: Result<Self::Resource, Error>)
        ensures
            match Self::spec_get_resource(self@) {
                Ok(v) => resource matches Ok(x) && x@ == v,
                Err(e) => resource matches Err(x) && x == e,
            },
    ;

    fn save_resource(&mut self, file: Self::Resource) -> (done: Result<(), Error>)
        ensures
            (final(self)@, done) == Self::spec_save_resource(old(self)@, file@),
    ;

    fn delete_resource(&mut self, use_trashbin: bool) -> (done: Result<(), Error>)
        ensures
            (final(self)@, done) == Self::spec_delete_resource(old(self)@, use_trashbin),
    ;
}

/// The views of a list of static strings.
pub open spec fn static_views(list: Seq<&'static str>) -> Seq<Seq<char>> {
    list.map_values(|t: &'static str| t@)
}

/// The views of a list of values.
pub open spec fn value_views<T: View>(list: Seq<T>) -> Seq<T::V> {
    list.map_values(|t: T| t@)
}

} // verus!
