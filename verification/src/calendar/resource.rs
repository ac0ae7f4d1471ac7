//! The calendar collection as a resource.

use vstd::prelude::*;
use vstd::string::StringExecFns;
use crate::calendar::prop::{CalendarProp, CalendarPropModel, CalendarPropName};
use crate::error::Error;
use crate::privileges::UserPrivilegeSet;
use crate::resource::{PropName, Resource, ResourceService, User};
use crate::store::{Calendar, CalendarModel, CalendarStore, option_view};
use crate::text::str_eq;

verus! {

/// A calendar collection, as the identity `principal` sees it.
#[derive(Debug)]
pub struct CalendarResource {
    pub calendar: Calendar,
    pub principal: String,
}

pub struct CalendarResourceModel {
    pub calendar: CalendarModel,
    pub principal: Seq<char>,
}

impl View for CalendarResource {
    type V = CalendarResourceModel;

    open spec fn view(&self) -> CalendarResourceModel {
        CalendarResourceModel { calendar: self.calendar@, principal: self.principal@ }
    }
}

/// The address of a principal under the path `prefix`.
pub open spec fn principal_href(prefix: Seq<char>, principal: Seq<char>) -> Seq<char> {
    prefix + seq!['/'] + principal + seq!['/']
}

/// The address of a principal under the path `prefix`.
pub fn make_principal_href(prefix: &str, principal: &str) -> (href: String)
    ensures
        href@ == principal_href(prefix@, principal@),
{
    proof {
        reveal_strlit("/");
    }
    let mut href = prefix.to_owned();
    href.append("/");
    href.append(principal);
    href.append("/");
    href
}

fn clone_text(text: &Option<String>) -> (copy: Option<String>)
    ensures
        option_view(copy) == option_view(*text),
{
    match text {
        Some(t) => Some(t.clone()),
        None => None,
    }
}

impl Resource for CalendarResource {
    type PropName = CalendarPropName;

    type Prop = CalendarProp;

    open spec fn spec_get_prop(
        resource: CalendarResourceModel,
        prefix: Seq<char>,
        prop: CalendarPropName,
    ) -> Result<CalendarPropModel, Error> {
        Ok(
            match prop {
                CalendarPropName::Resourcetype => CalendarPropModel::Resourcetype,
                CalendarPropName::CurrentUserPrincipal => CalendarPropModel::CurrentUserPrincipal(
                    principal_href(prefix, resource.principal),
                ),
                CalendarPropName::Displayname => CalendarPropModel::Displayname(
                    resource.calendar.name,
                ),
                CalendarPropName::SupportedCalendarComponentSet => CalendarPropModel::SupportedCalendarComponentSet,
                CalendarPropName::SupportedCalendarData => CalendarPropModel::SupportedCalendarData,
                CalendarPropName::Getcontenttype => CalendarPropModel::Getcontenttype(
                    "text/calendar"@,
                ),
                CalendarPropName::CalendarDescription => CalendarPropModel::CalendarDescription(
                    resource.calendar.description,
                ),
                CalendarPropName::Owner => CalendarPropModel::Owner(
                    principal_href(prefix, resource.principal),
                ),
                CalendarPropName::CalendarColor => CalendarPropModel::CalendarColor(
                    resource.calendar.color,
                ),
            },
        )
    }

    /// The name, the description and the colour can be set; every other
    /// property is read-only.
    open spec fn spec_set_prop(resource: CalendarResourceModel, prop: CalendarPropModel) -> (
        CalendarResourceModel,
        Result<(), Error>,
    ) {
        match prop {
            CalendarPropModel::Displayname(name) => (
                CalendarResourceModel {
                    calendar: CalendarModel { name, ..resource.calendar },
                    ..resource
                },
                Ok(()),
            ),
            CalendarPropModel::CalendarDescription(description) => (
                CalendarResourceModel {
                    calendar: CalendarModel { description, ..resource.calendar },
                    ..resource
                },
                Ok(()),
            ),
            CalendarPropModel::CalendarColor(color) => (
                CalendarResourceModel {
                    calendar: CalendarModel { color, ..resource.calendar },
                    ..resource
                },
                Ok(()),
            ),
            _ => (resource, Err(Error::PropReadOnly)),
        }
    }

    /// Removing one of the three leaves the calendar without it.
    open spec fn spec_remove_prop(resource: CalendarResourceModel, prop: CalendarPropName) -> (
        CalendarResourceModel,
        Result<(), Error>,
    ) {
        match prop {
            CalendarPropName::Displayname => Self::spec_set_prop(
                resource,
                CalendarPropModel::Displayname(None),
            ),
            CalendarPropName::CalendarDescription => Self::spec_set_prop(
                resource,
                CalendarPropModel::CalendarDescription(None),
            ),
            CalendarPropName::CalendarColor => Self::spec_set_prop(
                resource,
                CalendarPropModel::CalendarColor(None),
            ),
            _ => (resource, Err(Error::PropReadOnly)),
        }
    }

    /// The owner may do everything, anybody else nothing.
    open spec fn spec_user_privileges(resource: CalendarResourceModel, user: Seq<char>) -> Result<
        UserPrivilegeSet,
        Error,
    > {
        Ok(
            UserPrivilegeSet {
                read: resource.calendar.principal == user,
                write: resource.calendar.principal == user,
            },
        )
    }

    open spec fn spec_resource_name() -> Seq<char> {
        "caldav_calendar"@
    }

    open spec fn spec_prop_name(prop: CalendarPropModel) -> Option<CalendarPropName> {
        match prop {
            CalendarPropModel::Resourcetype => Some(CalendarPropName::Resourcetype),
            CalendarPropModel::CurrentUserPrincipal(_) => Some(
                CalendarPropName::CurrentUserPrincipal,
            ),
            CalendarPropModel::Displayname(_) => Some(CalendarPropName::Displayname),
            CalendarPropModel::SupportedCalendarComponentSet => Some(
                CalendarPropName::SupportedCalendarComponentSet,
            ),
            CalendarPropModel::SupportedCalendarData => Some(
                CalendarPropName::SupportedCalendarData,
            ),
            CalendarPropModel::Getcontenttype(_) => Some(CalendarPropName::Getcontenttype),
            CalendarPropModel::CalendarDescription(_) => Some(
                CalendarPropName::CalendarDescription,
            ),
            CalendarPropModel::Owner(_) => Some(CalendarPropName::Owner),
            CalendarPropModel::CalendarColor(_) => Some(CalendarPropName::CalendarColor),
            CalendarPropModel::Invalid => None,
        }
    }

    proof fn get_prop_keeps_the_name(
        resource: CalendarResourceModel,
        prefix: Seq<char>,
        prop: CalendarPropName,
    ) {
    }

    fn list_props() -> (names: Vec<&'static str>) {
        CalendarPropName::variants()
    }

    fn get_prop(&self, prefix: &str, prop: &CalendarPropName) -> (value: Result<
        CalendarProp,
        Error,
    >) {
        let value = match prop {
            CalendarPropName::Resourcetype => CalendarProp::Resourcetype,
            CalendarPropName::CurrentUserPrincipal => {
                let href = make_principal_href(prefix, self.principal.as_str());
                assert(href@ == principal_href(prefix@, self@.principal));
                CalendarProp::CurrentUserPrincipal(href)
            },
            CalendarPropName::Displayname => {
                let name = clone_text(&self.calendar.name);
                assert(option_view(name) == self@.calendar.name);
                CalendarProp::Displayname(name)
            },
            CalendarPropName::SupportedCalendarComponentSet => CalendarProp::SupportedCalendarComponentSet,
            CalendarPropName::SupportedCalendarData => CalendarProp::SupportedCalendarData,
            CalendarPropName::Getcontenttype => {
                let kind = "text/calendar".to_owned();
                assert(kind@ == "text/calendar"@);
                CalendarProp::Getcontenttype(kind)
            },
            CalendarPropName::CalendarDescription => {
                let description = clone_text(&self.calendar.description);
                assert(option_view(description) == self@.calendar.description);
                CalendarProp::CalendarDescription(description)
            },
            CalendarPropName::Owner => {
                let href = make_principal_href(prefix, self.principal.as_str());
                assert(href@ == principal_href(prefix@, self@.principal));
                CalendarProp::Owner(href)
            },
            CalendarPropName::CalendarColor => {
                let color = clone_text(&self.calendar.color);
                assert(option_view(color) == self@.calendar.color);
                CalendarProp::CalendarColor(color)
            },
        };
        assert(Ok::<CalendarPropModel, Error>(value@) == Self::spec_get_prop(
            self@,
            prefix@,
            *prop,
        ));
        Ok(value)
    }

    fn set_prop(&mut self, prop: CalendarProp) -> (done: Result<(), Error>) {
        let ghost before = self@;
        let ghost target = Self::spec_set_prop(before, prop@);
        match prop {
            CalendarProp::Displayname(name) => {
                self.calendar.name = name;
                assert(self@.calendar == (CalendarModel {
                    name: option_view(name),
                    ..before.calendar
                }));
                assert(self@ == target.0);
                Ok(())
            },
            CalendarProp::CalendarDescription(description) => {
                self.calendar.description = description;
                assert(self@.calendar == (CalendarModel {
                    description: option_view(description),
                    ..before.calendar
                }));
                assert(self@ == target.0);
                Ok(())
            },
            CalendarProp::CalendarColor(color) => {
                self.calendar.color = color;
                assert(self@.calendar == (CalendarModel {
                    color: option_view(color),
                    ..before.calendar
                }));
                assert(self@ == target.0);
                Ok(())
            },
            _ => {
                assert(target == (before, Err::<(), Error>(Error::PropReadOnly)));
                Err(Error::PropReadOnly)
            },
        }
    }

    fn remove_prop(&mut self, prop: &CalendarPropName) -> (done: Result<(), Error>) {
        let ghost before = self@;
        let ghost target = Self::spec_remove_prop(before, *prop);
        match prop {
            CalendarPropName::Displayname => {
                self.calendar.name = None;
                assert(self@.calendar == (CalendarModel { name: None, ..before.calendar }));
                assert(self@ == target.0);
                Ok(())
            },
            CalendarPropName::CalendarDescription => {
                self.calendar.description = None;
                assert(self@.calendar == (CalendarModel { description: None, ..before.calendar }));
                assert(self@ == target.0);
                Ok(())
            },
            CalendarPropName::CalendarColor => {
                self.calendar.color = None;
                assert(self@.calendar == (CalendarModel { color: None, ..before.calendar }));
                assert(self@ == target.0);
                Ok(())
            },
            _ => {
                assert(target == (before, Err::<(), Error>(Error::PropReadOnly)));
                Err(Error::PropReadOnly)
            },
        }
    }

    fn get_user_privileges(&self, user: &User) -> (privileges: Result<UserPrivilegeSet, Error>) {
        Ok(
            UserPrivilegeSet::owner_only(
                str_eq(self.calendar.principal.as_str(), user.id.as_str()),
            ),
        )
    }

    #[inline]
    fn resource_name() -> (name: &'static str) {
        "caldav_calendar"
    }
}

/// The session of a request on the URL of one calendar collection.
pub struct CalendarResourceService<C: CalendarStore> {
    pub cal_store: C,
    pub principal: String,
    pub cid: String,
}

pub struct CalendarServiceModel<S> {
    pub cal_store: S,
    pub principal: Seq<char>,
    pub cid: Seq<char>,
}

impl<C: CalendarStore> View for CalendarResourceService<C> {
    type V = CalendarServiceModel<C::V>;

    open spec fn view(&self) -> CalendarServiceModel<C::V> {
        CalendarServiceModel {
            cal_store: self.cal_store@,
            principal: self.principal@,
            cid: self.cid@,
        }
    }
}

impl<C: CalendarStore> CalendarResourceService<C> {
    /// The session for the calendar `cid` of `principal`.
    pub fn new(cal_store: C, path_components: (String, String)) -> (service: Result<Self, Error>)
        ensures
            service matches Ok(s) && s@ == (CalendarServiceModel {
                cal_store: cal_store@,
                principal: path_components.0@,
                cid: path_components.1@,
            }),
    {
        let (principal, cid) = path_components;
        Ok(Self { cal_store, principal, cid })
    }

    /// Hands the store back.
    pub fn into_store(self) -> (store: C)
        ensures
            store@ == self@.cal_store,
    {
        self.cal_store
    }
}

/// Whether a resource is the calendar of a session: it lies where the
/// session's URL points.
pub open spec fn belongs<S>(service: CalendarServiceModel<S>, file: CalendarResourceModel) -> bool {
    file.principal == service.principal && file.calendar.principal == service.principal
        && file.calendar.id == service.cid
}

impl<C: CalendarStore> ResourceService for CalendarResourceService<C> {
    type Resource = CalendarResource;

    open spec fn spec_get_resource(service: CalendarServiceModel<C::V>) -> Result<
        CalendarResourceModel,
        Error,
    > {
        match C::spec_get_calendar(service.cal_store, service.principal, service.cid) {
            Ok(calendar) => Ok(CalendarResourceModel { calendar, principal: service.principal }),
            Err(e) => Err(e.spec_into_error()),
        }
    }

    /// A calendar is stored in place of the one it was fetched as. One that
    /// lies elsewhere is refused.
    open spec fn spec_save_resource(
        service: CalendarServiceModel<C::V>,
        file: CalendarResourceModel,
    ) -> (CalendarServiceModel<C::V>, Result<(), Error>) {
        if !belongs(service, file) {
            (service, Err(Error::Conflict))
        } else {
            let (store, done) = C::spec_update_calendar(
                service.cal_store,
                service.principal,
                service.cid,
                file.calendar,
            );
            (
                CalendarServiceModel { cal_store: store, ..service },
                match done {
                    Ok(()) => Ok(()),
                    Err(e) => Err(e.spec_into_error()),
                },
            )
        }
    }

    /// Deleting a whole calendar is not offered here.
    open spec fn spec_delete_resource(service: CalendarServiceModel<C::V>, use_trashbin: bool) -> (
        CalendarServiceModel<C::V>,
        Result<(), Error>,
    ) {
        (service, Err(Error::NotImplemented))
    }

    proof fn saved_is_fetched(service: CalendarServiceModel<C::V>, file: CalendarResourceModel) {
        if belongs(service, file) {
            C::updated_is_found(service.cal_store, file.calendar);
        }
    }

    fn get_resource(&self) -> (resource: Result<CalendarResource, Error>) {
        match self.cal_store.get_calendar(self.principal.as_str(), self.cid.as_str()) {
            Ok(calendar) => Ok(CalendarResource { calendar, principal: self.principal.clone() }),
            Err(e) => Err(e.into_error()),
        }
    }

    fn save_resource(&mut self, file: CalendarResource) -> (done: Result<(), Error>) {
        if !(str_eq(file.principal.as_str(), self.principal.as_str()) && str_eq(
            file.calendar.principal.as_str(),
            self.principal.as_str(),
        ) && str_eq(file.calendar.id.as_str(), self.cid.as_str())) {
            return Err(Error::Conflict);
        }
        match self.cal_store.update_calendar(
            self.principal.clone(),
            self.cid.clone(),
            file.calendar,
        ) {
            Ok(()) => Ok(()),
            Err(e) => Err(e.into_error()),
        }
    }

    fn delete_resource(&mut self, use_trashbin: bool) -> (done: Result<(), Error>) {
        Err(Error::NotImplemented)
    }
}

} // verus!
