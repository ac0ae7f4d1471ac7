//! What the protocol layer asks of the calendar store.

use vstd::prelude::*;
use crate::error::Error;
use crate::xml::integer::{decimal, format_integer};

verus! {

/// A calendar collection as the store holds it.
#[derive(Debug)]
pub struct Calendar {
    pub principal: String,
    pub id: String,
    pub name: Option<String>,
    pub description: Option<String>,
    pub color: Option<String>,
}

pub struct CalendarModel {
    pub principal: Seq<char>,
    pub id: Seq<char>,
    pub name: Option<Seq<char>>,
    pub description: Option<Seq<char>>,
    pub color: Option<Seq<char>>,
}

/// The view of a text that may be missing.
pub open spec fn option_view(text: Option<String>) -> Option<Seq<char>> {
    match text {
        Some(t) => Some(t@),
        None => None,
    }
}

impl View for Calendar {
    type V = CalendarModel;

    open spec fn view(&self) -> CalendarModel {
        CalendarModel {
            principal: self.principal@,
            id: self.id@,
            name: option_view(self.name),
            description: option_view(self.description),
            color: option_view(self.color),
        }
    }
}

fn clone_text(text: &Option<String>) -> (copy: Option<String>)
    ensures
        option_view(copy) == option_view(*text),
{
    match text {
        Some(t) => Some(t.clone()),
        None => None,
    }
}

impl Calendar {
    /// A copy of the calendar.
    pub fn duplicate(&self) -> (copy: Calendar)
        ensures
            copy@ == self@,
    {
        Calendar {
            principal: self.principal.clone(),
            id: self.id.clone(),
            name: clone_text(&self.name),
            description: clone_text(&self.description),
            color: clone_text(&self.color),
        }
    }
}

/// A calendar object as the store holds it: an identifier and the object's
/// text, which this layer never looks into.
#[derive(Debug)]
pub struct CalendarObject {
    pub id: String,
    pub ics: String,
}

pub struct ObjectModel {
    pub id: Seq<char>,
    pub ics: Seq<char>,
}

impl View for CalendarObject {
    type V = ObjectModel;

    open spec fn view(&self) -> ObjectModel {
        ObjectModel { id: self.id@, ics: self.ics@ }
    }
}

/// The modulus of the checksum behind an entity tag.
pub const ETAG_MODULUS: u64 = 1_000_000_007;

/// The checksum `start` carried on over the first `n` characters of `text`.
pub open spec fn checksum(start: nat, text: Seq<char>, n: nat) -> nat
    decreases n,
{
    if n == 0 {
        start
    } else {
        ((checksum(start, text, (n - 1) as nat) * 31 + text[n - 1] as u32) % (
        ETAG_MODULUS as int)) as nat
    }
}

/// The entity tag of an object: a checksum over its identifier and its
/// text, in decimal. Equal objects have equal tags.
pub open spec fn spec_etag(object: ObjectModel) -> Seq<char> {
    decimal(
        checksum(checksum(0, object.id, object.id.len()), object.ics, object.ics.len()) as int,
    )
}

fn checksum_on(start: u64, text: &str) -> (sum: u64)
    requires
        start < ETAG_MODULUS,
    ensures
        sum == checksum(start as nat, text@, text@.len()),
        sum < ETAG_MODULUS,
{
    let mut sum = start;
    for c in it: text.chars()
        invariant
            it.seq() == text@,
            sum < ETAG_MODULUS,
            sum == checksum(start as nat, text@, it.index() as nat),
    {
        assert(c == text@[it.index()]);
        sum = (sum * 31 + (c as u32) as u64) % ETAG_MODULUS;
    }
    sum
}

impl CalendarObject {
    /// An object with the identifier `id` and the text `ics`.
    pub fn from_ics(id: String, ics: String) -> (object: CalendarObject)
        ensures
            object@ == (ObjectModel { id: id@, ics: ics@ }),
    {
        CalendarObject { id, ics }
    }

    /// A copy of the object.
    pub fn duplicate(&self) -> (copy: CalendarObject)
        ensures
            copy@ == self@,
    {
        CalendarObject { id: self.id.clone(), ics: self.ics.clone() }
    }

    pub fn get_uid(&self) -> (id: &str)
        ensures
            id@ == self@.id,
    {
        self.id.as_str()
    }

    pub fn get_ics(&self) -> (ics: &str)
        ensures
            ics@ == self@.ics,
    {
        self.ics.as_str()
    }

    pub fn get_etag(&self) -> (etag: String)
        ensures
            etag@ == spec_etag(self@),
    {
        let sum = checksum_on(checksum_on(0, self.id.as_str()), self.ics.as_str());
        format_integer(sum as i128)
    }
}

/// The failures of a store.
#[derive(Clone, Copy, Debug, PartialEq, Eq, Structural)]
pub enum StoreError {
    NotFound,
    /// The backend failed.
    Other,
}

impl StoreError {
    pub open spec fn spec_into_error(self) -> Error {
        match self {
            StoreError::NotFound => Error::NotFound,
            StoreError::Other => Error::InternalError,
        }
    }

    /// The failure of the request that met this failure of the store.
    pub fn into_error(self) -> (e: Error)
        ensures
            e == self.spec_into_error(),
    {
        match self {
            StoreError::NotFound => Error::NotFound,
            StoreError::Other => Error::InternalError,
        }
    }
}

/// A store of calendars and of the objects in them.
pub trait CalendarStore: Sized + View {
    spec fn spec_get_calendar(store: Self::V, principal: Seq<char>, id: Seq<char>) -> Result<
        CalendarModel,
        StoreError,
    >;

    spec fn spec_get_events(store: Self::V, cal_id: Seq<char>) -> Result<
        Seq<ObjectModel>,
        StoreError,
    >;

    spec fn spec_get_object(
        store: Self::V,
        principal: Seq<char>,
        cal_id: Seq<char>,
        object_id: Seq<char>,
    ) -> Result<ObjectModel, StoreError>;

    /// The store after an attempt to replace a calendar, and how it went.
    spec fn spec_update_calendar(
        store: Self::V,
        principal: Seq<char>,
        id: Seq<char>,
        calendar: CalendarModel,
    ) -> (Self::V, Result<(), StoreError>);

    /// The store after an attempt to put an object, and how it went.
    spec fn spec_put_object(
        store: Self::V,
        principal: Seq<char>,
        cal_id: Seq<char>,
        object: ObjectModel,
    ) -> (Self::V, Result<(), StoreError>);

    /// The store after an attempt to delete an object, and how it went.
    spec fn spec_delete_object(
        store: Self::V,
        principal: Seq<char>,
        cal_id: Seq<char>,
        object_id: Seq<char>,
        use_trashbin: bool,
    ) -> (Self::V, Result<(), StoreError>);

    /// An object that was put is the object found under its identifier.
    proof fn put_is_found(
        store: Self::V,
        principal: Seq<char>,
        cal_id: Seq<char>,
        object: ObjectModel,
    )
        ensures
            Self::spec_put_object(store, principal, cal_id, object).1 is Ok
                ==> Self::spec_get_object(
                Self::spec_put_object(store, principal, cal_id, object).0,
                principal,
                cal_id,
                object.id,
            ) == Ok::<ObjectModel, StoreError>(object),
    ;

    /// Putting an object leaves every calendar as it is.
    proof fn put_keeps_calendars(
        store: Self::V,
        principal: Seq<char>,
        cal_id: Seq<char>,
        object: ObjectModel,
        owner: Seq<char>,
        id: Seq<char>,
    )
        ensures
            Self::spec_get_calendar(
                Self::spec_put_object(store, principal, cal_id, object).0,
                owner,
                id,
            ) == Self::spec_get_calendar(store, owner, id),
    ;

    /// A calendar that replaced the one under its own name is the calendar
    /// found there.
    proof fn updated_is_found(store: Self::V, calendar: CalendarModel)
        ensures
            Self::spec_update_calendar(store, calendar.principal, calendar.id, calendar).1 is Ok
                ==> Self::spec_get_calendar(
                Self::spec_update_calendar(store, calendar.principal, calendar.id, calendar).0,
                calendar.principal,
                calendar.id,
            ) == Ok::<CalendarModel, StoreError>(calendar),
    ;

    fn get_calendar(&self, principal: &str, id: &str) -> (calendar: Result<Calendar, StoreError>)
        ensures
            match Self::spec_get_calendar(self@, principal@, id@) {
                Ok(v) => calendar matches Ok(x) && x@ == v,
                Err(e) => calendar matches Err(x) && x == e,
            },
    ;

    fn get_events(&self, cal_id: &str) -> (events: Result<Vec<CalendarObject>, StoreError>)
        ensures
            match Self::spec_get_events(self@, cal_id@) {
                Ok(list) => events matches Ok(v) && v@.map_values(|o: CalendarObject| o@) == list,
                Err(e) => events matches Err(x) && x == e,
            },
    ;

    fn get_object(&self, principal: &str, cal_id: &str, object_id: &str) -> (object: Result<
        CalendarObject,
        StoreError,
    >)
        ensures
            match Self::spec_get_object(self@, principal@, cal_id@, object_id@) {
                Ok(v) => object matches Ok(x) && x@ == v,
                Err(e) => object matches Err(x) && x == e,
            },
    ;

    fn update_calendar(&mut self, principal: String, id: String, calendar: Calendar) -> (done:
        Result<(), StoreError>)
        ensures
            (final(self)@, done) == Self::spec_update_calendar(
                old(self)@,
                principal@,
                id@,
                calendar@,
            ),
    ;

    fn put_object(&mut self, principal: String, cal_id: String, object: CalendarObject) -> (done:
        Result<(), StoreError>)
        ensures
            (final(self)@, done) == Self::spec_put_object(old(self)@, principal@, cal_id@, object@),
    ;

    fn delete_object(
        &mut self,
        principal: &str,
        cal_id: &str,
        object_id: &str,
        use_trashbin: bool,
    ) -> (done: Result<(), StoreError>)
        ensures
            (final(self)@, done) == Self::spec_delete_object(
                old(self)@,
                principal@,
                cal_id@,
                object_id@,
                use_trashbin,
            ),
    ;
}

} // verus!
