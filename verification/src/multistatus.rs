//! The multistatus response: per resource, groups of properties that share a
//! status.

use vstd::prelude::*;
use crate::text::views;

verus! {

pub const STATUS_OK: u16 = 200;

pub const STATUS_NOT_FOUND: u16 = 404;

pub const STATUS_CONFLICT: u16 = 409;

/// A list of bare property names.
#[derive(Debug)]
pub struct TagList(pub Vec<String>);

impl View for TagList {
    type V = Seq<Seq<char>>;

    open spec fn view(&self) -> Seq<Seq<char>> {
        views(self.0@)
    }
}

impl TagList {
    pub fn from(names: Vec<String>) -> (list: TagList)
        ensures
            list@ == views(names@),
            list.0 == names,
    {
        TagList(names)
    }
}

/// A status and what it is the status of.
#[derive(Debug)]
pub struct PropstatElement<P> {
    pub prop: P,
    pub status: u16,
}

/// A group of one response entry: property values, or bare names.
#[derive(Debug)]
pub enum PropstatWrapper<T> {
    Normal(PropstatElement<Vec<T>>),
    TagList(PropstatElement<TagList>),
}

impl<T: View> PropstatWrapper<T> {
    /// Whether this is the group of the bare names `names` under `status`.
    pub open spec fn is_names(self, status: u16, names: Seq<Seq<char>>) -> bool {
        &&& self matches PropstatWrapper::TagList(el)
        &&& el.status == status
        &&& el.prop@ == names
    }

    /// Whether this is the group of the values `values` under `status`.
    pub open spec fn is_values(self, status: u16, values: Seq<T::V>) -> bool {
        &&& self matches PropstatWrapper::Normal(el)
        &&& el.status == status
        &&& el.prop@.map_values(|t: T| t@) == values
    }
}

/// The entry of one resource.
#[derive(Debug)]
pub struct ResponseElement<T> {
    pub href: String,
    /// The status of an entry that reports no property at all.
    pub status: Option<u16>,
    pub propstat: Vec<PropstatWrapper<T>>,
}

/// A whole response: the entries of the resource asked for, then those of
/// its members.
#[derive(Debug)]
pub struct MultistatusElement<T1, T2> {
    pub responses: Vec<ResponseElement<T1>>,
    pub member_responses: Vec<ResponseElement<T2>>,
}

} // verus!
