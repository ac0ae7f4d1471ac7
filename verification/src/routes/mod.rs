//! Which handler serves which request, and the handlers of calendars.

pub mod calendar;

use vstd::prelude::*;
use crate::http::{HttpResponse, ResponseModel};
use crate::text::{str_eq, views};

verus! {

/// The methods that the service knows.
#[derive(Clone, Copy, Debug, PartialEq, Eq, Structural)]
pub enum Method {
    Options,
    Get,
    Put,
    Delete,
    Propfind,
    Proppatch,
    Report,
    Mkcalendar,
    /// Any other method.
    Other,
}

impl Method {
    pub open spec fn spec_from_name(name: Seq<char>) -> Method {
        if name == "OPTIONS"@ {
            Method::Options
        } else if name == "GET"@ {
            Method::Get
        } else if name == "PUT"@ {
            Method::Put
        } else if name == "DELETE"@ {
            Method::Delete
        } else if name == "PROPFIND"@ {
            Method::Propfind
        } else if name == "PROPPATCH"@ {
            Method::Proppatch
        } else if name == "REPORT"@ {
            Method::Report
        } else if name == "MKCALENDAR"@ {
            Method::Mkcalendar
        } else {
            Method::Other
        }
    }

    /// The method of a name as it stands in a request line.
    pub fn from_name(name: &str) -> (method: Method)
        ensures
            method == Self::spec_from_name(name@),
    {
        if str_eq(name, "OPTIONS") {
            Method::Options
        } else if str_eq(name, "GET") {
            Method::Get
        } else if str_eq(name, "PUT") {
            Method::Put
        } else if str_eq(name, "DELETE") {
            Method::Delete
        } else if str_eq(name, "PROPFIND") {
            Method::Propfind
        } else if str_eq(name, "PROPPATCH") {
            Method::Proppatch
        } else if str_eq(name, "REPORT") {
            Method::Report
        } else if str_eq(name, "MKCALENDAR") {
            Method::Mkcalendar
        } else {
            Method::Other
        }
    }
}

/// The kind of resource that a path below the mount point names.
#[derive(Clone, Copy, Debug, PartialEq, Eq, Structural)]
pub enum Endpoint {
    /// The mount point itself.
    Root,
    /// `/user/{principal}`
    Principal,
    /// `/user/{principal}/{calendar}`
    Calendar,
    /// `/user/{principal}/{calendar}/{event}`
    Object,
}

/// What is to be done with a request.
#[derive(Clone, Copy, Debug, PartialEq, Eq, Structural)]
pub enum Handler {
    Options,
    Propfind(Endpoint),
    Proppatch(Endpoint),
    Delete(Endpoint),
    Report,
    Mkcalendar,
    GetEvent,
    PutEvent,
}

/// The kind of resource that the segments of a path name, if any.
pub open spec fn spec_endpoint(segments: Seq<Seq<char>>) -> Option<Endpoint> {
    if segments.len() == 0 {
        Some(Endpoint::Root)
    } else if segments[0] != "user"@ {
        None
    } else if segments.len() == 2 {
        Some(Endpoint::Principal)
    } else if segments.len() == 3 {
        Some(Endpoint::Calendar)
    } else if segments.len() == 4 {
        Some(Endpoint::Object)
    } else {
        None
    }
}

/// The handler of a request, if there is one: OPTIONS is answered on every
/// path; properties are read and set on every resource; calendars and
/// their objects are deleted; reports are made on calendars, which are
/// also made; objects are read and written whole.
pub open spec fn spec_resolve(method: Method, segments: Seq<Seq<char>>) -> Option<Handler> {
    if method == Method::Options {
        Some(Handler::Options)
    } else {
        match spec_endpoint(segments) {
            None => None,
            Some(endpoint) => match method {
                Method::Propfind => Some(Handler::Propfind(endpoint)),
                Method::Proppatch => Some(Handler::Proppatch(endpoint)),
                Method::Delete => if endpoint == Endpoint::Calendar || endpoint
                    == Endpoint::Object {
                    Some(Handler::Delete(endpoint))
                } else {
                    None
                },
                Method::Report => if endpoint == Endpoint::Calendar {
                    Some(Handler::Report)
                } else {
                    None
                },
                Method::Mkcalendar => if endpoint == Endpoint::Calendar {
                    Some(Handler::Mkcalendar)
                } else {
                    None
                },
                Method::Get => if endpoint == Endpoint::Object {
                    Some(Handler::GetEvent)
                } else {
                    None
                },
                Method::Put => if endpoint == Endpoint::Object {
                    Some(Handler::PutEvent)
                } else {
                    None
                },
                _ => None,
            },
        }
    }
}

/// The kind of resource that the segments of a path name.
pub fn endpoint(segments: &Vec<String>) -> (found: Option<Endpoint>)
    ensures
        found == spec_endpoint(views(segments@)),
{
    if segments.len() == 0 {
        return Some(Endpoint::Root);
    }
    assert(views(segments@)[0] == segments[0]@);
    if !str_eq(segments[0].as_str(), "user") {
        return None;
    }
    if segments.len() == 2 {
        Some(Endpoint::Principal)
    } else if segments.len() == 3 {
        Some(Endpoint::Calendar)
    } else if segments.len() == 4 {
        Some(Endpoint::Object)
    } else {
        None
    }
}

/// The handler of a request with the given method on the path with the
/// given segments below the mount point.
pub fn resolve(method: Method, segments: &Vec<String>) -> (handler: Option<Handler>)
    ensures
        handler == spec_resolve(method, views(segments@)),
{
    if let Method::Options = method {
        return Some(Handler::Options);
    }
    let endpoint = match endpoint(segments) {
        Some(endpoint) => endpoint,
        None => {
            return None;
        },
    };
    match method {
        Method::Propfind => Some(Handler::Propfind(endpoint)),
        Method::Proppatch => Some(Handler::Proppatch(endpoint)),
        Method::Delete => match endpoint {
            Endpoint::Calendar | Endpoint::Object => Some(Handler::Delete(endpoint)),
            _ => None,
        },
        Method::Report => match endpoint {
            Endpoint::Calendar => Some(Handler::Report),
            _ => None,
        },
        Method::Mkcalendar => match endpoint {
            Endpoint::Calendar => Some(Handler::Mkcalendar),
            _ => None,
        },
        Method::Get => match endpoint {
            Endpoint::Object => Some(Handler::GetEvent),
            _ => None,
        },
        Method::Put => match endpoint {
            Endpoint::Object => Some(Handler::PutEvent),
            _ => None,
        },
        _ => None,
    }
}

/// The answer to OPTIONS: what the service can do.
pub open spec fn options_response() -> ResponseModel {
    ResponseModel {
        status: 200,
        headers: seq![
            (
                "Allow"@,
                "OPTIONS, GET, HEAD, POST, PUT, REPORT, PROPFIND, PROPPATCH, MKCALENDAR"@,
            ),
            ("DAV"@, "1, 2, 3, calendar-access, extended-mkcol"@),
        ],
        body: "options"@,
    }
}

/// Answers OPTIONS.
pub fn options_handler() -> (response: HttpResponse)
    ensures
        response@ == options_response(),
{
    let response = HttpResponse::new(200, "options".to_owned()).insert_header(
        "Allow",
        "OPTIONS, GET, HEAD, POST, PUT, REPORT, PROPFIND, PROPPATCH, MKCALENDAR".to_owned(),
    ).insert_header("DAV", "1, 2, 3, calendar-access, extended-mkcol".to_owned());
    assert(response@.headers =~= options_response().headers);
    response
}

/// The answer to a request for the well-known address of the service: a
/// permanent redirect to where the service is mounted.
pub fn well_known_redirect(caldav_root: &str) -> (response: HttpResponse)
    ensures
        response@ == (ResponseModel {
            status: 308,
            headers: seq![("Location"@, caldav_root@)],
            body: seq![],
        }),
{
    let response = HttpResponse::new(308, String::new()).insert_header(
        "Location",
        caldav_root.to_owned(),
    );
    assert(response@.headers =~= seq![("Location"@, caldav_root@)]);
    response
}

} // verus!
