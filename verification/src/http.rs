//! Responses as plain values.

use vstd::prelude::*;

verus! {

/// One header of a response.
#[derive(Debug)]
pub struct Header {
    pub name: String,
    pub value: String,
}

/// What a handler answers: a status, headers and a body.
#[derive(Debug)]
pub struct HttpResponse {
    pub status: u16,
    pub headers: Vec<Header>,
    pub body: String,
}

pub struct ResponseModel {
    pub status: u16,
    pub headers: Seq<(Seq<char>, Seq<char>)>,
    pub body: Seq<char>,
}

impl View for Header {
    type V = (Seq<char>, Seq<char>);

    open spec fn view(&self) -> (Seq<char>, Seq<char>) {
        (self.name@, self.value@)
    }
}

impl View for HttpResponse {
    type V = ResponseModel;

    open spec fn view(&self) -> ResponseModel {
        ResponseModel {
            status: self.status,
            headers: self.headers@.map_values(|h: Header| h@),
            body: self.body@,
        }
    }
}

impl HttpResponse {
    /// A response without headers.
    pub fn new(status: u16, body: String) -> (response: HttpResponse)
        ensures
            response@ == (ResponseModel { status, headers: seq![], body: body@ }),
    {
        let response = HttpResponse { status, headers: Vec::new(), body };
        assert(response@.headers =~= seq![]);
        response
    }

    /// Adds a header after those that are there.
    pub fn insert_header(self, name: &str, value: String) -> (response: HttpResponse)
        ensures
            response@ == (ResponseModel {
                headers: self@.headers.push((name@, value@)),
                ..self@
            }),
    {
        let mut response = self;
        response.headers.push(Header { name: name.to_owned(), value });
        assert(response@.headers =~= self@.headers.push((name@, value@)));
        response
    }
}

} // verus!
