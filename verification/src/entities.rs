//! The endpoint as the user edits it: method, URL, headers and body. Nothing
//! here is checked; an endpoint may well be one that no request can be made
//! from.

use vstd::prelude::*;

use crate::text::same_text;

verus! {

/// A header as the user wrote it.
#[derive(Debug, PartialEq, Eq)]
pub struct Header {
    pub name: String,
    pub value: String,
}

/// What a header holds.
pub struct HeaderView {
    pub name: Seq<char>,
    pub value: Seq<char>,
}

impl View for Header {
    type V = HeaderView;

    open spec fn view(&self) -> HeaderView {
        HeaderView { name: self.name@, value: self.value@ }
    }
}

impl Header {
    /// A header of the given name and value.
    pub fn new(name: &str, value: &str) -> (h: Header)
        ensures
            h@ == (HeaderView { name: name@, value: value@ }),
    {
        Header { name: name.to_owned(), value: value.to_owned() }
    }
}

impl Clone for Header {
    fn clone(&self) -> (h: Header)
        ensures
            h@ == self@,
    {
        Header { name: self.name.clone(), value: self.value.clone() }
    }
}

/// What a list of headers holds, in the order of the list.
pub open spec fn headers_view(headers: Seq<Header>) -> Seq<HeaderView> {
    headers.map_values(|h: Header| h@)
}

/// A copy of a list of headers.
pub fn clone_headers(headers: &Vec<Header>) -> (r: Vec<Header>)
    ensures
        headers_view(r@) == headers_view(headers@),
{
    let mut r: Vec<Header> = Vec::new();
    let mut i: usize = 0;
    while i < headers.len()
        invariant
            i <= headers.len(),
            r.len() == i,
            forall|k: int| 0 <= k < i ==> (#[trigger] r@[k])@ == headers@[k]@,
        decreases headers.len() - i,
    {
        let h = headers[i].clone();
        r.push(h);
        i += 1;
    }
    proof {
        assert(headers_view(r@) =~= headers_view(headers@));
    }
    r
}

/// How the bytes of a raw body are to be read.
#[derive(Clone, Copy, Debug, PartialEq, Eq, Structural)]
pub enum RawEncoding {
    Plain,
    Json,
    Xml,
    OctetStream,
}

impl RawEncoding {
    /// The encoding that goes with the language of an editor, by the name
    /// of the language: `JSON` and `XML` have theirs, any other language and
    /// no language at all stand for plain bytes.
    pub open spec fn for_language(language: Option<Seq<char>>) -> RawEncoding {
        match language {
            Some(name) => if name == "JSON"@ {
                RawEncoding::Json
            } else if name == "XML"@ {
                RawEncoding::Xml
            } else {
                RawEncoding::OctetStream
            },
            None => RawEncoding::OctetStream,
        }
    }

    /// The encoding that goes with the language of an editor.
    pub fn of_language(language: Option<&str>) -> (r: RawEncoding)
        ensures
            r == Self::for_language(
                match language {
                    Some(name) => Some(name@),
                    None => None,
                },
            ),
    {
        match language {
            Some(name) => if same_text(name, "JSON") {
                RawEncoding::Json
            } else if same_text(name, "XML") {
                RawEncoding::Xml
            } else {
                RawEncoding::OctetStream
            },
            None => RawEncoding::OctetStream,
        }
    }

    /// The language in which an editor shows a body of this encoding, by
    /// its identifier: `json`, `xml`, or none.
    pub fn language_id(self) -> (id: Option<&'static str>)
        ensures
            match self {
                RawEncoding::Json => id matches Some(s) && s@ == "json"@,
                RawEncoding::Xml => id matches Some(s) && s@ == "xml"@,
                _ => id is None,
            },
    {
        match self {
            RawEncoding::Json => Some("json"),
            RawEncoding::Xml => Some("xml"),
            _ => None,
        }
    }
}

/// The body of a request.
#[derive(Debug, PartialEq, Eq)]
pub enum RequestPayload {
    /// No body.
    Empty,
    /// Bytes, and how they are to be read.
    Raw { encoding: RawEncoding, content: Vec<u8> },
    /// The fields of a URL-encoded form.
    Urlencoded(Vec<Header>),
    /// The fields of a multipart form.
    Multipart(Vec<Header>),
}

/// What a body holds.
pub enum PayloadView {
    Empty,
    Raw { encoding: RawEncoding, content: Seq<u8> },
    Urlencoded(Seq<HeaderView>),
    Multipart(Seq<HeaderView>),
}

impl View for RequestPayload {
    type V = PayloadView;

    open spec fn view(&self) -> PayloadView {
        match self {
            RequestPayload::Empty => PayloadView::Empty,
            RequestPayload::Raw { encoding, content } => PayloadView::Raw {
                encoding: *encoding,
                content: content@,
            },
            RequestPayload::Urlencoded(fields) => PayloadView::Urlencoded(headers_view(fields@)),
            RequestPayload::Multipart(fields) => PayloadView::Multipart(headers_view(fields@)),
        }
    }
}

impl Clone for RequestPayload {
    fn clone(&self) -> (p: RequestPayload)
        ensures
            p@ == self@,
    {
        match self {
            RequestPayload::Empty => RequestPayload::Empty,
            RequestPayload::Raw { encoding, content } => {
                let bytes = content.clone();
                proof {
                    assert(bytes@ =~= content@);
                }
                RequestPayload::Raw { encoding: *encoding, content: bytes }
            },
            RequestPayload::Urlencoded(fields) => RequestPayload::Urlencoded(clone_headers(fields)),
            RequestPayload::Multipart(fields) => RequestPayload::Multipart(clone_headers(fields)),
        }
    }
}

/// One HTTP call as the user describes it.
#[derive(Debug, PartialEq, Eq)]
pub struct EndpointData {
    /// The name of the HTTP verb, in any case of its letters.
    pub method: String,
    /// The URL, as written.
    pub url: String,
    /// The headers, in the order in which they were written. A name may
    /// occur more than once.
    pub headers: Vec<Header>,
    /// The body.
    pub body: RequestPayload,
}

/// What an endpoint holds.
pub struct EndpointView {
    pub method: Seq<char>,
    pub url: Seq<char>,
    pub headers: Seq<HeaderView>,
    pub body: PayloadView,
}

impl View for EndpointData {
    type V = EndpointView;

    open spec fn view(&self) -> EndpointView {
        EndpointView {
            method: self.method@,
            url: self.url@,
            headers: headers_view(self.headers@),
            body: self.body@,
        }
    }
}

impl Clone for EndpointData {
    fn clone(&self) -> (e: EndpointData)
        ensures
            e@ == self@,
    {
        EndpointData {
            method: self.method.clone(),
            url: self.url.clone(),
            headers: clone_headers(&self.headers),
            body: self.body.clone(),
        }
    }
}

impl EndpointData {
    /// What an endpoint holds that nobody has written yet: a `GET` of no
    /// URL, with no headers and no body.
    pub open spec fn blank() -> EndpointView {
        EndpointView {
            method: "GET"@,
            url: Seq::<char>::empty(),
            headers: Seq::<HeaderView>::empty(),
            body: PayloadView::Empty,
        }
    }
}

impl Default for EndpointData {
    /// A `GET` of no URL, with no headers and no body.
    fn default() -> (e: EndpointData)
        ensures
            e@ == EndpointData::blank(),
    {
        let e = EndpointData {
            method: "GET".to_owned(),
            url: String::new(),
            headers: Vec::new(),
            body: RequestPayload::Empty,
        };
        proof {
            assert(headers_view(e.headers@) =~= Seq::<HeaderView>::empty());
        }
        e
    }
}

/// What the export pane is asked to show.
#[derive(Debug, PartialEq, Eq)]
pub enum RequestExportType {
    /// Nothing.
    Nothing,
    /// The shell command that performs this endpoint.
    Curl(EndpointData),
}

} // verus!
