//! The shell command that performs a request with `curl`.

use vstd::prelude::*;
use vstd::string::StringExecFns;

use crate::client::{BoundRequest, BoundView, bind, bind_spec};
use crate::entities::{
    EndpointData, EndpointView, HeaderView, PayloadView, RequestPayload, headers_view,
};
use crate::error::RequestError;
use crate::headers::{
    all_valid, as_map, ascending, distinct_names, effective_headers, lemma_listing_ascends,
    lemma_listing_of_ascending, lemma_same_set_same_headers, normalized,
};
use crate::json::{compact, compact_json, lossy_text, utf8_lossy};
use crate::method::method_named;
use crate::text::chars_of;
use crate::url::is_absolute_url;

verus! {

/// The first words of the command: `curl -X`, the verb and the URL.
pub open spec fn request_line(b: BoundView) -> Seq<char> {
    "curl -X "@ + b.method.name() + " "@ + b.url
}

/// The clause that sets one header, after the line continuation that
/// precedes every clause.
pub open spec fn header_clause(h: HeaderView) -> Seq<char> {
    " \\\n  -H '"@ + h.name + ": "@ + h.value + "'"@
}

/// The clauses of the headers, in the order of the list.
pub open spec fn header_clauses(hs: Seq<HeaderView>) -> Seq<char>
    decreases hs.len(),
{
    if hs.len() == 0 {
        Seq::empty()
    } else {
        header_clauses(hs.drop_last()) + header_clause(hs.last())
    }
}

/// What stands for `c` between single quotes in a shell command: for a
/// single quote the four characters `'\''`, which end the quoted text, add
/// a quote and open the text again; for any other character itself.
pub open spec fn escaped_char(c: char) -> Seq<char> {
    if c == '\'' {
        "'\\''"@
    } else {
        seq![c]
    }
}

/// `text` as it stands between single quotes in a shell command.
pub open spec fn escaped(text: Seq<char>) -> Seq<char>
    decreases text.len(),
{
    if text.len() == 0 {
        Seq::empty()
    } else {
        escaped(text.drop_last()) + escaped_char(text.last())
    }
}

/// What a shell reads from a word made of single-quoted stretches and of
/// characters that a backslash escapes, starting inside a quoted stretch or
/// outside one: between quotes every character but the quote stands for
/// itself; outside them a quote opens a stretch and a backslash lets the
/// next character stand for itself. `None` where a stretch is left open or
/// where the word holds anything else.
pub open spec fn shell_reading(word: Seq<char>, quoted: bool) -> Option<Seq<char>>
    decreases word.len(),
{
    if word.len() == 0 {
        if quoted {
            None
        } else {
            Some(Seq::empty())
        }
    } else if word.first() == '\'' {
        shell_reading(word.drop_first(), !quoted)
    } else if quoted {
        match shell_reading(word.drop_first(), true) {
            Some(rest) => Some(seq![word.first()] + rest),
            None => None,
        }
    } else if word.first() == '\\' && word.len() >= 2 {
        match shell_reading(word.skip(2), false) {
            Some(rest) => Some(seq![word[1]] + rest),
            None => None,
        }
    } else {
        None
    }
}

/// The clause that sends a JSON body, after the line continuation that
/// precedes every clause; nothing where there is no JSON to send.
pub open spec fn body_clause(json: Option<Seq<char>>) -> Seq<char> {
    match json {
        Some(text) => " \\\n  -d '"@ + escaped(text) + "'"@,
        None => Seq::empty(),
    }
}

/// The whole command: the request line, a clause for each header, and the
/// body clause last.
pub open spec fn command_text(b: BoundView, json: Option<Seq<char>>) -> Seq<char> {
    request_line(b) + header_clauses(b.headers) + body_clause(json)
}

/// The JSON that is sent for a body: for raw bytes that are not empty and
/// read as a JSON document, that document in compact form. Any other body
/// sends nothing.
pub open spec fn body_json(body: PayloadView) -> Option<Seq<char>> {
    match body {
        PayloadView::Raw { encoding, content } => if content.len() > 0 {
            compact_json(utf8_lossy(content))
        } else {
            None
        },
        _ => None,
    }
}

/// What exporting an endpoint gives: the error of binding it, or the command
/// of the request it binds to.
pub open spec fn generate_spec(e: EndpointView) -> Result<Seq<char>, RequestError> {
    match bind_spec(e) {
        Ok(b) => Ok(command_text(b, body_json(e.body))),
        Err(err) => Err(err),
    }
}

/// What an optional text holds.
pub open spec fn text_view(text: Option<&str>) -> Option<Seq<char>> {
    match text {
        Some(t) => Some(t@),
        None => None,
    }
}

/// Exporting depends on nothing but what the endpoint holds: two endpoints
/// with the same method, URL and body, whose header lists are both valid or
/// both not and come to the same headers, export alike, to the last character.
pub proof fn lemma_export_is_determined(a: EndpointView, b: EndpointView)
    requires
        a.method == b.method,
        a.url == b.url,
        a.body == b.body,
        all_valid(a.headers) == all_valid(b.headers),
        effective_headers(a.headers) == effective_headers(b.headers),
    ensures
        generate_spec(a) == generate_spec(b),
{
}

/// Two endpoints with the same method, URL, set of headers and body export
/// alike, whatever the order in which the headers were written, as long as
/// no name is written twice.
pub proof fn lemma_same_headers_export_alike(a: EndpointView, b: EndpointView)
    requires
        a.method == b.method,
        a.url == b.url,
        a.body == b.body,
        a.headers.to_set() == b.headers.to_set(),
        distinct_names(a.headers),
        distinct_names(b.headers),
    ensures
        generate_spec(a) == generate_spec(b),
{
    lemma_same_set_same_headers(a.headers, b.headers);
}

/// In the command of an endpoint the headers stand in strictly ascending
/// lexicographic order of name, whatever the order in which they were
/// written, and they are the headers that the written list comes to.
pub proof fn lemma_exported_headers_ascend(e: EndpointView)
    requires
        bind_spec(e) is Ok,
    ensures
        ascending(bind_spec(e)->Ok_0.headers),
        as_map(bind_spec(e)->Ok_0.headers) == effective_headers(e.headers),
        generate_spec(e) == Ok::<Seq<char>, RequestError>(
            request_line(bind_spec(e)->Ok_0) + header_clauses(bind_spec(e)->Ok_0.headers)
                + body_clause(body_json(e.body)),
        ),
{
    lemma_listing_ascends(e.headers.map_values(|h: HeaderView| normalized(h)));
}

/// The clauses stand in the order of the list: the clause of a header comes
/// after the clauses of the headers before it and before the clauses of
/// those after it.
pub proof fn lemma_clauses_follow_the_list(hs: Seq<HeaderView>, i: int)
    requires
        0 <= i < hs.len(),
    ensures
        header_clauses(hs) == header_clauses(hs.take(i)) + header_clause(hs[i]) + header_clauses(
            hs.skip(i + 1),
        ),
    decreases hs.len(),
{
    let rest = hs.drop_last();
    if i == hs.len() - 1 {
        assert(hs.take(i) =~= rest);
        assert(hs.skip(i + 1) =~= Seq::<HeaderView>::empty());
        assert(header_clauses(hs) =~= header_clauses(hs.take(i)) + header_clause(hs[i])
            + header_clauses(hs.skip(i + 1)));
    } else {
        lemma_clauses_follow_the_list(rest, i);
        assert(rest.take(i) =~= hs.take(i));
        assert(hs.skip(i + 1).drop_last() =~= rest.skip(i + 1));
        assert(hs.skip(i + 1).last() == hs.last());
        assert(header_clauses(hs) =~= header_clauses(hs.take(i)) + header_clause(hs[i])
            + header_clauses(hs.skip(i + 1)));
    }
}

/// An endpoint with an absolute URL, a supported method and valid headers
/// binds, the request keeps the URL as written and the verb that the method
/// names, and the command begins with `curl -X`, the name of that verb and
/// that URL.
pub proof fn lemma_request_line_round_trip(e: EndpointView)
    requires
        is_absolute_url(e.url),
        method_named(e.method) is Some,
        all_valid(e.headers),
    ensures
        bind_spec(e) is Ok,
        bind_spec(e)->Ok_0.url == e.url,
        bind_spec(e)->Ok_0.method == method_named(e.method)->Some_0,
        generate_spec(e) is Ok,
        ({
            let line = "curl -X "@ + method_named(e.method)->Some_0.name() + " "@ + e.url;
            let command = generate_spec(e)->Ok_0;
            line.len() <= command.len() && command.subrange(0, line.len() as int) == line
        }),
{
    let line = "curl -X "@ + method_named(e.method)->Some_0.name() + " "@ + e.url;
    let command = generate_spec(e)->Ok_0;
    assert(command.subrange(0, line.len() as int) =~= line);
}

/// An endpoint without headers exports to the request line and the body
/// clause, with no header clause; where no JSON is sent, to the request line
/// alone.
pub proof fn lemma_no_headers_no_clauses(e: EndpointView)
    requires
        bind_spec(e) is Ok,
        e.headers.len() == 0,
    ensures
        bind_spec(e)->Ok_0.headers.len() == 0,
        generate_spec(e) == Ok::<Seq<char>, RequestError>(
            request_line(bind_spec(e)->Ok_0) + body_clause(body_json(e.body)),
        ),
        body_json(e.body) is None ==> generate_spec(e) == Ok::<Seq<char>, RequestError>(
            request_line(bind_spec(e)->Ok_0),
        ),
{
    let none = Seq::<HeaderView>::empty();
    assert(e.headers.map_values(|h: HeaderView| normalized(h)) =~= none);
    lemma_listing_of_ascending(none);
    let b = bind_spec(e)->Ok_0;
    assert(b.headers == none);
    assert(request_line(b) + header_clauses(none) + body_clause(body_json(e.body))
        =~= request_line(b) + body_clause(body_json(e.body)));
    if body_json(e.body) is None {
        assert(request_line(b) + body_clause(body_json(e.body)) =~= request_line(b));
    }
}

/// Escaping goes character by character: the escaped form of two texts
/// joined is their escaped forms joined.
pub proof fn lemma_escaped_joins(a: Seq<char>, b: Seq<char>)
    ensures
        escaped(a + b) == escaped(a) + escaped(b),
    decreases b.len(),
{
    if b.len() == 0 {
        assert(a + b =~= a);
        assert(escaped(a) + escaped(b) =~= escaped(a));
    } else {
        lemma_escaped_joins(a, b.drop_last());
        assert((a + b).drop_last() =~= a + b.drop_last());
        assert((a + b).last() == b.last());
        assert(escaped(a + b) =~= escaped(a) + escaped(b));
    }
}

/// The escaped form is safe between single quotes: from the quote that opens
/// the text to the quote that closes it, a shell reads back the text as it
/// was, whatever quotes it holds.
pub proof fn lemma_shell_reads_text_back(text: Seq<char>)
    ensures
        shell_reading(seq!['\''] + escaped(text) + seq!['\''], false) == Some(text),
        shell_reading(escaped(text) + seq!['\''], true) == Some(text),
    decreases text.len(),
{
    reveal_strlit("'\\''");
    let close = seq!['\''];
    let word = escaped(text) + close;
    assert((seq!['\''] + escaped(text) + close).drop_first() =~= word);
    if text.len() == 0 {
        assert(text =~= Seq::<char>::empty());
        assert(escaped(text) =~= Seq::<char>::empty());
        assert(word =~= close);
        assert(word.first() == '\'');
        assert(word.drop_first() =~= Seq::<char>::empty());
        assert(shell_reading(word.drop_first(), false) == Some(Seq::<char>::empty()));
        assert(shell_reading(word, true) == Some(text));
    } else {
        let c = text.first();
        let rest = text.drop_first();
        let after = escaped(rest) + close;
        lemma_shell_reads_text_back(rest);
        assert(text =~= seq![c] + rest);
        lemma_escaped_joins(seq![c], rest);
        assert(seq![c].drop_last() =~= Seq::<char>::empty());
        assert(escaped(Seq::<char>::empty()) =~= Seq::<char>::empty());
        assert(seq![c].last() == c);
        assert(escaped(seq![c]) =~= escaped_char(c));
        assert(word =~= escaped_char(c) + after);
        if c == '\'' {
            let reopened = seq!['\\', '\'', '\''] + after;
            assert(word.drop_first() =~= reopened);
            assert(reopened.skip(2) =~= seq!['\''] + after);
            assert((seq!['\''] + after).drop_first() =~= after);
            assert(shell_reading(seq!['\''] + after, false) == Some(rest));
            assert(shell_reading(reopened, false) == Some(seq!['\''] + rest));
        } else {
            assert(word.drop_first() =~= after);
        }
        assert(shell_reading(word, true) == Some(text));
    }
}

/// `text` as it stands between single quotes in a shell command.
pub fn shell_escape(text: &str) -> (r: String)
    ensures
        r@ == escaped(text@),
{
    let chars = chars_of(text);
    let mut r = String::new();
    let mut i: usize = 0;
    while i < chars.len()
        invariant
            i <= chars.len(),
            chars@ == text@,
            r@ == escaped(chars@.take(i as int)),
        decreases chars.len() - i,
    {
        let c = chars[i];
        proof {
            assert(chars@.take(i + 1).drop_last() =~= chars@.take(i as int));
            assert(chars@.take(i + 1).last() == c);
        }
        if c == '\'' {
            r.append("'\\''");
        } else {
            r.push(c);
            proof {
                assert(escaped_char(c) =~= seq![c]);
                assert(r@ =~= escaped(chars@.take(i as int)) + seq![c]);
            }
        }
        i += 1;
    }
    proof {
        assert(chars@.take(chars.len() as int) =~= chars@);
    }
    r
}

/// The JSON that is sent for a body.
pub fn body_text(body: &RequestPayload) -> (r: Option<String>)
    ensures
        match r {
            Some(text) => body_json(body@) == Some(text@),
            None => body_json(body@) is None,
        },
{
    match body {
        RequestPayload::Raw { encoding: _, content } => {
            if content.len() == 0 {
                None
            } else {
                let text = lossy_text(content.as_slice());
                compact(text.as_str())
            }
        },
        _ => None,
    }
}

/// Writes the command that performs `bound`, sending `json` as its body
/// where there is one.
pub fn render_command(bound: &BoundRequest, json: Option<&str>) -> (command: String)
    ensures
        command@ == command_text(bound@, text_view(json)),
{
    let mut command = String::from_str("curl -X ");
    command.append(bound.method().as_str());
    command.append(" ");
    command.append(bound.url());
    let headers = bound.headers();
    let ghost listed = headers_view(headers@);
    let mut i: usize = 0;
    proof {
        assert(command@ =~= request_line(bound@) + header_clauses(listed.take(0)));
    }
    while i < headers.len()
        invariant
            i <= headers.len(),
            listed == headers_view(headers@),
            command@ == request_line(bound@) + header_clauses(listed.take(i as int)),
        decreases headers.len() - i,
    {
        let ghost before = command@;
        let header = &headers[i];
        command.append(" \\\n  -H '");
        command.append(header.name.as_str());
        command.append(": ");
        command.append(header.value.as_str());
        command.append("'");
        proof {
            assert(listed.take(i + 1).drop_last() =~= listed.take(i as int));
            assert(listed.take(i + 1).last() == header@);
            assert(command@ =~= before + header_clause(header@));
            assert(command@ =~= request_line(bound@) + header_clauses(listed.take(i + 1)));
        }
        i += 1;
    }
    proof {
        assert(listed.take(headers.len() as int) =~= listed);
    }
    match json {
        Some(text) => {
            let ghost before = command@;
            let quoted = shell_escape(text);
            command.append(" \\\n  -d '");
            command.append(quoted.as_str());
            command.append("'");
            proof {
                assert(command@ =~= before + body_clause(Some(text@)));
            }
        },
        None => {
            proof {
                assert(command@ =~= command@ + body_clause(None));
            }
        },
    }
    command
}

/// A format in which a request can be exported. What an exporter writes
/// depends on nothing but what it holds: exporting twice gives the same text.
pub trait Exporter {
    /// What exporting gives: the text, or the reason why there is none.
    spec fn exported(&self) -> Result<Seq<char>, RequestError>;

    /// Writes the text of the export.
    fn generate(&self) -> (r: Result<String, RequestError>)
        ensures
            match r {
                Ok(text) => self.exported() == Ok::<Seq<char>, RequestError>(text@),
                Err(e) => self.exported() == Err::<Seq<char>, RequestError>(e),
            },
    ;
}

/// Exports one endpoint as a `curl` command.
pub struct CurlService {
    endpoint_data: EndpointData,
}

impl View for CurlService {
    type V = EndpointView;

    closed spec fn view(&self) -> EndpointView {
        self.endpoint_data@
    }
}

impl CurlService {
    /// A service for the given endpoint.
    pub fn new(endpoint_data: EndpointData) -> (service: Self)
        ensures
            service@ == endpoint_data@,
    {
        Self { endpoint_data }
    }

    /// Binds the endpoint and writes the command of the request. Fails
    /// exactly where binding fails, with the same error; a body that is no
    /// JSON is left out and is no error.
    pub fn generate(&self) -> (r: Result<String, RequestError>)
        ensures
            match r {
                Ok(command) => generate_spec(self@) == Ok::<Seq<char>, RequestError>(command@),
                Err(e) => generate_spec(self@) == Err::<Seq<char>, RequestError>(e),
            },
    {
        let bound = match bind(self.endpoint_data.clone()) {
            Ok(bound) => bound,
            Err(e) => {
                return Err(e);
            },
        };
        let command = match body_text(&self.endpoint_data.body) {
            Some(json) => render_command(&bound, Some(json.as_str())),
            None => render_command(&bound, None),
        };
        Ok(command)
    }
}

impl Exporter for CurlService {
    open spec fn exported(&self) -> Result<Seq<char>, RequestError> {
        generate_spec(self@)
    }

    fn generate(&self) -> (r: Result<String, RequestError>) {
        CurlService::generate(self)
    }
}

} // verus!
