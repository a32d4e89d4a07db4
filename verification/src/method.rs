//! The HTTP verbs a request can be made with, and how the text a user chose
//! names one of them.

use vstd::prelude::*;

use crate::error::RequestError;
use crate::text::chars_of;

verus! {

/// The supported HTTP verbs.
#[derive(Clone, Copy, Debug, PartialEq, Eq, Structural)]
pub enum RequestMethod {
    Get,
    Head,
    Post,
    Put,
    Patch,
    Delete,
    Options,
    Trace,
    Connect,
}

/// The code point of `c`, or of its capital where `c` is a small ASCII letter.
pub open spec fn upper_code(c: char) -> u32 {
    if 0x61 <= c as u32 && c as u32 <= 0x7a {
        (c as u32 - 0x20) as u32
    } else {
        c as u32
    }
}

/// Whether `a` and `b` are the same text but for the case of ASCII letters.
pub open spec fn same_ignoring_case(a: Seq<char>, b: Seq<char>) -> bool {
    &&& a.len() == b.len()
    &&& forall|i: int| 0 <= i < a.len() ==> upper_code(#[trigger] a[i]) == upper_code(b[i])
}

impl RequestMethod {
    /// The canonical name of the verb, in capitals.
    pub open spec fn name(self) -> Seq<char> {
        match self {
            RequestMethod::Get => "GET"@,
            RequestMethod::Head => "HEAD"@,
            RequestMethod::Post => "POST"@,
            RequestMethod::Put => "PUT"@,
            RequestMethod::Patch => "PATCH"@,
            RequestMethod::Delete => "DELETE"@,
            RequestMethod::Options => "OPTIONS"@,
            RequestMethod::Trace => "TRACE"@,
            RequestMethod::Connect => "CONNECT"@,
        }
    }

    /// The canonical name of the verb, in capitals.
    pub fn as_str(&self) -> (s: &'static str)
        ensures
            s@ == self.name(),
    {
        match self {
            RequestMethod::Get => "GET",
            RequestMethod::Head => "HEAD",
            RequestMethod::Post => "POST",
            RequestMethod::Put => "PUT",
            RequestMethod::Patch => "PATCH",
            RequestMethod::Delete => "DELETE",
            RequestMethod::Options => "OPTIONS",
            RequestMethod::Trace => "TRACE",
            RequestMethod::Connect => "CONNECT",
        }
    }
}

/// The verb that `text` names: the one whose canonical name is `text` but for
/// the case of its letters. `None` where there is no such verb.
pub open spec fn method_named(text: Seq<char>) -> Option<RequestMethod> {
    if same_ignoring_case(text, RequestMethod::Get.name()) {
        Some(RequestMethod::Get)
    } else if same_ignoring_case(text, RequestMethod::Head.name()) {
        Some(RequestMethod::Head)
    } else if same_ignoring_case(text, RequestMethod::Post.name()) {
        Some(RequestMethod::Post)
    } else if same_ignoring_case(text, RequestMethod::Put.name()) {
        Some(RequestMethod::Put)
    } else if same_ignoring_case(text, RequestMethod::Patch.name()) {
        Some(RequestMethod::Patch)
    } else if same_ignoring_case(text, RequestMethod::Delete.name()) {
        Some(RequestMethod::Delete)
    } else if same_ignoring_case(text, RequestMethod::Options.name()) {
        Some(RequestMethod::Options)
    } else if same_ignoring_case(text, RequestMethod::Trace.name()) {
        Some(RequestMethod::Trace)
    } else if same_ignoring_case(text, RequestMethod::Connect.name()) {
        Some(RequestMethod::Connect)
    } else {
        None
    }
}

/// The canonical name of each verb names that verb.
pub proof fn lemma_name_names_method(m: RequestMethod)
    ensures
        method_named(m.name()) == Some(m),
{
    reveal_strlit("GET");
    reveal_strlit("HEAD");
    reveal_strlit("POST");
    reveal_strlit("PUT");
    reveal_strlit("PATCH");
    reveal_strlit("DELETE");
    reveal_strlit("OPTIONS");
    reveal_strlit("TRACE");
    reveal_strlit("CONNECT");
    let n = m.name();
    assert(same_ignoring_case(n, n));
    if m != RequestMethod::Get && same_ignoring_case(n, RequestMethod::Get.name()) {
        assert(upper_code(n[0]) == upper_code('G'));
    }
    if m != RequestMethod::Head && same_ignoring_case(n, RequestMethod::Head.name()) {
        assert(upper_code(n[0]) == upper_code('H'));
    }
    if m != RequestMethod::Post && same_ignoring_case(n, RequestMethod::Post.name()) {
        assert(upper_code(n[1]) == upper_code('O'));
    }
    if m != RequestMethod::Put && same_ignoring_case(n, RequestMethod::Put.name()) {
        assert(upper_code(n[0]) == upper_code('P'));
    }
    if m != RequestMethod::Patch && same_ignoring_case(n, RequestMethod::Patch.name()) {
        assert(upper_code(n[0]) == upper_code('P'));
    }
    if m != RequestMethod::Delete && same_ignoring_case(n, RequestMethod::Delete.name()) {
        assert(upper_code(n[0]) == upper_code('D'));
    }
    if m != RequestMethod::Options && same_ignoring_case(n, RequestMethod::Options.name()) {
        assert(upper_code(n[1]) == upper_code('P'));
    }
    if m != RequestMethod::Trace && same_ignoring_case(n, RequestMethod::Trace.name()) {
        assert(upper_code(n[0]) == upper_code('T'));
    }
}

fn code_in_capitals(c: char) -> (r: u32)
    ensures
        r == upper_code(c),
{
    let code: u32 = c as u32;
    if 0x61 <= code && code <= 0x7a {
        code - 0x20
    } else {
        code
    }
}

/// Whether `text` is `name` but for the case of ASCII letters.
pub fn names(text: &Vec<char>, name: &str) -> (r: bool)
    ensures
        r == same_ignoring_case(text@, name@),
{
    let letters = chars_of(name);
    if text.len() != letters.len() {
        return false;
    }
    let mut i: usize = 0;
    while i < text.len()
        invariant
            i <= text.len(),
            text.len() == letters.len(),
            letters@ == name@,
            forall|k: int| 0 <= k < i ==> upper_code(#[trigger] text@[k]) == upper_code(name@[k]),
        decreases text.len() - i,
    {
        if code_in_capitals(text[i]) != code_in_capitals(letters[i]) {
            return false;
        }
        i += 1;
    }
    true
}

/// Reads `text` as the name of a verb, in any case of its letters.
pub fn parse_method(text: &str) -> (r: Result<RequestMethod, RequestError>)
    ensures
        r == match method_named(text@) {
            Some(m) => Ok::<RequestMethod, RequestError>(m),
            None => Err(RequestError::UnsupportedMethod),
        },
{
    let chars = chars_of(text);
    if names(&chars, RequestMethod::Get.as_str()) {
        Ok(RequestMethod::Get)
    } else if names(&chars, RequestMethod::Head.as_str()) {
        Ok(RequestMethod::Head)
    } else if names(&chars, RequestMethod::Post.as_str()) {
        Ok(RequestMethod::Post)
    } else if names(&chars, RequestMethod::Put.as_str()) {
        Ok(RequestMethod::Put)
    } else if names(&chars, RequestMethod::Patch.as_str()) {
        Ok(RequestMethod::Patch)
    } else if names(&chars, RequestMethod::Delete.as_str()) {
        Ok(RequestMethod::Delete)
    } else if names(&chars, RequestMethod::Options.as_str()) {
        Ok(RequestMethod::Options)
    } else if names(&chars, RequestMethod::Trace.as_str()) {
        Ok(RequestMethod::Trace)
    } else if names(&chars, RequestMethod::Connect.as_str()) {
        Ok(RequestMethod::Connect)
    } else {
        Err(RequestError::UnsupportedMethod)
    }
}

} // verus!
