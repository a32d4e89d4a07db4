//! What the response panel shows of a response: how its status is marked,
//! and the media type that picks the language of its body.

use vstd::prelude::*;

use crate::text::{chars_of, string_of};

verus! {

/// The marks that a status code can get.
#[derive(Clone, Copy, Debug, PartialEq, Eq, Structural)]
pub enum StatusClass {
    Success,
    Warning,
    Error,
    Neutral,
}

impl StatusClass {
    /// The mark of a status code: success from 200 to 299, warning from 400
    /// to 499, error from 500 to 599, neutral for any other code.
    pub open spec fn of_code(status_code: u16) -> StatusClass {
        if 200 <= status_code <= 299 {
            StatusClass::Success
        } else if 400 <= status_code <= 499 {
            StatusClass::Warning
        } else if 500 <= status_code <= 599 {
            StatusClass::Error
        } else {
            StatusClass::Neutral
        }
    }

    /// The mark of a status code.
    pub fn of(status_code: u16) -> (class: StatusClass)
        ensures
            class == Self::of_code(status_code),
    {
        if 200 <= status_code && status_code <= 299 {
            StatusClass::Success
        } else if 400 <= status_code && status_code <= 499 {
            StatusClass::Warning
        } else if 500 <= status_code && status_code <= 599 {
            StatusClass::Error
        } else {
            StatusClass::Neutral
        }
    }

    /// The name of the mark in the style sheet.
    pub fn css_class(self) -> (name: &'static str)
        ensures
            name@ == match self {
                StatusClass::Success => "success"@,
                StatusClass::Warning => "warning"@,
                StatusClass::Error => "error"@,
                StatusClass::Neutral => "neutral"@,
            },
    {
        match self {
            StatusClass::Success => "success",
            StatusClass::Warning => "warning",
            StatusClass::Error => "error",
            StatusClass::Neutral => "neutral",
        }
    }

    /// Every mark, so that the marks a label had can be taken off before it
    /// gets its new one.
    pub fn all() -> (classes: [StatusClass; 4])
        ensures
            classes@ == seq![
                StatusClass::Success,
                StatusClass::Warning,
                StatusClass::Error,
                StatusClass::Neutral,
            ],
    {
        let classes =
            [StatusClass::Success, StatusClass::Warning, StatusClass::Error, StatusClass::Neutral];
        proof {
            assert(classes@ =~= seq![
                StatusClass::Success,
                StatusClass::Warning,
                StatusClass::Error,
                StatusClass::Neutral,
            ]);
        }
        classes
    }
}

/// The index of the first `;` of a text, or its length where it has none.
pub open spec fn parameters_start(content_type: Seq<char>) -> int
    decreases content_type.len(),
{
    if content_type.len() == 0 || content_type.first() == ';' {
        0
    } else {
        1 + parameters_start(content_type.drop_first())
    }
}

/// The media type of a `Content-Type` header: what stands before its first
/// `;`, or all of it where it has none.
pub open spec fn media_type_of(content_type: Seq<char>) -> Seq<char> {
    content_type.take(parameters_start(content_type))
}

/// The media type of a `Content-Type` header.
pub fn media_type(content_type: &str) -> (r: String)
    ensures
        r@ == media_type_of(content_type@),
{
    let chars = chars_of(content_type);
    let mut i: usize = 0;
    proof {
        assert(chars@.skip(0) =~= chars@);
    }
    while i < chars.len() && chars[i] != ';'
        invariant
            i <= chars.len(),
            parameters_start(chars@) == i + parameters_start(chars@.skip(i as int)),
        decreases chars.len() - i,
    {
        proof {
            assert(chars@.skip(i as int).drop_first() =~= chars@.skip(i + 1));
        }
        i += 1;
    }
    proof {
        assert(chars@.subrange(0, i as int) =~= chars@.take(i as int));
    }
    string_of(&chars, 0, i)
}

} // verus!
