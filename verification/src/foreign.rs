//! Calls into the crates `url`, `http` and `uuid`.
//!
//! What these crates compute is stated in full where a few lines can say
//! it, and named by an uninterpreted function where they cannot. None of this is proved here: it rests on the
//! sources of the crates.

use vstd::prelude::*;
use crate::text::lowered;

verus! {

/// What the gateway reads of a parsed URL.
#[derive(Debug, Clone, PartialEq, Eq)]
pub struct UrlParts {
    /// The scheme, in lower case and without the colon.
    pub scheme: String,
    /// The host as it is written in the URL, if the URL has one.
    pub host: Option<String>,
}

/// The parts of a URL as plain values: its scheme and its host.
pub type UrlPartsView = (Seq<char>, Option<Seq<char>>);

impl View for UrlParts {
    type V = UrlPartsView;

    open spec fn view(&self) -> UrlPartsView {
        (
            self.scheme@,
            match self.host {
                Some(h) => Some(h@),
                None => None,
            },
        )
    }
}

/// The scheme and the host that the crate `url` reads out of `text`, or
/// `None` where it takes `text` for no absolute URL.
pub uninterp spec fn url_parts(text: Seq<char>) -> Option<UrlPartsView>;

/// `Url::parse`, with `Url::scheme` and `Url::host_str` of what it yields.
#[verifier::external_body]
pub(crate) fn parse_url(text: &str) -> (r: Option<UrlParts>)
    ensures
        match r {
            Some(parts) => url_parts(text@) == Some(parts@),
            None => url_parts(text@) is None,
        },
{
    match url::Url::parse(text) {
        Ok(u) => Some(
            UrlParts { scheme: u.scheme().to_string(), host: u.host_str().map(|h| h.to_string()) },
        ),
        Err(_) => None,
    }
}

/// Whether `c` may stand in a header's name: an ASCII letter or digit, or
/// one of ``!#$%&'*+-.^_`|~``.
pub open spec fn is_name_char(c: char) -> bool {
    ||| 'a' <= c <= 'z'
    ||| 'A' <= c <= 'Z'
    ||| '0' <= c <= '9'
    ||| c == '!'
    ||| c == '#'
    ||| c == '$'
    ||| c == '%'
    ||| c == '&'
    ||| c == '\''
    ||| c == '*'
    ||| c == '+'
    ||| c == '-'
    ||| c == '.'
    ||| c == '^'
    ||| c == '_'
    ||| c == '`'
    ||| c == '|'
    ||| c == '~'
}

/// The name under which the crate `http` keeps a header that is written
/// `name`: the name in lower case. `None` where `name` is no header name:
/// where it is empty, longer than 65,535 bytes, or holds a character that
/// may not stand in a name.
pub open spec fn header_name(name: Seq<char>) -> Option<Seq<char>> {
    if 1 <= name.len() <= 65_535 && (forall|i: int|
        0 <= i < name.len() ==> is_name_char(#[trigger] name[i])) {
        Some(lowered(name))
    } else {
        None
    }
}

/// `HeaderName::from_bytes`, with `HeaderName::as_str` of what it yields:
/// the name in lower case, where every byte of it may stand in a name and
/// there are between 1 and 65,535 of them.
#[verifier::external_body]
pub(crate) fn parse_header_name(name: &str) -> (r: Option<String>)
    ensures
        match r {
            Some(n) => header_name(name@) == Some(n@),
            None => header_name(name@) is None,
        },
{
    match http::header::HeaderName::from_bytes(name.as_bytes()) {
        Ok(n) => Some(n.as_str().to_string()),
        Err(_) => None,
    }
}

/// Whether `c` may stand in a header value: a tab, or anything that is
/// no ASCII control character.
pub open spec fn is_value_char(c: char) -> bool {
    c == '\t' || (c as u32 >= 32 && c as u32 != 127)
}

/// Whether `value` may be a header's value.
pub open spec fn is_header_value(value: Seq<char>) -> bool {
    forall|i: int| 0 <= i < value.len() ==> is_value_char(#[trigger] value[i])
}

/// `HeaderValue::from_str`: whether the crate `http` takes `value` for a
/// header's value. It does unless a byte of `value` is an ASCII control
/// character other than a tab.
#[verifier::external_body]
pub(crate) fn header_value_ok(value: &str) -> (r: bool)
    ensures
        r == is_header_value(value@),
{
    http::header::HeaderValue::from_str(value).is_ok()
}

/// `Uuid::new_v4`, written out in its hyphenated form: a random identifier
/// of 36 characters, each a lower-case hexadecimal digit or a hyphen, and
/// so fit for a header's value. Which identifier it is, is left to chance.
#[verifier::external_body]
pub(crate) fn random_uuid() -> (id: String)
    ensures
        id@.len() == 36,
        is_header_value(id@),
{
    uuid::Uuid::new_v4().to_string()
}

} // verus!
