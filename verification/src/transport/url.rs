//! URLs and request headers.

use crate::text::{decimal, opt_text, push_decimal, replace_all, replaced_from};
use vstd::prelude::*;
use vstd::string::StringExecFns;

verus! {

/// `url::ParseError`, carried through without being looked into.
#[verifier::external_type_specification]
#[verifier::external_body]
pub struct ExUrlParseError(url::ParseError);

/// A URL in its parts.
#[derive(Debug)]
pub struct UrlParts {
    /// The whole URL, normalized.
    pub href: String,
    pub scheme: String,
    pub host: Option<String>,
    /// The port, where it is given and not the scheme's own.
    pub port: Option<u16>,
    pub path: String,
}

/// The model of a URL in its parts.
pub struct UrlModel {
    pub href: Seq<char>,
    pub scheme: Seq<char>,
    pub host: Option<Seq<char>>,
    pub port: Option<u16>,
    pub path: Seq<char>,
}

impl View for UrlParts {
    type V = UrlModel;

    open spec fn view(&self) -> UrlModel {
        UrlModel {
            href: self.href@,
            scheme: self.scheme@,
            host: opt_text(self.host),
            port: self.port,
            path: self.path@,
        }
    }
}

/// What `url::Url::parse` reads from a text, as what `as_str`, `scheme`,
/// `host_str`, `port` and `path` give; `None` where it is no absolute URL.
pub uninterp spec fn parsed_url(text: Seq<char>) -> Option<UrlModel>;

/// `url::Url::parse`: succeeds exactly on the texts that [`parsed_url`] gives
/// a URL for, and its parts are the result.
#[verifier::external_body]
pub(crate) fn parse_url(text: &str) -> (r: Result<UrlParts, url::ParseError>)
    ensures
        r is Ok <==> parsed_url(text@) is Some,
        r matches Ok(parts) ==> parsed_url(text@) == Some(parts@),
{
    let url = url::Url::parse(text)?;
    let host = match url.host_str() {
        Some(host) => Some(host.to_string()),
        None => None,
    };
    Ok(UrlParts {
        href: url.as_str().to_string(),
        scheme: url.scheme().to_string(),
        host,
        port: url.port(),
        path: url.path().to_string(),
    })
}

/// What the error that `url::Url::parse` gives for a text says, by its
/// `Display`; `None` where there is no error.
pub uninterp spec fn url_error_text(text: Seq<char>) -> Option<Seq<char>>;

/// The error of `url::Url::parse`, in words: the result is
/// [`url_error_text`], and there are words exactly where the text is no
/// absolute URL.
#[verifier::external_body]
pub(crate) fn describe_url_error(text: &str) -> (r: Option<String>)
    ensures
        opt_text(r) == url_error_text(text@),
        r is Some <==> parsed_url(text@) is None,
{
    match url::Url::parse(text) {
        Ok(_) => None,
        Err(e) => Some(e.to_string()),
    }
}

/// Why a URL cannot be used.
#[derive(Debug)]
pub enum UrlError {
    /// It is no absolute URL.
    Invalid(url::ParseError),
    /// It has no host.
    MissingHost,
}

/// The scheme of posts: secure where the connection is.
pub open spec fn post_scheme(scheme: Seq<char>) -> Seq<char> {
    if scheme == "wss"@ {
        "https"@
    } else {
        "http"@
    }
}

/// The URL to post to, for a connection's URL with a host: the same host and
/// port, and the path with its events in place of its socket.
pub open spec fn post_url(url: UrlModel, host: Seq<char>) -> Seq<char> {
    post_scheme(url.scheme) + "://"@ + host + (match url.port {
        Some(port) => ":"@ + decimal(port as nat),
        None => Seq::empty(),
    }) + replaced_from(url.path, 0, "/ws/"@, "/events/"@)
}

/// Makes the URL to post to from the parts of a connection's URL.
pub fn post_url_of(url: &UrlParts) -> (r: Option<String>)
    ensures
        match url@.host {
            Some(host) => r matches Some(text) && text@ == post_url(url@, host),
            None => r is None,
        },
{
    let secure: bool = url.scheme == "wss".to_owned();
    match &url.host {
        Some(host) => {
            let mut out = if secure {
                "https".to_owned()
            } else {
                "http".to_owned()
            };
            out.append("://");
            out.append(host.as_str());
            let ghost start = out@;
            if let Some(port) = url.port {
                out.append(":");
                push_decimal(&mut out, port as u64);
            }
            proof {
                reveal_strlit("/ws/");
                assert(out@ =~= start + (match url.port {
                    Some(port) => ":"@ + decimal(port as nat),
                    None => Seq::empty(),
                }));
            }
            out.append(replace_all(url.path.as_str(), "/ws/", "/events/").as_str());
            Some(out)
        },
        None => None,
    }
}

/// The characters of an HTTP token.
pub open spec fn token_char(c: char) -> bool {
    ||| '0' <= c <= '9'
    ||| 'a' <= c <= 'z'
    ||| 'A' <= c <= 'Z'
    ||| c == '!'
    ||| c == '#'
    ||| c == '$'
    ||| c == '%'
    ||| c == '&'
    ||| c == '\''
    ||| c == '*'
    ||| c == '+'
    ||| c == '-'
    ||| c == '.'
    ||| c == '^'
    ||| c == '_'
    ||| c == '`'
    ||| c == '|'
    ||| c == '~'
}

/// The length that the name of a header may have.
pub const MAX_HEADER_NAME: usize = 65_535;

/// Whether a text can be the name of a header: a token of limited length.
pub open spec fn header_name(s: Seq<char>) -> bool {
    &&& 0 < s.len() <= MAX_HEADER_NAME
    &&& forall|i: int| 0 <= i < s.len() ==> token_char(#[trigger] s[i])
}

/// Whether a text can be the value of a header: no control characters but
/// tabs.
pub open spec fn header_value(s: Seq<char>) -> bool {
    forall|i: int|
        0 <= i < s.len() ==> {
            let c = #[trigger] s[i];
            c == '\t' || (c as u32 >= 32 && c as u32 != 127)
        }
}

/// `http::header::HeaderName::from_str`, reached through `str::parse`: it
/// succeeds exactly on tokens of at most 65535 characters. What it makes of
/// the name is not used.
#[verifier::external_body]
fn is_header_name(name: &str) -> (r: bool)
    ensures
        r == header_name(name@),
{
    name.parse::<tokio_tungstenite::tungstenite::http::header::HeaderName>().is_ok()
}

/// `http::header::HeaderValue::from_str`, reached through `str::parse`: it
/// succeeds exactly on texts whose bytes are tabs or are at least 32 and not
/// 127; the bytes of characters outside ASCII are above 127. What it makes of
/// the value is not used.
#[verifier::external_body]
fn is_header_value(value: &str) -> (r: bool)
    ensures
        r == header_value(value@),
{
    value.parse::<tokio_tungstenite::tungstenite::http::header::HeaderValue>().is_ok()
}

/// What is wrong with a header.
#[derive(Debug, Clone, Copy, PartialEq, Eq, Structural)]
pub enum HeaderFault {
    Name,
    Value,
}

/// What is wrong with a header, the name first.
pub open spec fn header_fault(name: Seq<char>, value: Seq<char>) -> Option<HeaderFault> {
    if !header_name(name) {
        Some(HeaderFault::Name)
    } else if !header_value(value) {
        Some(HeaderFault::Value)
    } else {
        None
    }
}

/// What is wrong with the first faulty header.
pub open spec fn headers_fault(headers: Seq<(String, String)>) -> Option<HeaderFault>
    decreases headers.len(),
{
    if headers.len() == 0 {
        None
    } else {
        match headers_fault(headers.drop_last()) {
            Some(fault) => Some(fault),
            None => header_fault(headers.last().0@, headers.last().1@),
        }
    }
}

proof fn lemma_fault_stays(headers: Seq<(String, String)>, n: int)
    requires
        0 <= n <= headers.len(),
        headers_fault(headers.take(n)) is Some,
    ensures
        headers_fault(headers) == headers_fault(headers.take(n)),
    decreases headers.len() - n,
{
    if n < headers.len() {
        assert(headers.take(n + 1).drop_last() =~= headers.take(n));
        lemma_fault_stays(headers, n + 1);
    } else {
        assert(headers.take(n) =~= headers);
    }
}

/// Finds what is wrong with the first faulty header.
pub fn find_headers_fault(headers: &Vec<(String, String)>) -> (r: Option<HeaderFault>)
    ensures
        r == headers_fault(headers@),
{
    let mut i: usize = 0;
    while i < headers.len()
        invariant
            i <= headers.len(),
            headers_fault(headers@.take(i as int)) is None,
        decreases headers.len() - i,
    {
        proof {
            assert(headers@.take(i + 1).drop_last() =~= headers@.take(i as int));
            assert(headers@.take(i + 1).last() == headers@[i as int]);
        }
        if !is_header_name(headers[i].0.as_str()) {
            proof {
                lemma_fault_stays(headers@, i + 1);
            }
            return Some(HeaderFault::Name);
        }
        if !is_header_value(headers[i].1.as_str()) {
            proof {
                lemma_fault_stays(headers@, i + 1);
            }
            return Some(HeaderFault::Value);
        }
        i += 1;
    }
    assert(headers@.take(i as int) =~= headers@);
    None
}

} // verus!
