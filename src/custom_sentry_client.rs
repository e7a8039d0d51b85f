use vstd::prelude::*;

use crate::errors::{CustomError, CustomErrorKind};
use crate::stacktrace::opt_view;
use crate::text::{decimal, last_index, push_decimal, StringExtensions};

verus! {

/// The parts of a URL that a DSN uses, as plain values.
struct UrlParts {
    scheme: String,
    domain: Option<String>,
    port: Option<u16>,
    path: String,
    username: String,
}

/// What `url::Url::parse` makes of a text, as (scheme, domain, port, path,
/// user name); `None` when it is no absolute URL.
pub uninterp spec fn url_parts_of(input: Seq<char>) -> Option<(Seq<char>, Option<Seq<char>>, Option<u16>, Seq<char>, Seq<char>)>;

/// Relies on url::Url::parse, read through the parsed URL's `scheme`,
/// `domain`, `port`, `path` and `username`: the result depends on the text alone.
#[verifier::external_body]
fn url_parse(input: &str) -> (r: Result<UrlParts, String>)
    ensures
        r is Ok <==> url_parts_of(input@) is Some,
        r matches Ok(p) ==> url_parts_of(input@) == Some((p.scheme@, opt_view(p.domain), p.port, p.path@, p.username@)),
{
    match url::Url::parse(input) {
        Ok(u) => Ok(UrlParts {
            scheme: u.scheme().to_string(),
            domain: u.domain().map(str::to_string),
            port: u.port(),
            path: u.path().to_string(),
            username: u.username().to_string(),
        }),
        Err(e) => Err(e.to_string()),
    }
}

/// Where and as whom crash reports are sent.
#[derive(Debug, Clone, PartialEq, Eq)]
pub struct CustomDsn {
    pub scheme: String,
    pub domain: String,
    pub port: u16,
    pub path: String,
    pub project_id: String,
    pub public_key: String,
}

/// The part of a path before its last `/`, and the part after it (all of it
/// after the first character when there is no `/`).
pub open spec fn split_project(path: Seq<char>) -> (Seq<char>, Seq<char>) {
    let cut = match last_index(path, '/') {
        Some(i) => i,
        None => 0,
    };
    (path.take(cut), if cut + 1 <= path.len() { path.skip(cut + 1) } else { Seq::empty() })
}

/// The connection settings of a DSN whose URL has the given parts: the
/// domain is required, the port defaults to 80, the last path segment is the
/// project and the user name the public key.
pub open spec fn dsn_of_parts(
    scheme: Seq<char>,
    domain: Option<Seq<char>>,
    port: Option<u16>,
    path: Seq<char>,
    username: Seq<char>,
    r: CustomDsn,
) -> bool {
    &&& domain matches Some(d) && r.domain@ == d
    &&& r.scheme@ == scheme
    &&& r.port == match port {
        Some(p) => p,
        None => 80u16,
    }
    &&& r.path@ == split_project(path).0
    &&& r.project_id@ == split_project(path).1
    &&& r.public_key@ == username
}

pub open spec fn option_view(o: Option<&str>) -> Option<Seq<char>> {
    match o {
        Some(s) => Some(s@),
        None => None,
    }
}

/// The connection settings made from the parts of a parsed DSN.
pub fn dsn_from_parts(scheme: &str, domain: Option<&str>, port: Option<u16>, path: &str, username: &str) -> (r: Result<CustomDsn, CustomError>)
    ensures
        domain is Some ==> (r matches Ok(d) && dsn_of_parts(scheme@, option_view(domain), port, path@, username@, d)),
        domain is None ==> (r matches Err(e) && e.kind is ErrorMessage && e.kind.spec_message()
            == "Invalid dsn domain."@),
{
    let domain = match domain {
        Some(d) => d,
        None => {
            return Err(CustomError::from_message("Invalid dsn domain."));
        },
    };
    let port = match port {
        Some(p) => p,
        None => 80,
    };
    let cut = match path.last_index_of('/') {
        Some(i) => i,
        None => 0,
    };
    proof {
        crate::text::lemma_last_index(path@, '/');
    }
    let n = path.unicode_len();
    let project_id = if cut + 1 <= n {
        String::from_str(path.substring_char(cut + 1, n))
    } else {
        String::new()
    };
    let prefix = if cut <= n {
        String::from_str(path.substring_char(0, cut))
    } else {
        String::new()
    };
    proof {
        assert(path@.subrange(0, cut as int) =~= path@.take(cut as int));
        if cut + 1 <= n {
            assert(path@.subrange(cut + 1, n as int) =~= path@.skip(cut + 1));
        }
    }
    Ok(CustomDsn {
        scheme: String::from_str(scheme),
        domain: String::from_str(domain),
        port,
        path: prefix,
        project_id,
        public_key: String::from_str(username),
    })
}

/// What reading a DSN gives: a failure when it is no URL or its host is no
/// domain name, else the connection settings made from its parts.
pub open spec fn dsn_outcome(dsn: Seq<char>, r: Result<CustomDsn, CustomError>) -> bool {
    match url_parts_of(dsn) {
        None => r matches Err(e) && e.kind is UrlParseError,
        Some(p) => match p.1 {
            Some(_) => r matches Ok(d) && dsn_of_parts(p.0, p.1, p.2, p.3, p.4, d),
            None => r matches Err(e) && e.kind is ErrorMessage && e.kind.spec_message() == "Invalid dsn domain."@,
        },
    }
}

/// Reads a DSN: a URL whose parts give the connection settings.
pub fn parse_dsn(dsn: &str) -> (r: Result<CustomDsn, CustomError>)
    ensures
        dsn_outcome(dsn@, r),
{
    let parts = match url_parse(dsn) {
        Ok(p) => p,
        Err(m) => {
            return Err(CustomError::from_kind(CustomErrorKind::UrlParseError(m)));
        },
    };
    let d = match &parts.domain {
        Some(s) => Some(s.as_str()),
        None => None,
    };
    dsn_from_parts(parts.scheme.as_str(), d, parts.port, parts.path.as_str(), parts.username.as_str())
}

pub open spec fn store_url_text(dsn: CustomDsn) -> Seq<char> {
    dsn.scheme@ + "://"@ + dsn.domain@ + ":"@ + decimal(dsn.port as nat) + dsn.path@ + "/api/"@
        + dsn.project_id@ + "/store/"@
}

pub open spec fn auth_header_text(dsn: CustomDsn, timestamp_ms: u128) -> Seq<char> {
    "Sentry sentry_version=7, sentry_client=Custom Sentry Client/1.0.0, sentry_timestamp="@
        + decimal(timestamp_ms as nat) + ", sentry_key="@ + dsn.public_key@
}

/// A client of the crash-reporting service.
#[derive(Debug)]
pub struct CustomSentryClient {
    pub dsn: CustomDsn,
}

impl CustomSentryClient {
    /// A client for the service that the DSN names.
    pub fn new(dsn_string: &str) -> (r: Result<CustomSentryClient, CustomError>)
        ensures
            dsn_outcome(
                dsn_string@,
                match r {
                    Ok(c) => Ok(c.dsn),
                    Err(e) => Err(e),
                },
            ),
    {
        match parse_dsn(dsn_string) {
            Ok(dsn) => Ok(CustomSentryClient { dsn }),
            Err(e) => Err(e),
        }
    }

    /// The endpoint that takes events.
    pub fn store_url(&self) -> (r: String)
        ensures
            r@ == store_url_text(self.dsn),
    {
        let mut s = self.dsn.scheme.clone();
        s.append("://");
        s.append(self.dsn.domain.as_str());
        s.append(":");
        push_decimal(&mut s, self.dsn.port as u128);
        s.append(self.dsn.path.as_str());
        s.append("/api/");
        s.append(self.dsn.project_id.as_str());
        s.append("/store/");
        s
    }

    /// The authentication header of an event sent at `timestamp_ms`
    /// (milliseconds since the Unix epoch).
    pub fn auth_header(&self, timestamp_ms: u128) -> (r: String)
        ensures
            r@ == auth_header_text(self.dsn, timestamp_ms),
    {
        let mut s = String::from_str(
            "Sentry sentry_version=7, sentry_client=Custom Sentry Client/1.0.0, sentry_timestamp=",
        );
        push_decimal(&mut s, timestamp_ms);
        s.append(", sentry_key=");
        s.append(self.dsn.public_key.as_str());
        s
    }
}

} // verus!
