//! URLs and origins: what the hub reads in them and which it accepts.

use crate::error::{plain, refused, seen, seen_option, ApiError, ErrorView, Status};
use crate::order::{ascending, contains, insert};
use crate::text::{blank, contains_char, opt_view, same, trim, trimmed, views};
use vstd::prelude::*;

verus! {

/// The parts of a URL.
#[derive(Debug)]
pub struct UrlParts {
    pub scheme: String,
    pub host: Option<String>,
    pub username: String,
    pub password: Option<String>,
    pub path: String,
    pub query: Option<String>,
    pub fragment: Option<String>,
}

/// What `UrlParts` holds.
pub struct UrlView {
    pub scheme: Seq<char>,
    pub host: Option<Seq<char>>,
    pub username: Seq<char>,
    pub password: Option<Seq<char>>,
    pub path: Seq<char>,
    pub query: Option<Seq<char>>,
    pub fragment: Option<Seq<char>>,
}

impl View for UrlParts {
    type V = UrlView;

    open spec fn view(&self) -> UrlView {
        UrlView {
            scheme: self.scheme@,
            host: opt_view(self.host),
            username: self.username@,
            password: opt_view(self.password),
            path: self.path@,
            query: opt_view(self.query),
            fragment: opt_view(self.fragment),
        }
    }
}

/// The parts, where there are any.
pub open spec fn url_view(url: Option<UrlParts>) -> Option<UrlView> {
    match url {
        Some(parts) => Some(parts@),
        None => None,
    }
}

/// The parts of the URL that `url::Url::parse` reads from a text.
pub uninterp spec fn parsed_url(text: Seq<char>) -> Option<UrlView>;

/// `url::Url::parse` and the getters of what it gives: scheme, host, user
/// name, password, path, query and fragment; nothing where the text is no
/// absolute URL.
#[verifier::external_body]
pub(crate) fn parse_url(text: &str) -> (r: Option<UrlParts>)
    ensures
        url_view(r) == parsed_url(text@),
{
    let url = url::Url::parse(text).ok()?;
    Some(
        UrlParts {
            scheme: url.scheme().to_owned(),
            host: url.host_str().map(str::to_owned),
            username: url.username().to_owned(),
            password: url.password().map(str::to_owned),
            path: url.path().to_owned(),
            query: url.query().map(str::to_owned),
            fragment: url.fragment().map(str::to_owned),
        },
    )
}

/// The ASCII serialization of the origin of the HTTP(S) URL that a text spells.
pub uninterp spec fn web_origin_of(text: Seq<char>) -> Seq<char>;

/// `url::Url::origin` of the URL that `url::Url::parse` reads, and its
/// `ascii_serialization`: for an HTTP(S) URL the scheme, the host and the port
/// where it is not the default one. It is only asked of such URLs; the origin
/// of a URL with another scheme may lie inside its path.
#[verifier::external_body]
pub(crate) fn web_origin(text: &str) -> (r: String)
    requires
        parsed_url(text@) is Some,
        parsed_url(text@)->0.scheme == "http"@ || parsed_url(text@)->0.scheme == "https"@,
    ensures
        r@ == web_origin_of(text@),
{
    let url = url::Url::parse(text).expect("a text that spells a URL");
    url.origin().ascii_serialization()
}

// ---------------------------------------------------------------------------
// Exact origins
// ---------------------------------------------------------------------------

/// A URL that is just an HTTP(S) origin: a scheme, a host and perhaps a port.
pub open spec fn exact_origin(url: UrlView) -> bool {
    &&& url.scheme == "http"@ || url.scheme == "https"@
    &&& url.host is Some
    &&& url.username.len() == 0
    &&& url.password is None
    &&& url.path == "/"@
    &&& url.query is None
    &&& url.fragment is None
}

/// Tells whether a URL is just an HTTP(S) origin.
pub fn is_exact_origin(url: &UrlParts) -> (r: bool)
    ensures
        r == exact_origin(url@),
{
    (same(url.scheme.as_str(), "http") || same(url.scheme.as_str(), "https")) && url.host.is_some()
        && url.username.as_str().is_empty() && url.password.is_none() && same(
        url.path.as_str(),
        "/",
    ) && url.query.is_none() && url.fragment.is_none()
}

/// The text of an entry of an allowlist: not blank, and without a wildcard.
pub open spec fn entry_text(raw: Seq<char>) -> Result<Seq<char>, ErrorView> {
    if blank(raw) || trimmed(raw).contains('*') {
        refused(Status::BadRequest, "Widget origin must be an exact HTTP(S) Origin"@)
    } else {
        Ok(trimmed(raw))
    }
}

/// The text of an entry of an allowlist, trimmed.
pub fn check_entry_text(raw: &str) -> (r: Result<String, ApiError>)
    ensures
        seen(r) == entry_text(raw@),
{
    let t = trim(raw);
    if t.as_str().is_empty() || contains_char(t.as_str(), '*') {
        return Err(ApiError::bad_request("Widget origin must be an exact HTTP(S) Origin"));
    }
    Ok(t)
}

/// An entry of an allowlist is just an origin, given how it reads as a URL.
pub open spec fn entry_url(url: Option<UrlView>) -> Result<(), ErrorView> {
    match url {
        None => refused(Status::BadRequest, "Widget origin is invalid"@),
        Some(parts) => if exact_origin(parts) {
            Ok(())
        } else {
            refused(
                Status::BadRequest,
                "Widget origin must be an exact HTTP(S) Origin without a path"@,
            )
        },
    }
}

/// Accepts an entry of an allowlist by how it reads as a URL.
pub fn check_entry_url(url: &Option<UrlParts>) -> (r: Result<(), ApiError>)
    ensures
        plain(r) == entry_url(url_view(*url)),
{
    match url {
        None => Err(ApiError::bad_request("Widget origin is invalid")),
        Some(parts) => {
            if is_exact_origin(parts) {
                Ok(())
            } else {
                Err(
                    ApiError::bad_request(
                        "Widget origin must be an exact HTTP(S) Origin without a path",
                    ),
                )
            }
        },
    }
}

/// The origin that an entry of an allowlist stands for.
pub open spec fn origin_entry(raw: Seq<char>) -> Result<Seq<char>, ErrorView> {
    match entry_text(raw) {
        Err(e) => Err(e),
        Ok(text) => match entry_url(parsed_url(text)) {
            Err(e) => Err(e),
            Ok(_) => Ok(web_origin_of(text)),
        },
    }
}

/// The origin that an entry of an allowlist stands for.
pub fn normalize_allowed_origin(raw: &str) -> (r: Result<String, ApiError>)
    ensures
        seen(r) == origin_entry(raw@),
{
    let text = match check_entry_text(raw) {
        Ok(text) => text,
        Err(e) => {
            return Err(e);
        },
    };
    match check_entry_url(&parse_url(text.as_str())) {
        Ok(_) => Ok(web_origin(text.as_str())),
        Err(e) => Err(e),
    }
}

/// The first refusal among the entries from `from` on.
pub open spec fn origins_error(raw: Seq<Seq<char>>, from: int) -> Option<ErrorView>
    decreases raw.len() - from,
{
    if from >= raw.len() {
        None
    } else {
        match origin_entry(raw[from]) {
            Err(e) => Some(e),
            Ok(_) => origins_error(raw, from + 1),
        }
    }
}

/// `origins` lists, in ascending order and once each, the origins of all the
/// entries.
pub open spec fn lists_origins(origins: Seq<Seq<char>>, raw: Seq<Seq<char>>) -> bool {
    &&& ascending(origins)
    &&& forall|o: Seq<char>|
        origins.contains(o) <==> exists|i: int|
            0 <= i < raw.len() && origin_entry(#[trigger] raw[i]) == Ok::<Seq<char>, ErrorView>(o)
}

/// The origins of an allowlist, sorted and without repetition; the first
/// entry that is refused refuses the list.
pub fn normalize_allowed_origins(value: &Vec<String>) -> (r: Result<Vec<String>, ApiError>)
    ensures
        match r {
            Ok(origins) => origins_error(views(value@), 0) is None && lists_origins(
                views(origins@),
                views(value@),
            ),
            Err(e) => origins_error(views(value@), 0) == Some(e@),
        },
{
    let ghost raw = views(value@);
    let mut origins: Vec<String> = Vec::new();
    let mut i: usize = 0;
    while i < value.len()
        invariant
            i <= value@.len(),
            raw == views(value@),
            origins_error(raw, 0) == origins_error(raw, i as int),
            ascending(views(origins@)),
            forall|o: Seq<char>|
                views(origins@).contains(o) <==> exists|k: int|
                    0 <= k < i && origin_entry(#[trigger] raw[k]) == Ok::<Seq<char>, ErrorView>(o),
        decreases value@.len() - i,
    {
        assert(raw[i as int] == value@[i as int]@);
        match normalize_allowed_origin(value[i].as_str()) {
            Ok(origin) => {
                assert(origin_entry(raw[i as int]) == Ok::<Seq<char>, ErrorView>(origin@));
                let ghost before = views(origins@);
                let ghost added = origin@;
                insert(&mut origins, origin);
                assert forall|o: Seq<char>|
                    views(origins@).contains(o) <==> exists|k: int|
                        0 <= k < i + 1 && origin_entry(#[trigger] raw[k]) == Ok::<
                            Seq<char>,
                            ErrorView,
                        >(o) by {
                    if before.contains(o) {
                        let k = choose|k: int|
                            0 <= k < i && origin_entry(#[trigger] raw[k]) == Ok::<
                                Seq<char>,
                                ErrorView,
                            >(o);
                        assert(0 <= k < i + 1);
                    }
                    if o == added {
                        assert(origin_entry(raw[i as int]) == Ok::<Seq<char>, ErrorView>(o));
                    }
                }
            },
            Err(e) => {
                return Err(e);
            },
        }
        i = i + 1;
    }
    Ok(origins)
}

// ---------------------------------------------------------------------------
// The origin of a request
// ---------------------------------------------------------------------------

/// The values of a header: how often it is there, and the text of its first
/// value where that is text.
#[derive(Debug)]
pub struct HeaderValues {
    pub count: usize,
    pub first: Option<String>,
}

/// The headers that say where a request comes from.
#[derive(Debug)]
pub struct OriginHeaders {
    pub embedded: HeaderValues,
    pub fetch_site: Option<String>,
    pub origin: HeaderValues,
}

/// A header value is just an origin, given how it reads as a URL.
pub open spec fn spells_origin(url: Option<UrlView>) -> Result<(), ErrorView> {
    if url is Some && exact_origin(url->0) {
        Ok(())
    } else {
        refused(Status::Forbidden, "request Origin is not allowed"@)
    }
}

/// Accepts a header value by how it reads as a URL.
pub fn check_request_origin(url: &Option<UrlParts>) -> (r: Result<(), ApiError>)
    ensures
        plain(r) == spells_origin(url_view(*url)),
{
    match url {
        Some(parts) => {
            if is_exact_origin(parts) {
                Ok(())
            } else {
                Err(ApiError::forbidden("request Origin is not allowed"))
            }
        },
        None => Err(ApiError::forbidden("request Origin is not allowed")),
    }
}

/// The origin that a header value spells; none is spelled by bytes that are
/// not text.
pub open spec fn header_origin(text: Option<Seq<char>>) -> Result<Seq<char>, ErrorView> {
    match text {
        Some(raw) => match spells_origin(parsed_url(raw)) {
            Ok(_) => Ok(web_origin_of(raw)),
            Err(e) => Err(e),
        },
        None => refused(Status::Forbidden, "request Origin is not allowed"@),
    }
}

/// The origin that a header value spells.
pub fn parse_request_origin(text: &Option<String>) -> (r: Result<String, ApiError>)
    ensures
        seen(r) == header_origin(opt_view(*text)),
{
    match text {
        Some(raw) => match check_request_origin(&parse_url(raw.as_str())) {
            Ok(_) => Ok(web_origin(raw.as_str())),
            Err(e) => Err(e),
        },
        None => Err(ApiError::forbidden("request Origin is not allowed")),
    }
}

/// Which header carries the origin of a request, if the headers are in order:
/// the embedding page's one where it is given, which only a same-origin
/// request may do, else the browser's, and none twice.
pub open spec fn origin_source(
    embedded: nat,
    fetch_site: Option<Seq<char>>,
    origin: nat,
) -> Result<Option<bool>, ErrorView> {
    if embedded > 0 {
        if fetch_site != Some("same-origin"@) || embedded > 1 {
            refused(Status::Forbidden, "embedded request Origin is not allowed"@)
        } else {
            Ok(Some(true))
        }
    } else if origin > 1 {
        refused(Status::Forbidden, "request Origin is not allowed"@)
    } else if origin == 1 {
        Ok(Some(false))
    } else {
        Ok(None)
    }
}

/// The origin of a request, if it says one.
pub open spec fn origin_of(headers: OriginHeaders) -> Result<Option<Seq<char>>, ErrorView> {
    match origin_source(
        headers.embedded.count as nat,
        opt_view(headers.fetch_site),
        headers.origin.count as nat,
    ) {
        Err(e) => Err(e),
        Ok(None) => Ok(None),
        Ok(Some(embedded)) => match header_origin(
            if embedded {
                opt_view(headers.embedded.first)
            } else {
                opt_view(headers.origin.first)
            },
        ) {
            Ok(origin) => Ok(Some(origin)),
            Err(e) => Err(e),
        },
    }
}

/// The origin of a request, if it says one.
pub fn request_origin(headers: &OriginHeaders) -> (r: Result<Option<String>, ApiError>)
    ensures
        seen_option(r) == origin_of(*headers),
{
    if headers.embedded.count > 0 {
        let same_site = match &headers.fetch_site {
            Some(site) => same(site.as_str(), "same-origin"),
            None => false,
        };
        if !same_site || headers.embedded.count > 1 {
            return Err(ApiError::forbidden("embedded request Origin is not allowed"));
        }
        return match parse_request_origin(&headers.embedded.first) {
            Ok(origin) => Ok(Some(origin)),
            Err(e) => Err(e),
        };
    }
    if headers.origin.count == 0 {
        return Ok(None);
    }
    if headers.origin.count > 1 {
        return Err(ApiError::forbidden("request Origin is not allowed"));
    }
    match parse_request_origin(&headers.origin.first) {
        Ok(origin) => Ok(Some(origin)),
        Err(e) => Err(e),
    }
}

/// A request from this origin is let through: the origin is in the list, or
/// the list is empty; a request without one is, unless one is required.
pub open spec fn origin_admission(
    origin: Option<Seq<char>>,
    allowed: Seq<Seq<char>>,
    required: bool,
) -> Result<(), ErrorView> {
    match origin {
        None => if required {
            refused(Status::Forbidden, "request Origin is required"@)
        } else {
            Ok(())
        },
        Some(o) => if allowed.len() == 0 || allowed.contains(o) {
            Ok(())
        } else {
            refused(Status::Forbidden, "request Origin is not allowed"@)
        },
    }
}

/// Lets a request from this origin through, or refuses it.
pub fn admit_origin(origin: &Option<String>, allowed: &Vec<String>, required: bool) -> (r: Result<
    (),
    ApiError,
>)
    ensures
        plain(r) == origin_admission(opt_view(*origin), views(allowed@), required),
{
    match origin {
        None => {
            if required {
                Err(ApiError::forbidden("request Origin is required"))
            } else {
                Ok(())
            }
        },
        Some(o) => {
            if allowed.len() == 0 || contains(allowed, o.as_str()) {
                Ok(())
            } else {
                Err(ApiError::forbidden("request Origin is not allowed"))
            }
        },
    }
}

/// Lets a request through by the origin that its headers say.
pub open spec fn request_admission(
    headers: OriginHeaders,
    allowed: Seq<Seq<char>>,
    required: bool,
) -> Result<(), ErrorView> {
    match origin_of(headers) {
        Err(e) => Err(e),
        Ok(origin) => origin_admission(origin, allowed, required),
    }
}

/// Lets a request through by the origin that its headers say, or refuses it.
pub fn validate_client_request_origin(
    headers: &OriginHeaders,
    allowed_origins: &Vec<String>,
    required: bool,
) -> (r: Result<(), ApiError>)
    ensures
        plain(r) == request_admission(*headers, views(allowed_origins@), required),
{
    match request_origin(headers) {
        Ok(origin) => admit_origin(&origin, allowed_origins, required),
        Err(e) => Err(e),
    }
}

/// A browser whose origin is spelled just as in the allowlist that was
/// accepted is let through.
pub proof fn listed_origins_are_admitted(
    raw: Seq<Seq<char>>,
    origins: Seq<Seq<char>>,
    headers: OriginHeaders,
    required: bool,
    i: int,
)
    requires
        origins_error(raw, 0) is None,
        lists_origins(origins, raw),
        0 <= i < raw.len(),
        headers.embedded.count == 0,
        headers.origin.count == 1,
        opt_view(headers.origin.first) == Some(trimmed(raw[i])),
    ensures
        request_admission(headers, origins, required) == Ok::<(), ErrorView>(()),
{
    lemma_no_error(raw, 0, i);
    let o = origin_entry(raw[i])->Ok_0;
    assert(origin_entry(raw[i]) == Ok::<Seq<char>, ErrorView>(o));
    assert(origins.contains(o));
}

proof fn lemma_no_error(raw: Seq<Seq<char>>, from: int, i: int)
    requires
        origins_error(raw, from) is None,
        0 <= from <= i < raw.len(),
    ensures
        origin_entry(raw[i]) is Ok,
    decreases raw.len() - from,
{
    if from < i {
        lemma_no_error(raw, from + 1, i);
    }
}

/// Where a list of origins is set, a request from an origin outside it is
/// refused, and so is one that hides its origin where one is required.
pub proof fn other_origins_are_refused(
    headers: OriginHeaders,
    allowed: Seq<Seq<char>>,
)
    requires
        allowed.len() > 0,
        request_admission(headers, allowed, true) is Ok,
    ensures
        origin_of(headers) is Ok,
        match origin_of(headers)->Ok_0 {
            Some(origin) => allowed.contains(origin),
            None => false,
        },
{
}

/// An origin is a scheme of the web and a host, and nothing besides: no user,
/// no path, no query and no fragment.
pub proof fn origins_hold_nothing_besides(url: UrlView)
    ensures
        exact_origin(url) <==> {
            &&& url.scheme == "http"@ || url.scheme == "https"@
            &&& url.host is Some
            &&& url.username.len() == 0
            &&& url.password is None
            &&& url.path == "/"@
            &&& url.query is None
            &&& url.fragment is None
        },
        exact_origin(url) ==> entry_url(Some(url)) is Ok && spells_origin(Some(url)) is Ok,
        !exact_origin(url) ==> entry_url(Some(url)) is Err && spells_origin(Some(url)) is Err,
        entry_url(None) is Err && spells_origin(None) is Err,
        entry_url(Some(url)) matches Err(e) ==> e.status == Status::BadRequest,
        spells_origin(Some(url)) matches Err(e) ==> e.status == Status::Forbidden,
{
}

/// An entry of a list of origins stands for the origin that it spells; blanks
/// around it do not matter, and one that stands for many is none.
pub proof fn entries_stand_for_one_origin(raw: Seq<char>, other: Seq<char>)
    ensures
        origin_entry(raw) matches Ok(origin) ==> {
            &&& !blank(raw)
            &&& forall|i: int| 0 <= i < trimmed(raw).len() ==> #[trigger] trimmed(raw)[i] != '*'
            &&& parsed_url(trimmed(raw)) is Some
            &&& exact_origin(parsed_url(trimmed(raw))->0)
            &&& origin == web_origin_of(trimmed(raw))
        },
        !blank(raw) && !trimmed(raw).contains('*') && parsed_url(trimmed(raw)) is Some
            && exact_origin(parsed_url(trimmed(raw))->0) ==> origin_entry(raw) is Ok,
        blank(raw) ==> origin_entry(raw) is Err,
        trimmed(raw) == trimmed(other) && blank(raw) == blank(other) ==> origin_entry(raw)
            == origin_entry(other),
        origin_entry(raw) matches Err(e) ==> e.status == Status::BadRequest,
{
    if origin_entry(raw) is Ok {
        assert forall|i: int| 0 <= i < trimmed(raw).len() implies #[trigger] trimmed(raw)[i] != '*' by {
            assert(trimmed(raw).contains(trimmed(raw)[i]));
        }
    }
}

/// A list of origins is accepted where every entry is, and then holds what the
/// entries stand for.
pub proof fn lists_are_accepted_entry_by_entry(raw: Seq<Seq<char>>)
    ensures
        origins_error(raw, 0) is None <==> forall|i: int|
            0 <= i < raw.len() ==> origin_entry(#[trigger] raw[i]) is Ok,
{
    lemma_origins_error(raw, 0);
}

proof fn lemma_origins_error(raw: Seq<Seq<char>>, from: int)
    requires
        0 <= from <= raw.len(),
    ensures
        origins_error(raw, from) is None <==> forall|i: int|
            from <= i < raw.len() ==> origin_entry(#[trigger] raw[i]) is Ok,
    decreases raw.len() - from,
{
    if from < raw.len() {
        lemma_origins_error(raw, from + 1);
        if origins_error(raw, from + 1) is None && origin_entry(raw[from]) is Ok {
            assert forall|i: int| from <= i < raw.len() implies origin_entry(#[trigger] raw[i])
                is Ok by {}
        } else if origin_entry(raw[from]) is Ok {
            let i = choose|i: int|
                from + 1 <= i < raw.len() && !(origin_entry(#[trigger] raw[i]) is Ok);
            assert(!(origin_entry(raw[i]) is Ok));
        }
    }
}

/// Which header says where a request comes from: that of the embedding page,
/// which only a page of the same origin may send, and once; else the usual
/// one, once; else none.
pub proof fn requests_say_once_where_they_come_from(
    embedded: nat,
    fetch_site: Option<Seq<char>>,
    origin: nat,
)
    ensures
        origin_source(embedded, fetch_site, origin) == Ok::<Option<bool>, ErrorView>(Some(true))
            <==> embedded == 1 && fetch_site == Some("same-origin"@),
        origin_source(embedded, fetch_site, origin) == Ok::<Option<bool>, ErrorView>(Some(false))
            <==> embedded == 0 && origin == 1,
        origin_source(embedded, fetch_site, origin) == Ok::<Option<bool>, ErrorView>(None)
            <==> embedded == 0 && origin == 0,
        origin_source(embedded, fetch_site, origin) matches Err(e) ==> e.status
            == Status::Forbidden,
{
}

/// The origin of a request is the one that its header spells.
pub proof fn request_origins_are_spelled(headers: OriginHeaders)
    ensures
        headers.embedded.count == 0 && headers.origin.count == 0 ==> origin_of(headers) == Ok::<
            Option<Seq<char>>,
            ErrorView,
        >(None),
        headers.embedded.count == 1 && opt_view(headers.fetch_site) == Some("same-origin"@) && (
        header_origin(opt_view(headers.embedded.first)) is Ok) ==> origin_of(headers) == Ok::<
            Option<Seq<char>>,
            ErrorView,
        >(Some(header_origin(opt_view(headers.embedded.first))->Ok_0)),
        headers.embedded.count == 0 && headers.origin.count == 1 && header_origin(
            opt_view(headers.origin.first),
        ) is Ok ==> origin_of(headers) == Ok::<Option<Seq<char>>, ErrorView>(
            Some(header_origin(opt_view(headers.origin.first))->Ok_0),
        ),
        headers.embedded.count > 1 || headers.origin.count > 1 && headers.embedded.count == 0
            ==> origin_of(headers) is Err,
        headers.embedded.count == 1 && header_origin(opt_view(headers.embedded.first)) is Err
            ==> origin_of(headers) is Err,
        headers.embedded.count == 0 && headers.origin.count == 1 && header_origin(
            opt_view(headers.origin.first),
        ) is Err ==> origin_of(headers) is Err,
        forall|raw: Seq<char>|
            (#[trigger] header_origin(Some(raw)) is Ok <==> parsed_url(raw) is Some
                && exact_origin(parsed_url(raw)->0)) && (header_origin(Some(raw)) is Ok
                ==> header_origin(Some(raw))->Ok_0 == web_origin_of(raw)),
        header_origin(None) is Err,
{
}

/// A request is let in from a listed origin, from anywhere where none is
/// listed, and without an origin only where none is asked for.
pub proof fn requests_are_let_in_by_origin(
    origin: Seq<char>,
    allowed: Seq<Seq<char>>,
    required: bool,
    headers: OriginHeaders,
)
    ensures
        origin_admission(Some(origin), allowed, required) is Ok <==> allowed.len() == 0
            || exists|i: int| 0 <= i < allowed.len() && #[trigger] allowed[i] == origin,
        origin_admission(None, allowed, required) is Ok <==> !required,
        origin_admission(Some(origin), allowed, required) == origin_admission(
            Some(origin),
            allowed,
            !required,
        ),
        origin_of(headers) is Err ==> request_admission(headers, allowed, required) is Err,
        origin_of(headers) is Ok ==> request_admission(headers, allowed, required)
            == origin_admission(origin_of(headers)->Ok_0, allowed, required),
        origin_admission(Some(origin), allowed, required) matches Err(e) ==> e.status
            == Status::Forbidden,
{
}

/// A request from elsewhere is forbidden, as is one that does not say where it
/// comes from where it must.
pub proof fn requests_from_elsewhere_are_forbidden(
    origin: Option<Seq<char>>,
    allowed: Seq<Seq<char>>,
    required: bool,
)
    ensures
        origin_admission(origin, allowed, required) matches Err(e) ==> e.status
            == Status::Forbidden,
        header_origin(None) matches Err(e) && e.status == Status::Forbidden,
{
}

} // verus!
