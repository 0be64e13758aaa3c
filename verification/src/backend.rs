//! The inference router's backend: what goes out to it for a request, and what comes back.

use vstd::prelude::*;

use crate::json::{self, JsonDoc, JsonMember};
use crate::text;

verus! {

// ---------------------------------------------------------------------------
// Routes, answers and errors
// ---------------------------------------------------------------------------

/// How a backend wants the API key.
#[derive(Debug)]
pub enum AuthHeader {
    /// As a bearer token in `authorization`.
    Bearer,
    /// As the value of the header of this name.
    Custom(String),
}

/// A backend, and how to reach it.
#[derive(Debug)]
pub struct ResolvedRoute {
    pub endpoint: String,
    pub api_key: String,
    pub model: String,
    pub auth: AuthHeader,
    /// Headers to send unless the client sends one of that name.
    pub default_headers: Vec<(String, String)>,
}

/// Response from a proxied HTTP request to a backend.
#[derive(Debug)]
pub struct ProxyResponse {
    pub status: u16,
    pub headers: Vec<(String, String)>,
    pub body: Vec<u8>,
}

/// Why a request did not get its answer from the backend.
#[derive(Debug)]
pub enum RouterError {
    Internal(String),
    UpstreamUnavailable(String),
    UpstreamProtocol(String),
}

// ---------------------------------------------------------------------------
// The URL
// ---------------------------------------------------------------------------

/// Whether a path is that of the versioned API.
pub open spec fn versioned(path: Seq<char>) -> bool {
    path == "/v1"@ || text::begins(path, "/v1/"@)
}

/// The endpoint, without slashes at its end, and the path. An endpoint and a path that both name
/// the API version name it once.
pub open spec fn backend_url(endpoint: Seq<char>, path: Seq<char>) -> Seq<char> {
    let base = text::trim_end(endpoint, text::only('/'));
    if text::ends(base, "/v1"@) && versioned(path) {
        base + path.skip("/v1"@.len() as int)
    } else {
        base + path
    }
}

/// The URL of a path at an endpoint.
pub fn build_backend_url(endpoint: &str, path: &str) -> (url: String)
    ensures
        url@ == backend_url(endpoint@, path@),
{
    let base = text::trim_end_char(endpoint, '/');
    if text::ends_with(base.as_str(), "/v1") && (text::same(path, "/v1") || text::starts_with(
        path,
        "/v1/",
    )) {
        proof {
            reveal_strlit("/v1");
            reveal_strlit("/v1/");
            if text::begins(path@, "/v1/"@) {
                let head = path@.subrange(0, 4);
                assert forall|i: int| 0 <= i < 3 implies path@[i] == "/v1"@[i] by {
                    assert(head[i] == "/v1/"@[i]);
                }
                assert(path@.subrange(0, 3) =~= "/v1"@);
            } else {
                assert(path@.subrange(0, 3) =~= "/v1"@);
            }
        }
        match text::strip_prefix(path, "/v1") {
            Some(rest) => base.concat(rest.as_str()),
            None => base,
        }
    } else {
        base.concat(path)
    }
}

/// An endpoint that names the API version and one that does not reach the same URLs of the
/// versioned API.
pub proof fn law_version_is_named_once(base: Seq<char>, path: Seq<char>)
    requires
        versioned(path),
        base.len() > 0 ==> base.last() != '/',
        !text::ends(base, "/v1"@),
    ensures
        backend_url(base + "/v1"@, path) == base + path,
        backend_url(base, path) == base + path,
{
    reveal_strlit("/v1");
    reveal_strlit("/v1/");
    let full = base + "/v1"@;
    text::lemma_trim_end_is(base, text::only('/'), base.len() as int);
    assert(base.take(base.len() as int) =~= base);
    assert(full[full.len() - 1] == '1');
    text::lemma_trim_end_is(full, text::only('/'), full.len() as int);
    assert(full.take(full.len() as int) =~= full);
    assert(full.subrange(full.len() - 3, full.len() as int) =~= "/v1"@);
    if text::begins(path, "/v1/"@) {
        let head = path.subrange(0, 4);
        assert forall|i: int| 0 <= i < 3 implies path[i] == "/v1"@[i] by {
            assert(head[i] == "/v1/"@[i]);
        }
    }
    assert(full + path.skip(3) =~= base + path);
}

// ---------------------------------------------------------------------------
// The headers
// ---------------------------------------------------------------------------

/// Whether a list of headers has one of this name, in whatever case.
pub open spec fn names(headers: Seq<(Seq<char>, Seq<char>)>, name: Seq<char>) -> bool {
    exists|i: int| 0 <= i < headers.len() && same_name((#[trigger] headers[i]).0, name)
}

/// Whether a client's header of this name says who the client is or whom it addresses.
pub open spec fn is_private(name: Seq<char>) -> bool {
    let n = text::lowered(name);
    n == "authorization"@ || n == "x-api-key"@ || n == "host"@
}

/// Whether two headers have the same name, in whatever case.
pub open spec fn same_name(a: Seq<char>, b: Seq<char>) -> bool {
    text::lowered(a) == text::lowered(b)
}

/// The headers of a client that go on to a backend that takes its API key under `auth_name`: all
/// but the private ones and those of that name.
pub open spec fn forwarded(
    headers: Seq<(Seq<char>, Seq<char>)>,
    auth_name: Seq<char>,
) -> Seq<(Seq<char>, Seq<char>)>
    decreases headers.len(),
{
    if headers.len() == 0 {
        Seq::empty()
    } else {
        let rest = forwarded(headers.drop_last(), auth_name);
        if is_private(headers.last().0) || same_name(headers.last().0, auth_name) {
            rest
        } else {
            rest.push(headers.last())
        }
    }
}

/// The default headers of which the client sends none.
pub open spec fn missing_defaults(
    headers: Seq<(Seq<char>, Seq<char>)>,
    defaults: Seq<(Seq<char>, Seq<char>)>,
) -> Seq<(Seq<char>, Seq<char>)>
    decreases defaults.len(),
{
    if defaults.len() == 0 {
        Seq::empty()
    } else {
        let rest = missing_defaults(headers, defaults.drop_last());
        if names(headers, defaults.last().0) {
            rest
        } else {
            rest.push(defaults.last())
        }
    }
}

/// The header that carries the API key.
pub open spec fn auth_header(auth: AuthHeader, api_key: Seq<char>) -> (Seq<char>, Seq<char>) {
    match auth {
        AuthHeader::Bearer => ("authorization"@, "Bearer "@ + api_key),
        AuthHeader::Custom(name) => (name@, api_key),
    }
}

/// The headers of a request to a backend, in the order in which they are set.
pub open spec fn sent_headers(
    route: ResolvedRoute,
    headers: Seq<(Seq<char>, Seq<char>)>,
) -> Seq<(Seq<char>, Seq<char>)> {
    let auth = auth_header(route.auth, route.api_key@);
    seq![auth] + forwarded(headers, auth.0) + missing_defaults(
        headers,
        text::pair_views(route.default_headers@),
    )
}

fn has_name(headers: &Vec<(String, String)>, name: &str) -> (r: bool)
    ensures
        r == names(text::pair_views(headers@), name@),
{
    let wanted = text::to_ascii_lowercase(name);
    let mut i: usize = 0;
    while i < headers.len()
        invariant
            i <= headers@.len(),
            wanted@ == text::lowered(name@),
            forall|j: int|
                0 <= j < i ==> !same_name((#[trigger] text::pair_views(headers@)[j]).0, name@),
        decreases headers@.len() - i,
    {
        let found = text::to_ascii_lowercase(headers[i].0.as_str());
        assert(text::pair_views(headers@)[i as int].0 == headers@[i as int].0@);
        if text::same(found.as_str(), wanted.as_str()) {
            return true;
        }
        i += 1;
    }
    false
}

fn names_private(name: &str) -> (r: bool)
    ensures
        r == is_private(name@),
{
    let n = text::to_ascii_lowercase(name);
    text::same(n.as_str(), "authorization") || text::same(n.as_str(), "x-api-key") || text::same(
        n.as_str(),
        "host",
    )
}

fn is_named(name: &str, other: &str) -> (r: bool)
    ensures
        r == same_name(name@, other@),
{
    let a = text::to_ascii_lowercase(name);
    let b = text::to_ascii_lowercase(other);
    text::same(a.as_str(), b.as_str())
}

fn backend_headers(route: &ResolvedRoute, headers: &Vec<(String, String)>) -> (out: Vec<
    (String, String),
>)
    ensures
        text::pair_views(out@) == sent_headers(*route, text::pair_views(headers@)),
{
    let ghost hs = text::pair_views(headers@);
    let ghost ds = text::pair_views(route.default_headers@);
    let mut out: Vec<(String, String)> = Vec::new();
    assert(text::pair_views(out@) =~= Seq::empty());
    let auth_name: &str = match &route.auth {
        AuthHeader::Bearer => {
            let value = "Bearer ".to_owned().concat(route.api_key.as_str());
            text::push_pair(&mut out, "authorization", value.as_str());
            "authorization"
        },
        AuthHeader::Custom(name) => {
            text::push_pair(&mut out, name.as_str(), route.api_key.as_str());
            name.as_str()
        },
    };
    let ghost an = auth_name@;
    let ghost auth = seq![auth_header(route.auth, route.api_key@)];
    assert(text::pair_views(out@) =~= auth);
    let mut i: usize = 0;
    assert(hs.take(0) =~= Seq::empty());
    assert(auth + forwarded(hs.take(0), an) =~= auth);
    while i < headers.len()
        invariant
            i <= headers@.len(),
            hs == text::pair_views(headers@),
            an == auth_name@,
            text::pair_views(out@) == auth + forwarded(hs.take(i as int), an),
        decreases headers@.len() - i,
    {
        let name = headers[i].0.as_str();
        proof {
            let t = hs.take(i + 1);
            assert(t.drop_last() =~= hs.take(i as int));
            assert(t.last() == (headers@[i as int].0@, headers@[i as int].1@));
        }
        if !names_private(name) && !is_named(name, auth_name) {
            text::push_pair(&mut out, name, headers[i].1.as_str());
        }
        i += 1;
        assert(text::pair_views(out@) =~= auth + forwarded(hs.take(i as int), an));
    }
    assert(hs.take(i as int) =~= hs);
    let ghost sofar = auth + forwarded(hs, an);
    let mut k: usize = 0;
    assert(ds.take(0) =~= Seq::empty());
    assert(sofar + missing_defaults(hs, ds.take(0)) =~= sofar);
    while k < route.default_headers.len()
        invariant
            k <= route.default_headers@.len(),
            hs == text::pair_views(headers@),
            ds == text::pair_views(route.default_headers@),
            text::pair_views(out@) == sofar + missing_defaults(hs, ds.take(k as int)),
        decreases route.default_headers@.len() - k,
    {
        let name = route.default_headers[k].0.as_str();
        proof {
            let t = ds.take(k + 1);
            assert(t.drop_last() =~= ds.take(k as int));
            assert(t.last() == (
                route.default_headers@[k as int].0@,
                route.default_headers@[k as int].1@,
            ));
        }
        if !has_name(headers, name) {
            text::push_pair(&mut out, name, route.default_headers[k].1.as_str());
        }
        k += 1;
        assert(text::pair_views(out@) =~= sofar + missing_defaults(hs, ds.take(k as int)));
    }
    assert(ds.take(k as int) =~= ds);
    out
}

/// What is forwarded of a client's headers is what the client sent, less what is private and what
/// has the name of the auth header.
proof fn lemma_forwarded(
    headers: Seq<(Seq<char>, Seq<char>)>,
    auth_name: Seq<char>,
    h: (Seq<char>, Seq<char>),
)
    ensures
        forwarded(headers, auth_name).contains(h) <==> headers.contains(h) && !is_private(h.0)
            && !same_name(h.0, auth_name),
    decreases headers.len(),
{
    if headers.len() > 0 {
        let front = headers.drop_last();
        let rest = forwarded(front, auth_name);
        lemma_forwarded(front, auth_name, h);
        let last = headers.last();
        if front.contains(h) {
            let i = choose|i: int| 0 <= i < front.len() && front[i] == h;
            assert(headers[i] == h);
        }
        if headers.contains(h) {
            let i = choose|i: int| 0 <= i < headers.len() && headers[i] == h;
            if i < front.len() {
                assert(front[i] == h);
            }
        }
        assert(headers[headers.len() - 1] == last);
        if rest.contains(h) {
            let i = choose|i: int| 0 <= i < rest.len() && rest[i] == h;
            assert(rest.push(last)[i] == h);
        }
        if rest.push(last).contains(h) {
            let i = choose|i: int| 0 <= i < rest.push(last).len() && rest.push(last)[i] == h;
            if i < rest.len() {
                assert(rest[i] == h);
            }
        }
        assert(rest.push(last)[rest.len() as int] == last);
    }
}

/// The defaults that are set are those of which the client sends none.
proof fn lemma_missing_defaults(
    headers: Seq<(Seq<char>, Seq<char>)>,
    defaults: Seq<(Seq<char>, Seq<char>)>,
    h: (Seq<char>, Seq<char>),
)
    ensures
        missing_defaults(headers, defaults).contains(h) <==> defaults.contains(h) && !names(
            headers,
            h.0,
        ),
    decreases defaults.len(),
{
    if defaults.len() > 0 {
        let front = defaults.drop_last();
        let rest = missing_defaults(headers, front);
        lemma_missing_defaults(headers, front, h);
        let last = defaults.last();
        if front.contains(h) {
            let i = choose|i: int| 0 <= i < front.len() && front[i] == h;
            assert(defaults[i] == h);
        }
        if defaults.contains(h) {
            let i = choose|i: int| 0 <= i < defaults.len() && defaults[i] == h;
            if i < front.len() {
                assert(front[i] == h);
            }
        }
        assert(defaults[defaults.len() - 1] == last);
        if rest.contains(h) {
            let i = choose|i: int| 0 <= i < rest.len() && rest[i] == h;
            assert(rest.push(last)[i] == h);
        }
        if rest.push(last).contains(h) {
            let i = choose|i: int| 0 <= i < rest.push(last).len() && rest.push(last)[i] == h;
            if i < rest.len() {
                assert(rest[i] == h);
            }
        }
        assert(rest.push(last)[rest.len() as int] == last);
    }
}

/// A backend gets these headers and no others: the one with the route's API key, which comes
/// first; those of the client that are not private and do not have that name; and the defaults of
/// which the client sends none.
pub proof fn law_what_a_backend_gets(
    route: ResolvedRoute,
    headers: Seq<(Seq<char>, Seq<char>)>,
    h: (Seq<char>, Seq<char>),
)
    ensures
        sent_headers(route, headers)[0] == auth_header(route.auth, route.api_key@),
        sent_headers(route, headers).contains(h) <==> {
            let auth = auth_header(route.auth, route.api_key@);
            ||| h == auth
            ||| headers.contains(h) && !is_private(h.0) && !same_name(h.0, auth.0)
            ||| text::pair_views(route.default_headers@).contains(h) && !names(headers, h.0)
        },
{
    let defaults = text::pair_views(route.default_headers@);
    let auth = auth_header(route.auth, route.api_key@);
    let kept = forwarded(headers, auth.0);
    let added = missing_defaults(headers, defaults);
    let all = sent_headers(route, headers);
    lemma_forwarded(headers, auth.0, h);
    lemma_missing_defaults(headers, defaults, h);
    assert(all[0] == auth);
    if kept.contains(h) {
        let i = choose|i: int| 0 <= i < kept.len() && kept[i] == h;
        assert(all[1 + i] == h);
    }
    if added.contains(h) {
        let i = choose|i: int| 0 <= i < added.len() && added[i] == h;
        assert(all[1 + kept.len() + i] == h);
    }
    if all.contains(h) {
        let i = choose|i: int| 0 <= i < all.len() && all[i] == h;
        if 1 <= i < 1 + kept.len() {
            assert(kept[i - 1] == h);
        } else if i >= 1 + kept.len() {
            assert(added[i - 1 - kept.len()] == h);
        }
    }
}

/// The auth header is rewritten with the route's API key: whatever the client sends, a backend gets
/// one header of that name, the first, provided that none of the route's defaults has it.
pub proof fn law_one_auth_header(
    route: ResolvedRoute,
    headers: Seq<(Seq<char>, Seq<char>)>,
    i: int,
)
    requires
        !names(
            text::pair_views(route.default_headers@),
            auth_header(route.auth, route.api_key@).0,
        ),
        0 <= i < sent_headers(route, headers).len(),
    ensures
        sent_headers(route, headers)[0] == auth_header(route.auth, route.api_key@),
        same_name(
            sent_headers(route, headers)[i].0,
            auth_header(route.auth, route.api_key@).0,
        ) <==> i == 0,
{
    let defaults = text::pair_views(route.default_headers@);
    let auth = auth_header(route.auth, route.api_key@);
    let kept = forwarded(headers, auth.0);
    let added = missing_defaults(headers, defaults);
    let h = sent_headers(route, headers)[i];
    if 1 <= i < 1 + kept.len() {
        assert(kept[i - 1] == h);
        lemma_forwarded(headers, auth.0, h);
    } else if i >= 1 + kept.len() {
        assert(added[i - 1 - kept.len()] == h);
        lemma_missing_defaults(headers, defaults, h);
        let j = choose|j: int| 0 <= j < defaults.len() && defaults[j] == h;
        assert(!same_name(defaults[j].0, auth.0));
    }
}

/// A default applies unless the client already sent a header of its name: if the client sent none,
/// the backend gets the default; else it gets what the client sent, all of it, and under that name
/// nothing else. Names under which nothing of the client's goes on are left out.
pub proof fn law_default_unless_sent(
    route: ResolvedRoute,
    headers: Seq<(Seq<char>, Seq<char>)>,
    default: (Seq<char>, Seq<char>),
    h: (Seq<char>, Seq<char>),
)
    requires
        text::pair_views(route.default_headers@).contains(default),
        !is_private(default.0),
        !same_name(default.0, auth_header(route.auth, route.api_key@).0),
        same_name(h.0, default.0),
    ensures
        !names(headers, default.0) ==> sent_headers(route, headers).contains(default) && (
        sent_headers(route, headers).contains(h) ==> text::pair_views(
            route.default_headers@,
        ).contains(h)),
        names(headers, default.0) ==> (sent_headers(route, headers).contains(h)
            <==> headers.contains(h)),
{
    law_what_a_backend_gets(route, headers, default);
    law_what_a_backend_gets(route, headers, h);
    if headers.contains(h) {
        let i = choose|i: int| 0 <= i < headers.len() && headers[i] == h;
        assert(same_name(headers[i].0, default.0));
    }
    if names(headers, default.0) {
        let i = choose|i: int| 0 <= i < headers.len() && same_name((#[trigger] headers[i]).0, default.0);
        assert(same_name(headers[i].0, h.0));
        assert(names(headers, h.0));
    }
}

/// A client's own credentials and host never reach the backend: a header of such a name carries
/// the route's API key or is one of the route's defaults.
pub proof fn law_client_credentials_stay_behind(
    route: ResolvedRoute,
    headers: Seq<(Seq<char>, Seq<char>)>,
    h: (Seq<char>, Seq<char>),
)
    requires
        sent_headers(route, headers).contains(h),
        is_private(h.0),
    ensures
        h == auth_header(route.auth, route.api_key@) || text::pair_views(
            route.default_headers@,
        ).contains(h),
{
    law_what_a_backend_gets(route, headers, h);
}

// ---------------------------------------------------------------------------
// The body
// ---------------------------------------------------------------------------

/// A document with the route's model: an object names it as its member `model`.
pub open spec fn with_model(doc: JsonDoc, model: Seq<char>) -> JsonDoc {
    match doc {
        JsonDoc::Object(members) => JsonDoc::Object(
            members.insert("model"@, JsonMember::Text(model)),
        ),
        JsonDoc::Other(_) => doc,
    }
}

/// The body of a request to a backend that serves `model`: a JSON document with the model set, in
/// compact form; any other body as it is.
pub open spec fn backend_body(body: Seq<u8>, model: Seq<char>) -> Seq<u8> {
    match json::json_read(body) {
        Some(doc) => json::json_text(with_model(doc, model)),
        None => body,
    }
}

/// Sets the model in a JSON value.
pub fn set_model(value: &mut serde_json::Value, model: &str)
    ensures
        json::json_doc(*final(value)) == with_model(json::json_doc(*old(value)), model@),
{
    if json::is_object(value) {
        json::set_text(value, "model", model);
    }
}

/// The body to send for a client's body. A backend that reads it as a JSON object finds the
/// route's model there, whatever the client asked for.
pub fn rewrite_body(body: Vec<u8>, model: &str) -> (sent: Vec<u8>)
    ensures
        sent@ == backend_body(body@, model@),
        json::json_read(body@) is None ==> sent@ == body@,
        json::json_read(body@) matches Some(doc) && doc is Object && json::json_read(
            sent@,
        ) is Some ==> json::text_member(json::json_read(sent@)->0, "model"@) == Some(model@),
{
    match json::parse(body.as_slice()) {
        Some(mut value) => {
            set_model(&mut value, model);
            let ghost doc = json::json_doc(value);
            match json::write(&value) {
                Some(bytes) => {
                    proof {
                        if json::json_read(bytes@) is Some && doc is Object {
                            assert(json::text_member(doc, "model"@) == Some(model@));
                            assert(json::text_member(json::json_read(bytes@)->0, "model"@)
                                == json::text_member(doc, "model"@));
                        }
                    }
                    bytes
                },
                None => body,
            }
        },
        None => body,
    }
}

/// Setting the model touches nothing else: every other member of an object stays as it was, and
/// so does a document that is no object.
pub proof fn law_only_the_model_changes(doc: JsonDoc, model: Seq<char>, name: Seq<char>)
    requires
        name != "model"@,
    ensures
        doc is Other ==> with_model(doc, model) == doc,
        match (doc, with_model(doc, model)) {
            (JsonDoc::Object(before), JsonDoc::Object(after)) => {
                &&& after.dom().contains(name) <==> before.dom().contains(name)
                &&& before.dom().contains(name) ==> after[name] == before[name]
                &&& after.dom().contains("model"@)
                &&& after["model"@] == JsonMember::Text(model)
            },
            (JsonDoc::Other(_), JsonDoc::Other(_)) => true,
            _ => false,
        },
{
}

// ---------------------------------------------------------------------------
// The request
// ---------------------------------------------------------------------------

/// The characters that an HTTP method is made of.
pub open spec fn is_method_char(c: char) -> bool {
    ||| 'a' <= c <= 'z'
    ||| 'A' <= c <= 'Z'
    ||| '0' <= c <= '9'
    ||| "!#$%&'*+-.^_`|~"@.contains(c)
}

/// Whether `s` is an HTTP method: at least one character, and no other than those of a method.
pub open spec fn is_method(s: Seq<char>) -> bool {
    s.len() > 0 && forall|i: int| 0 <= i < s.len() ==> is_method_char(#[trigger] s[i])
}

/// Parsing as a `reqwest::Method`: it succeeds for the methods, and for nothing else.
#[verifier::external_body]
fn parses_as_method(method: &str) -> (r: bool)
    ensures
        r == is_method(method@),
{
    method.parse::<reqwest::Method>().is_ok()
}

/// A request to a backend.
#[derive(Debug)]
pub struct BackendRequest {
    pub method: String,
    pub url: String,
    /// The headers to set, in this order.
    pub headers: Vec<(String, String)>,
    pub body: Vec<u8>,
}

/// The request to a backend for a client's request.
///
/// Rewrites the auth header with the route's API key (using the route's configured
/// [`AuthHeader`] mechanism), leaves the `Host` header to the backend's URL, and sets the model.
/// The path of the request is appended to the route's endpoint URL.
pub fn backend_request(
    route: &ResolvedRoute,
    method: &str,
    path: &str,
    headers: &Vec<(String, String)>,
    body: Vec<u8>,
) -> (r: Result<BackendRequest, RouterError>)
    ensures
        r is Ok <==> is_method(method@),
        r matches Ok(q) ==> {
            &&& q.method@ == method@
            &&& q.url@ == backend_url(route.endpoint@, path@)
            &&& text::pair_views(q.headers@) == sent_headers(*route, text::pair_views(headers@))
            &&& q.body@ == backend_body(body@, route.model@)
        },
        r matches Err(e) ==> e matches RouterError::Internal(m) && m@ == "invalid HTTP method: "@
            + method@,
{
    if !parses_as_method(method) {
        return Err(RouterError::Internal("invalid HTTP method: ".to_owned().concat(method)));
    }
    Ok(
        BackendRequest {
            method: method.to_owned(),
            url: build_backend_url(route.endpoint.as_str(), path),
            headers: backend_headers(route, headers),
            body: rewrite_body(body, route.model.as_str()),
        },
    )
}

/// The error for a request that could not be sent. `reason` is the client's own account.
pub fn send_error(url: &str, timed_out: bool, connecting: bool, reason: &str) -> (e: RouterError)
    ensures
        if timed_out {
            e matches RouterError::UpstreamUnavailable(m) && m@ == "request to "@ + url@
                + " timed out"@
        } else if connecting {
            e matches RouterError::UpstreamUnavailable(m) && m@ == "failed to connect to "@ + url@
                + ": "@ + reason@
        } else {
            e matches RouterError::Internal(m) && m@ == "HTTP request failed: "@ + reason@
        },
{
    if timed_out {
        RouterError::UpstreamUnavailable("request to ".to_owned().concat(url).concat(" timed out"))
    } else if connecting {
        RouterError::UpstreamUnavailable(
            "failed to connect to ".to_owned().concat(url).concat(": ").concat(reason),
        )
    } else {
        RouterError::Internal("HTTP request failed: ".to_owned().concat(reason))
    }
}

// ---------------------------------------------------------------------------
// The response
// ---------------------------------------------------------------------------

/// A header of a response, with an empty value in place of one that is no text.
pub open spec fn header_view(h: (String, Option<String>)) -> (Seq<char>, Seq<char>) {
    match h.1 {
        Some(value) => (h.0@, value@),
        None => (h.0@, Seq::empty()),
    }
}

/// The response to pass on. A header whose value is no text comes as `None`; a body that could not
/// be read comes as the reason.
pub fn proxy_response(
    status: u16,
    headers: &Vec<(String, Option<String>)>,
    body: Result<Vec<u8>, String>,
) -> (r: Result<ProxyResponse, RouterError>)
    ensures
        match body {
            Ok(bytes) => r matches Ok(p) && p.status == status && p.body == bytes
                && text::pair_views(p.headers@) == headers@.map_values(
                |h: (String, Option<String>)| header_view(h),
            ),
            Err(reason) => r matches Err(RouterError::UpstreamProtocol(m)) && m@
                == "failed to read response body: "@ + reason@,
        },
{
    let body = match body {
        Ok(bytes) => bytes,
        Err(reason) => {
            return Err(
                RouterError::UpstreamProtocol(
                    "failed to read response body: ".to_owned().concat(reason.as_str()),
                ),
            );
        },
    };
    let mut out: Vec<(String, String)> = Vec::new();
    let ghost all = headers@.map_values(|h: (String, Option<String>)| header_view(h));
    assert(text::pair_views(out@) =~= all.take(0));
    let mut i: usize = 0;
    while i < headers.len()
        invariant
            i <= headers@.len(),
            all == headers@.map_values(|h: (String, Option<String>)| header_view(h)),
            text::pair_views(out@) == all.take(i as int),
        decreases headers@.len() - i,
    {
        match &headers[i].1 {
            Some(value) => text::push_pair(&mut out, headers[i].0.as_str(), value.as_str()),
            None => {
                proof {
                    reveal_strlit("");
                    assert(""@ =~= Seq::empty());
                }
                text::push_pair(&mut out, headers[i].0.as_str(), "");
            },
        }
        i += 1;
        assert(text::pair_views(out@) =~= all.take(i as int));
    }
    assert(all.take(i as int) =~= all);
    Ok(ProxyResponse { status, headers: out, body })
}

// ---------------------------------------------------------------------------
// Laws
// ---------------------------------------------------------------------------

/// Slashes at the end of an endpoint make no difference.
pub proof fn law_slashes_at_the_end_make_no_difference(endpoint: Seq<char>, path: Seq<char>)
    ensures
        backend_url(endpoint + seq!['/'], path) == backend_url(endpoint, path),
        backend_url(endpoint.push('/'), path) == backend_url(endpoint, path),
{
    let longer = endpoint + seq!['/'];
    assert(longer =~= endpoint.push('/'));
    assert(longer.last() == '/');
    assert(longer.drop_last() =~= endpoint);
}

/// A URL is the endpoint and the path, one after the other, unless both name the API version. What
/// counts of an endpoint is all of it but slashes at its end.
pub proof fn law_url_is_endpoint_and_path(base: Seq<char>, path: Seq<char>)
    requires
        base.len() > 0 ==> base.last() != '/',
        (path != "/v1"@ && !(path.len() >= 4 && path.take(4) == "/v1/"@)) || !(base.len() >= 3
            && base.skip(base.len() - 3) == "/v1"@),
    ensures
        backend_url(base, path) == base + path,
{
    reveal_strlit("/v1");
    reveal_strlit("/v1/");
    text::lemma_trim_end_is(base, text::only('/'), base.len() as int);
    assert(base.take(base.len() as int) =~= base);
    if text::begins(path, "/v1/"@) {
        assert(path.take(4) =~= path.subrange(0, 4));
    }
    if text::ends(base, "/v1"@) {
        assert(base.skip(base.len() - 3) =~= base.subrange(base.len() - 3, base.len() as int));
    }
}

/// Of an endpoint and a path that both name the API version, only the path names it in the URL,
/// whatever stands before it in the endpoint.
pub proof fn law_path_names_the_version(base: Seq<char>, rest: Seq<char>)
    ensures
        backend_url(base + "/v1"@, "/v1"@) == base + "/v1"@,
        backend_url(base + "/v1"@, "/v1/"@ + rest) == base + ("/v1/"@ + rest),
{
    reveal_strlit("/v1");
    reveal_strlit("/v1/");
    let full = base + "/v1"@;
    let long = "/v1/"@ + rest;
    assert(full[full.len() - 1] == '1');
    text::lemma_trim_end_is(full, text::only('/'), full.len() as int);
    assert(full.take(full.len() as int) =~= full);
    assert(full.subrange(full.len() - 3, full.len() as int) =~= "/v1"@);
    assert(long.subrange(0, 4) =~= "/v1/"@);
    assert(full + "/v1"@.skip(3) =~= full);
    assert(full + long.skip(3) =~= base + long);
}

/// The API key goes out in one of two ways: as a bearer token, or as it is under the name that the
/// backend wants.
pub proof fn law_key_goes_out_as_the_backend_wants(name: String, api_key: Seq<char>)
    ensures
        auth_header(AuthHeader::Bearer, api_key) == ("authorization"@, "Bearer "@ + api_key),
        auth_header(AuthHeader::Custom(name), api_key) == (name@, api_key),
{
}

/// Three names are private, in whatever case.
pub proof fn law_private_names(name: Seq<char>)
    ensures
        is_private(name) <==> same_name(name, "authorization"@) || same_name(name, "x-api-key"@)
            || same_name(name, "host"@),
        same_name(name, text::lowered(name)),
        forall|other: Seq<char>| #[trigger]
            same_name(name, other) <==> text::lowered(name) == text::lowered(other),
{
    reveal_strlit("authorization");
    reveal_strlit("x-api-key");
    reveal_strlit("host");
    assert(text::lowered("authorization"@) =~= "authorization"@);
    assert(text::lowered("x-api-key"@) =~= "x-api-key"@);
    assert(text::lowered("host"@) =~= "host"@);
    text::lemma_lowered_idempotent(name);
}

/// Each header of a client goes on or stays behind by its name alone, and those that go on keep
/// their order, their names, their values and their number.
pub proof fn law_headers_go_on_one_by_one(
    a: Seq<(Seq<char>, Seq<char>)>,
    h: (Seq<char>, Seq<char>),
    b: Seq<(Seq<char>, Seq<char>)>,
    auth_name: Seq<char>,
)
    ensures
        forwarded(a + b, auth_name) == forwarded(a, auth_name) + forwarded(b, auth_name),
        forwarded(seq![h], auth_name) == (if is_private(h.0) || same_name(h.0, auth_name) {
            Seq::empty()
        } else {
            seq![h]
        }),
        forwarded(Seq::empty(), auth_name).len() == 0,
    decreases b.len(),
{
    reveal_with_fuel(forwarded, 2);
    assert(seq![h].drop_last() =~= Seq::empty());
    assert(forwarded(seq![h].drop_last(), auth_name) =~= Seq::empty());
    assert(Seq::<(Seq<char>, Seq<char>)>::empty().push(h) =~= seq![h]);
    if b.len() == 0 {
        assert(a + b =~= a);
        assert(forwarded(a, auth_name) + forwarded(b, auth_name) =~= forwarded(a, auth_name));
    } else {
        law_headers_go_on_one_by_one(a, h, b.drop_last(), auth_name);
        assert((a + b).drop_last() =~= a + b.drop_last());
        assert((a + b).last() == b.last());
        assert(forwarded(a + b, auth_name) =~= forwarded(a, auth_name) + forwarded(b, auth_name));
    }
}

/// Each default is added or not by whether the client sends a header of its name, and those that
/// are added keep their order, their names, their values and their number.
pub proof fn law_defaults_are_added_one_by_one(
    headers: Seq<(Seq<char>, Seq<char>)>,
    a: Seq<(Seq<char>, Seq<char>)>,
    d: (Seq<char>, Seq<char>),
    b: Seq<(Seq<char>, Seq<char>)>,
)
    ensures
        missing_defaults(headers, a + b) == missing_defaults(headers, a) + missing_defaults(
            headers,
            b,
        ),
        missing_defaults(headers, seq![d]) == (if exists|i: int|
            0 <= i < headers.len() && same_name((#[trigger] headers[i]).0, d.0) {
            Seq::empty()
        } else {
            seq![d]
        }),
        missing_defaults(headers, Seq::empty()).len() == 0,
    decreases b.len(),
{
    reveal_with_fuel(missing_defaults, 2);
    assert(seq![d].drop_last() =~= Seq::empty());
    assert(missing_defaults(headers, seq![d].drop_last()) =~= Seq::empty());
    assert(Seq::<(Seq<char>, Seq<char>)>::empty().push(d) =~= seq![d]);
    let m = missing_defaults(headers, a);
    if b.len() == 0 {
        assert(a + b =~= a);
        assert(m + missing_defaults(headers, b) =~= m);
    } else {
        law_defaults_are_added_one_by_one(headers, a, d, b.drop_last());
        assert((a + b).drop_last() =~= a + b.drop_last());
        assert((a + b).last() == b.last());
        assert(missing_defaults(headers, a + b) =~= m + missing_defaults(headers, b));
    }
}

/// The headers of a request are the auth header, then the client's that go on, then the defaults
/// that the client leaves open.
pub proof fn law_headers_in_three_parts(
    route: ResolvedRoute,
    headers: Seq<(Seq<char>, Seq<char>)>,
)
    ensures
        ({
            let auth = auth_header(route.auth, route.api_key@);
            let kept = forwarded(headers, auth.0);
            let sent = sent_headers(route, headers);
            &&& sent.len() > kept.len()
            &&& sent.first() == auth
            &&& sent.subrange(1, 1 + kept.len() as int) == kept
            &&& sent.skip(1 + kept.len() as int) == missing_defaults(
                headers,
                text::pair_views(route.default_headers@),
            )
        }),
{
    let auth = auth_header(route.auth, route.api_key@);
    let kept = forwarded(headers, auth.0);
    let added = missing_defaults(headers, text::pair_views(route.default_headers@));
    let sent = sent_headers(route, headers);
    assert(sent.subrange(1, 1 + kept.len() as int) =~= kept);
    assert(sent.skip(1 + kept.len() as int) =~= added);
}

/// A body that is no JSON goes out as it came. One that is goes out as the compact text of what it
/// holds, and two bodies that differ in nothing but the model and the layout go out as one.
pub proof fn law_body_goes_out_with_the_model(
    body: Seq<u8>,
    other: Seq<u8>,
    members: Map<Seq<char>, JsonMember>,
    value: JsonMember,
    model: Seq<char>,
)
    ensures
        json::json_read(body) is None ==> backend_body(body, model) == body,
        json::json_read(body) matches Some(doc) ==> (doc is Other ==> backend_body(body, model)
            == json::json_text(doc)),
        json::json_read(body) == Some(JsonDoc::Object(members)) ==> backend_body(body, model)
            == json::json_text(
            JsonDoc::Object(members.insert("model"@, JsonMember::Text(model))),
        ),
        json::json_read(body) == Some(JsonDoc::Object(members)) && json::json_read(other) == Some(
            JsonDoc::Object(members.insert("model"@, value)),
        ) ==> backend_body(other, model) == backend_body(body, model),
{
    assert(members.insert("model"@, value).insert("model"@, JsonMember::Text(model))
        =~= members.insert("model"@, JsonMember::Text(model)));
}

/// An HTTP method is made of the characters of a token, one at least: letters, digits and a few
/// signs.
pub proof fn law_methods_are_tokens(a: Seq<char>, c: char, b: Seq<char>)
    requires
        a.len() > 0,
        b.len() > 0,
    ensures
        !is_method(Seq::<char>::empty()),
        is_method(seq![c]) <==> ('a' <= c <= 'z' || 'A' <= c <= 'Z' || '0' <= c <= '9'
            || "!#$%&'*+-.^_`|~"@.contains(c)),
        is_method(a + b) <==> is_method(a) && is_method(b),
{
    if is_method(seq![c]) {
        assert(is_method_char(seq![c][0]));
    }
    if is_method(a + b) {
        assert forall|i: int| 0 <= i < a.len() implies is_method_char(#[trigger] a[i]) by {
            assert(is_method_char((a + b)[i]));
        }
        assert forall|i: int| 0 <= i < b.len() implies is_method_char(#[trigger] b[i]) by {
            assert(is_method_char((a + b)[a.len() + i]));
        }
    }
}

/// A response header is passed on under its name, with its value if that is text and else with
/// none.
pub proof fn law_response_headers_keep_their_text(name: String, value: String)
    ensures
        header_view((name, Some(value))) == (name@, value@),
        header_view((name, None)).0 == name@,
        header_view((name, None)).1.len() == 0,
{
}

} // verus!
