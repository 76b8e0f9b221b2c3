//! Rules applied to every request: cookies, the origin check, rate-limit
//! identities and policies, and the security headers of every response.

use vstd::prelude::*;

use crate::digest::{hex_encode, hex_lower, sha256, sha256_digest};
use crate::text::{
    has_char, is_ws, lemma_split_last, lemma_split_step, push_all, decimal, ends_with_str, has_prefix, has_suffix, push_decimal, push_str, starts_with_str, str_eq,
    chars_eq, chars_of, copy_range, find_char, first_index, lemma_first_index_bounds, split_on,
    split_once, string_of, take_at_most, take_chars, trim, trimmed,
};

verus! {

broadcast use vstd::string::group_string_axioms;

/// The request headers that the service's rules read, each as its text when
/// the header is present and readable.
#[derive(Clone, Debug)]
pub struct RequestHeaders {
    pub host: Option<String>,
    pub origin: Option<String>,
    pub cookie: Option<String>,
    pub authorization: Option<String>,
    pub azure_client_ip: Option<String>,
    pub real_ip: Option<String>,
    pub forwarded_for: Option<String>,
    pub idempotency_key: Option<String>,
}

/// The view of an optional header.
pub open spec fn opt_view(h: Option<String>) -> Option<Seq<char>> {
    match h {
        Some(s) => Some(s@),
        None => None,
    }
}

/// The value of the first cookie pair named `name` among `segments`, each
/// segment trimmed and split at its first `=`.
pub open spec fn cookie_lookup(segments: Seq<Seq<char>>, name: Seq<char>) -> Option<Seq<char>>
    decreases segments.len(),
{
    if segments.len() == 0 {
        None
    } else {
        let pair = split_once(trim(segments[0]), '=');
        if pair is Some && pair.unwrap().0 == name {
            Some(pair.unwrap().1)
        } else {
            cookie_lookup(segments.drop_first(), name)
        }
    }
}

/// The value of cookie `name` in the text of a `Cookie` header.
pub open spec fn cookie_in(header: Seq<char>, name: Seq<char>) -> Option<Seq<char>> {
    cookie_lookup(split_on(header, ';'), name)
}

/// The value of cookie `name` in an optional `Cookie` header.
pub open spec fn cookie_of(header: Option<Seq<char>>, name: Seq<char>) -> Option<Seq<char>> {
    match header {
        Some(h) => cookie_in(h, name),
        None => None,
    }
}

/// The value of the first pair named `name` in the `Cookie` header text `header`.
pub fn find_cookie(header: &str, name: &str) -> (r: Option<Vec<char>>)
    ensures
        match r {
            Some(v) => cookie_in(header@, name@) == Some(v@),
            None => cookie_in(header@, name@) is None,
        },
{
    let h = chars_of(header);
    let n = chars_of(name);
    let mut start: usize = 0;
    assert(h@.skip(0) =~= h@);
    loop
        invariant
            start <= h@.len(),
            h@ == header@,
            n@ == name@,
            cookie_in(header@, name@) == cookie_lookup(split_on(h@.skip(start as int), ';'), n@),
        decreases h@.len() - start,
    {
        let found = find_char(&h, ';', start);
        let end = match found {
            Some(e) => e,
            None => h.len(),
        };
        proof {
            if found is Some {
                lemma_split_step(h@, ';', start as int, end as int);
            } else {
                lemma_split_last(h@, ';', start as int);
            }
        }
        let segment = copy_range(&h, start, end);
        let piece = trimmed(&segment);
        let ghost segs = split_on(h@.skip(start as int), ';');
        let ghost rest = if found is Some {
            split_on(h@.skip(end + 1), ';')
        } else {
            Seq::<Seq<char>>::empty()
        };
        assert(segs =~= seq![segment@] + rest);
        assert(segs[0] == segment@);
        assert(segs.drop_first() =~= rest);
        assert(piece@.skip(0) =~= piece@);
        match find_char(&piece, '=', 0) {
            Some(eq) => {
                assert(piece@.skip(0) =~= piece@);
                let key = copy_range(&piece, 0, eq);
                assert(key@ == piece@.take(eq as int));
                if chars_eq(&key, &n) {
                    let value = copy_range(&piece, eq + 1, piece.len());
                    assert(value@ =~= piece@.skip(eq + 1));
                    return Some(value);
                }
            },
            None => {
                assert(piece@.skip(0) =~= piece@);
            },
        }
        match found {
            Some(e) => {
                start = e + 1;
            },
            None => {
                assert(cookie_lookup(rest, n@) is None);
                return None;
            },
        }
    }
}

/// The value of cookie `name`, cut to its first 80 characters, as the
/// request filter reads visitor and session cookies.
pub fn cookie_value(headers: &RequestHeaders, name: &str) -> (r: Option<String>)
    ensures
        match cookie_of(opt_view(headers.cookie), name@) {
            Some(v) => r matches Some(s) && s@ == take_at_most(v, 80),
            None => r is None,
        },
{
    match &headers.cookie {
        Some(h) => match find_cookie(h.as_str(), name) {
            Some(v) => {
                let cut = take_chars(&v, 80);
                Some(string_of(&cut))
            },
            None => None,
        },
        None => None,
    }
}


/// Whether the `Host` header names the local machine.
pub open spec fn local_host(host: Option<Seq<char>>) -> bool {
    match host {
        Some(h) => has_prefix(h, "localhost"@) || has_prefix(h, "127.0.0.1"@),
        None => false,
    }
}

/// Whether the request's `Host` header names the local machine.
pub fn is_local_host(headers: &RequestHeaders) -> (r: bool)
    ensures
        r == local_host(opt_view(headers.host)),
{
    match &headers.host {
        Some(h) => {
            let v = chars_of(h.as_str());
            starts_with_str(&v, "localhost") || starts_with_str(&v, "127.0.0.1")
        },
        None => false,
    }
}

/// The `Secure` cookie attribute, left out for requests to the local machine.
pub fn secure_attribute(headers: &RequestHeaders) -> (r: &'static str)
    ensures
        r == (if local_host(opt_view(headers.host)) { "" } else { "; Secure" }),
{
    if is_local_host(headers) {
        ""
    } else {
        "; Secure"
    }
}

/// The text of a session cookie that the browser keeps for `max_age` seconds.
pub open spec fn cookie_text(name: Seq<char>, value: Seq<char>, max_age: nat, secure: Seq<char>) -> Seq<
    char,
> {
    name + "="@ + value + "; Path=/; HttpOnly; SameSite=Strict; Max-Age="@ + decimal(max_age)
        + secure
}

/// The `Set-Cookie` text that stores `value` under `name` for `max_age`
/// seconds, strict to this site and hidden from scripts.
pub fn cookie(name: &str, value: &str, headers: &RequestHeaders, max_age: u64) -> (r: String)
    ensures
        r@ == cookie_text(name@, value@, max_age as nat, secure_attribute_spec(headers)@),
{
    let secure = secure_attribute(headers);
    let mut out: Vec<char> = Vec::new();
    push_str(&mut out, name);
    push_str(&mut out, "=");
    push_str(&mut out, value);
    push_str(&mut out, "; Path=/; HttpOnly; SameSite=Strict; Max-Age=");
    push_decimal(&mut out, max_age);
    push_str(&mut out, secure);
    assert(out@ =~= cookie_text(name@, value@, max_age as nat, secure@));
    string_of(&out)
}

/// The `Secure` attribute that `secure_attribute` gives for `headers`.
pub open spec fn secure_attribute_spec(headers: &RequestHeaders) -> &'static str {
    if local_host(opt_view(headers.host)) {
        ""
    } else {
        "; Secure"
    }
}

/// The `Set-Cookie` text that removes cookie `name` at once.
pub fn clear_cookie(name: &str, headers: &RequestHeaders) -> (r: String)
    ensures
        r@ == name@ + "=; Path=/; HttpOnly; SameSite=Strict; Max-Age=0"@ + secure_attribute_spec(
            headers,
        )@,
{
    let secure = secure_attribute(headers);
    let mut out: Vec<char> = Vec::new();
    push_str(&mut out, name);
    push_str(&mut out, "=; Path=/; HttpOnly; SameSite=Strict; Max-Age=0");
    push_str(&mut out, secure);
    string_of(&out)
}

/// Whether `path` is a health probe, which no rate limit covers.
pub open spec fn is_probe(path: Seq<char>) -> bool {
    path == "/health"@ || path == "/ready"@
}

/// Whether requests to `path` pass without a rate-limit check.
pub fn is_probe_path(path: &str) -> (r: bool)
    ensures
        r == is_probe(path@),
{
    str_eq(path, "/health") || str_eq(path, "/ready")
}

/// The rate-limit bucket, allowance and window in seconds for a request.
pub open spec fn rate_policy_of(method: Seq<char>, path: Seq<char>) -> (&'static str, usize, u64) {
    if method == "POST"@ && (path == "/api/v1/demo/sessions"@ || path
        == "/api/v1/demo/session/ensure"@ || path == "/api/v1/demo/session/reset"@) {
        ("demo-session", 3, 60)
    } else if method == "POST"@ && path == "/api/v1/client-links/exchange"@ {
        ("link-exchange", 10, 60)
    } else if method == "POST"@ && has_suffix(path, "/submissions"@) {
        ("client-submit", 5, 60)
    } else if method != "GET"@ {
        ("demo-write", 30, 60)
    } else {
        ("read", 40, 1)
    }
}

/// The bucket, allowance and window (in seconds) that limit a request:
/// demo sessions 3 a minute, link exchanges 10, client submissions 5, other
/// writes 30 a minute, and reads 40 a second.
pub fn rate_policy(method: &str, path: &str) -> (r: (&'static str, usize, u64))
    ensures
        r == rate_policy_of(method@, path@),
{
    let post = str_eq(method, "POST");
    if post && (str_eq(path, "/api/v1/demo/sessions") || str_eq(path, "/api/v1/demo/session/ensure")
        || str_eq(path, "/api/v1/demo/session/reset")) {
        ("demo-session", 3, 60)
    } else if post && str_eq(path, "/api/v1/client-links/exchange") {
        ("link-exchange", 10, 60)
    } else if post && ends_with_str(&chars_of(path), "/submissions") {
        ("client-submit", 5, 60)
    } else if !str_eq(method, "GET") {
        ("demo-write", 30, 60)
    } else {
        ("read", 40, 1)
    }
}

/// The `Cache-Control` value for a response to `path`.
pub open spec fn cache_control_of(path: Seq<char>) -> &'static str {
    if has_prefix(path, "/api/"@) || path == "/client"@ {
        "no-store"
    } else if has_prefix(path, "/assets/"@) || has_prefix(path, "/fonts/"@) {
        "public, max-age=31536000, immutable"
    } else {
        "public, max-age=300"
    }
}

/// The security headers that every response carries, the last one the
/// `Cache-Control` value for `path`.
pub open spec fn security_headers_of(path: Seq<char>) -> Seq<(&'static str, &'static str)> {
    seq![
        ("x-content-type-options", "nosniff"),
        ("referrer-policy", "no-referrer"),
        ("permissions-policy", "camera=(), microphone=(), geolocation=(), payment=()"),
        ("cross-origin-opener-policy", "same-origin"),
        ("content-security-policy", CONTENT_SECURITY_POLICY),
        ("strict-transport-security", "max-age=31536000; includeSubDomains"),
        ("cache-control", cache_control_of(path)),
    ]
}

/// The content security policy of every response.
pub const CONTENT_SECURITY_POLICY: &'static str = "default-src 'self'; base-uri 'none'; connect-src 'self' https://sociobotcustomers.ciamlogin.com; font-src 'self'; form-action 'self' https://sociobotcustomers.ciamlogin.com; frame-src https://sociobotcustomers.ciamlogin.com; frame-ancestors 'none'; img-src 'self' data:; object-src 'none'; script-src 'self'; style-src 'self'; upgrade-insecure-requests";

/// The `Cache-Control` value for a response to `path`: API responses and
/// the client page are never stored, hashed assets and fonts are immutable,
/// and other pages are cached for five minutes.
pub fn cache_control(path: &str) -> (r: &'static str)
    ensures
        r == cache_control_of(path@),
{
    let p = chars_of(path);
    if starts_with_str(&p, "/api/") || str_eq(path, "/client") {
        "no-store"
    } else if starts_with_str(&p, "/assets/") || starts_with_str(&p, "/fonts/") {
        "public, max-age=31536000, immutable"
    } else {
        "public, max-age=300"
    }
}

/// The security headers, name and value, that a response to `path` carries.
pub fn add_security_headers(path: &str) -> (r: Vec<(&'static str, &'static str)>)
    ensures
        r@ == security_headers_of(path@),
{
    let mut r: Vec<(&'static str, &'static str)> = Vec::new();
    r.push(("x-content-type-options", "nosniff"));
    r.push(("referrer-policy", "no-referrer"));
    r.push(("permissions-policy", "camera=(), microphone=(), geolocation=(), payment=()"));
    r.push(("cross-origin-opener-policy", "same-origin"));
    r.push(("content-security-policy", CONTENT_SECURITY_POLICY));
    r.push(("strict-transport-security", "max-age=31536000; includeSubDomains"));
    r.push(("cache-control", cache_control(path)));
    assert(r@ =~= security_headers_of(path@));
    r
}

/// Whether a successful request changes stored data, so that the database
/// snapshot is written after it: every API request but a `GET`.
pub fn should_persist(method: &str, path: &str) -> (r: bool)
    ensures
        r == (method@ != "GET"@ && has_prefix(path@, "/api/"@)),
{
    !str_eq(method, "GET") && starts_with_str(&chars_of(path), "/api/")
}

/// The paths that the web application renders as pages.
pub open spec fn is_page_route(path: Seq<char>) -> bool {
    path == "/"@ || path == "/demo"@ || path == "/client"@ || path == "/workspace"@ || path
        == "/auth/callback"@ || path == "/privacy"@ || path == "/terms"@
}

/// Whether `path` is one of the pages that the web application renders.
pub fn is_known_page(path: &str) -> (r: bool)
    ensures
        r == is_page_route(path@),
{
    str_eq(path, "/") || str_eq(path, "/demo") || str_eq(path, "/client") || str_eq(
        path,
        "/workspace",
    ) || str_eq(path, "/auth/callback") || str_eq(path, "/privacy") || str_eq(path, "/terms")
}

/// The status of a finished response: a successful HTML answer for a path
/// that is not a known page becomes 404, any other status stays.
pub fn final_status(status: u16, is_html: bool, path: &str) -> (r: u16)
    ensures
        r == (if 200 <= status <= 299 && is_html && !is_page_route(path@) { 404 } else { status }),
{
    if 200 <= status && status <= 299 && is_html && !is_known_page(path) {
        404
    } else {
        status
    }
}

/// The `Set-Cookie` text that marks a new visitor for thirty days.
pub fn visitor_cookie(visitor: &str, local: bool) -> (r: String)
    ensures
        r@ == "car_visitor="@ + visitor@ + "; Path=/; HttpOnly; SameSite=Strict; Max-Age=2592000"@
            + (if local { ""@ } else { "; Secure"@ }),
{
    let mut out: Vec<char> = Vec::new();
    push_str(&mut out, "car_visitor=");
    push_str(&mut out, visitor);
    push_str(&mut out, "; Path=/; HttpOnly; SameSite=Strict; Max-Age=2592000");
    if local {
        push_str(&mut out, "");
    } else {
        push_str(&mut out, "; Secure");
    }
    string_of(&out)
}

/// What the readiness probe reports: its HTTP status and the state of the
/// service, the database and the malware scanner.
#[derive(Clone, Debug)]
pub struct ReadyReport {
    pub http_status: u16,
    pub status: &'static str,
    pub database: &'static str,
    pub malware_scanner: &'static str,
}

/// The readiness report: ready with 200 only when both the database and the
/// scanner answer, degraded with 503 otherwise.
pub fn readiness(database_ready: bool, scanner_ready: bool) -> (r: ReadyReport)
    ensures
        r.http_status == (if database_ready && scanner_ready { 200u16 } else { 503u16 }),
        r.status == (if database_ready && scanner_ready { "ready" } else { "degraded" }),
        r.database == (if database_ready { "ready" } else { "unavailable" }),
        r.malware_scanner == (if scanner_ready { "ready" } else { "unavailable" }),
{
    let both = database_ready && scanner_ready;
    ReadyReport {
        http_status: if both { 200 } else { 503 },
        status: if both { "ready" } else { "degraded" },
        database: if database_ready { "ready" } else { "unavailable" },
        malware_scanner: if scanner_ready { "ready" } else { "unavailable" },
    }
}


/// The trimmed, non-empty pieces among `segs`.
pub open spec fn hop_list(segs: Seq<Seq<char>>) -> Seq<Seq<char>>
    decreases segs.len(),
{
    if segs.len() == 0 {
        seq![]
    } else {
        let t = trim(segs[0]);
        let rest = hop_list(segs.drop_first());
        if t.len() == 0 {
            rest
        } else {
            seq![t] + rest
        }
    }
}

/// The hops of a forwarding header: its comma-separated entries, trimmed,
/// empty ones left out.
pub open spec fn hops_of(v: Seq<char>) -> Seq<Seq<char>> {
    hop_list(split_on(v, ','))
}

/// The identities that one forwarding header gives: its first hop and, when
/// it has more than one, its last, each cut to 64 characters.
pub open spec fn forward_identities(name: Seq<char>, value: Option<Seq<char>>) -> Seq<Seq<char>> {
    match value {
        None => seq![],
        Some(v) => {
            let h = hops_of(v);
            (if h.len() >= 1 {
                seq![name + ":"@ + take_at_most(h[0], 64)]
            } else {
                seq![]
            }) + (if h.len() > 1 {
                seq![name + ":"@ + take_at_most(h.last(), 64)]
            } else {
                seq![]
            })
        },
    }
}

/// The first product cookie present: the visitor, demo or client cookie.
pub open spec fn product_cookie(cookie: Option<Seq<char>>) -> Option<Seq<char>> {
    if cookie_of(cookie, "car_visitor"@) is Some {
        cookie_of(cookie, "car_visitor"@)
    } else if cookie_of(cookie, "car_demo"@) is Some {
        cookie_of(cookie, "car_demo"@)
    } else {
        cookie_of(cookie, "car_client"@)
    }
}

/// The bearer token of an `Authorization` header, when it has a non-empty one.
pub open spec fn bearer_of(auth: Option<Seq<char>>) -> Option<Seq<char>> {
    match auth {
        Some(a) => if has_prefix(a, "Bearer "@) && a.len() > "Bearer "@.len() {
            Some(a.skip("Bearer "@.len() as int))
        } else {
            None
        },
        None => None,
    }
}

/// The keys under which a request is counted against its rate limits.
pub open spec fn rate_identities_of(headers: &RequestHeaders, path: Seq<char>) -> Seq<Seq<char>> {
    let c = match product_cookie(opt_view(headers.cookie)) {
        Some(v) => seq!["cookie:"@ + take_at_most(v, 80)],
        None => seq![],
    };
    let b = match bearer_of(opt_view(headers.authorization)) {
        Some(t) => seq!["bearer:"@ + hex_lower(sha256_digest(vstd::utf8::encode_utf8(t)))],
        None => seq![],
    };
    let ids = c + b + forward_identities("x-azure-clientip"@, opt_view(headers.azure_client_ip))
        + forward_identities("x-real-ip"@, opt_view(headers.real_ip)) + forward_identities(
        "x-forwarded-for"@,
        opt_view(headers.forwarded_for),
    );
    if ids.len() == 0 || (has_prefix(path, "/api/"@) && c.len() == 0 && b.len() == 0) {
        ids.push("anonymous-no-cookie"@)
    } else {
        ids
    }
}

/// The first hop of `value` and, when there is more than one, the last.
fn first_and_last_hop(value: &str) -> (r: (Option<Vec<char>>, Option<Vec<char>>))
    ensures
        hops_of(value@).len() >= 1 <==> r.0 is Some,
        r.0 matches Some(f) ==> f@ == hops_of(value@)[0],
        hops_of(value@).len() > 1 <==> r.1 is Some,
        r.1 matches Some(l) ==> l@ == hops_of(value@).last(),
{
    let h = chars_of(value);
    let mut start: usize = 0;
    let mut first: Option<Vec<char>> = None;
    let mut last: Option<Vec<char>> = None;
    let mut count: usize = 0;
    let ghost mut done: Seq<Seq<char>> = seq![];
    assert(h@.skip(0) =~= h@);
    loop
        invariant
            start <= h@.len(),
            h@ == value@,
            hops_of(value@) == done + hop_list(split_on(h@.skip(start as int), ',')),
            count == (if done.len() >= 2 { 2 } else { done.len() }),
            done.len() >= 1 <==> first is Some,
            first matches Some(f) ==> f@ == done[0],
            done.len() >= 1 <==> last is Some,
            last matches Some(l) ==> l@ == done.last(),
        decreases h@.len() - start,
    {
        let found = find_char(&h, ',', start);
        let end = match found {
            Some(e) => e,
            None => h.len(),
        };
        let ghost rest = if found is Some {
            split_on(h@.skip(end + 1), ',')
        } else {
            Seq::<Seq<char>>::empty()
        };
        proof {
            if found is Some {
                lemma_split_step(h@, ',', start as int, end as int);
            } else {
                lemma_split_last(h@, ',', start as int);
            }
        }
        let segment = copy_range(&h, start, end);
        let piece = trimmed(&segment);
        let ghost segs = split_on(h@.skip(start as int), ',');
        assert(segs =~= seq![segment@] + rest);
        assert(segs[0] == segment@);
        assert(segs.drop_first() =~= rest);
        if piece.len() > 0 {
            proof {
                assert(hop_list(segs) == seq![piece@] + hop_list(rest));
                assert(done + hop_list(segs) =~= done.push(piece@) + hop_list(rest));
                done = done.push(piece@);
            }
            if count == 0 {
                first = Some(copy_range(&piece, 0, piece.len()));
                assert(piece@.subrange(0, piece@.len() as int) =~= piece@);
            }
            last = Some(copy_range(&piece, 0, piece.len()));
            assert(piece@.subrange(0, piece@.len() as int) =~= piece@);
            if count < 2 {
                count = count + 1;
            }
        } else {
            assert(hop_list(segs) == hop_list(rest));
        }
        match found {
            Some(e) => {
                start = e + 1;
            },
            None => {
                assert(hop_list(rest) =~= Seq::<Seq<char>>::empty());
                assert(hops_of(value@) =~= done);
                if count >= 2 {
                    return (first, last);
                } else {
                    return (first, None);
                }
            },
        }
    }
}

/// Appends the identities that one forwarding header gives.
fn push_forward_identities(ids: &mut Vec<String>, name: &str, value: &Option<String>)
    ensures
        final(ids).deep_view() == old(ids).deep_view() + forward_identities(name@, opt_view(*value)),
{
    match value {
        Some(v) => {
            let (first, last) = first_and_last_hop(v.as_str());
            match first {
                Some(f) => {
                    let mut id: Vec<char> = Vec::new();
                    push_str(&mut id, name);
                    push_str(&mut id, ":");
                    let cut = take_chars(&f, 64);
                    push_all(&mut id, &cut);
                    ids.push(string_of(&id));
                },
                None => {},
            }
            match last {
                Some(l) => {
                    let mut id: Vec<char> = Vec::new();
                    push_str(&mut id, name);
                    push_str(&mut id, ":");
                    let cut = take_chars(&l, 64);
                    push_all(&mut id, &cut);
                    ids.push(string_of(&id));
                },
                None => {},
            }
            assert(ids.deep_view() =~= old(ids).deep_view() + forward_identities(
                name@,
                opt_view(*value),
            ));
        },
        None => {
            assert(ids.deep_view() =~= old(ids).deep_view());
        },
    }
}

/// The bearer token of the request, when its `Authorization` header holds a
/// non-empty one.
pub fn bearer_token(headers: &RequestHeaders) -> (r: Option<&str>)
    ensures
        match bearer_of(opt_view(headers.authorization)) {
            Some(t) => r matches Some(s) && s@ == t,
            None => r is None,
        },
{
    match &headers.authorization {
        Some(a) => {
            let v = chars_of(a.as_str());
            proof {
                reveal_strlit("Bearer ");
            }
            if starts_with_str(&v, "Bearer ") && v.len() > 7 {
                let s = a.as_str();
                Some(s.substring_char(7, v.len()))
            } else {
                None
            }
        },
        None => None,
    }
}

/// The keys under which a request counts against its rate limits: the first
/// product cookie, the hashed bearer token, the first and last hop of each
/// forwarding header, and `anonymous-no-cookie` for an API request that has
/// neither cookie nor token (or for a request with no key at all), so that
/// changing forwarding headers cannot escape the anonymous limit.
pub fn rate_identities(headers: &RequestHeaders, path: &str) -> (r: Vec<String>)
    ensures
        r.deep_view() == rate_identities_of(headers, path@),
{
    let mut ids: Vec<String> = Vec::new();
    let mut has_product_cookie = false;
    let visitor = cookie_value(headers, "car_visitor");
    let demo = cookie_value(headers, "car_demo");
    let client = cookie_value(headers, "car_client");
    let chosen = if visitor.is_some() {
        visitor
    } else if demo.is_some() {
        demo
    } else {
        client
    };
    match chosen {
        Some(v) => {
            let mut id: Vec<char> = Vec::new();
            push_str(&mut id, "cookie:");
            push_str(&mut id, v.as_str());
            ids.push(string_of(&id));
            has_product_cookie = true;
        },
        None => {},
    }
    let ghost c = match product_cookie(opt_view(headers.cookie)) {
        Some(v) => seq!["cookie:"@ + take_at_most(v, 80)],
        None => Seq::<Seq<char>>::empty(),
    };
    assert(ids.deep_view() =~= c);
    assert(has_product_cookie == (c.len() != 0));
    let bearer = bearer_token(headers);
    let has_bearer = bearer.is_some();
    match bearer {
        Some(t) => {
            let digest = sha256(t.as_bytes());
            let hex = hex_encode(digest.as_slice());
            let mut id: Vec<char> = Vec::new();
            push_str(&mut id, "bearer:");
            push_str(&mut id, hex.as_str());
            ids.push(string_of(&id));
        },
        None => {},
    }
    let ghost b = match bearer_of(opt_view(headers.authorization)) {
        Some(t) => seq!["bearer:"@ + hex_lower(sha256_digest(vstd::utf8::encode_utf8(t)))],
        None => Seq::<Seq<char>>::empty(),
    };
    assert(ids.deep_view() =~= c + b);
    assert(has_bearer == (b.len() != 0));
    push_forward_identities(&mut ids, "x-azure-clientip", &headers.azure_client_ip);
    push_forward_identities(&mut ids, "x-real-ip", &headers.real_ip);
    push_forward_identities(&mut ids, "x-forwarded-for", &headers.forwarded_for);
    let ghost all = c + b + forward_identities("x-azure-clientip"@, opt_view(headers.azure_client_ip))
        + forward_identities("x-real-ip"@, opt_view(headers.real_ip)) + forward_identities(
        "x-forwarded-for"@,
        opt_view(headers.forwarded_for),
    );
    assert(ids.deep_view() =~= all);
    if ids.len() == 0 || (starts_with_str(&chars_of(path), "/api/") && !has_product_cookie
        && !has_bearer) {
        let anon = string_of(&chars_of("anonymous-no-cookie"));
        ids.push(anon);
        assert(ids.deep_view() =~= all.push("anonymous-no-cookie"@));
    }
    ids
}


/// Every request counts under at least one key, and an API request that has
/// neither a product cookie nor a bearer token always counts under the
/// shared anonymous key, whatever forwarding headers it sends.
pub proof fn lemma_anonymous_requests_share_a_key(headers: &RequestHeaders, path: Seq<char>)
    ensures
        rate_identities_of(headers, path).len() > 0,
        has_prefix(path, "/api/"@) && product_cookie(opt_view(headers.cookie)) is None
            && bearer_of(opt_view(headers.authorization)) is None ==> rate_identities_of(
            headers,
            path,
        ).last() == "anonymous-no-cookie"@,
{
}

/// Whether a request is an API request that carries neither a product
/// cookie nor a bearer token.
pub open spec fn anonymous_api(headers: &RequestHeaders, path: Seq<char>) -> bool {
    &&& has_prefix(path, "/api/"@)
    &&& product_cookie(opt_view(headers.cookie)) is None
    &&& bearer_of(opt_view(headers.authorization)) is None
}

/// Each identity that a forwarding header named `name` gives begins with
/// the first character of `name`.
proof fn lemma_forward_identities_start(name: Seq<char>, value: Option<Seq<char>>)
    requires
        name.len() > 0,
    ensures
        forall|j: int|
            0 <= j < forward_identities(name, value).len() ==> #[trigger] forward_identities(
                name,
                value,
            )[j].len() > 0 && forward_identities(name, value)[j][0] == name[0],
{
    match value {
        None => {},
        Some(v) => {
            let h = hops_of(v);
            let f = forward_identities(name, value);
            assert forall|j: int| 0 <= j < f.len() implies #[trigger] f[j].len() > 0 && f[j][0]
                == name[0] by {
                if h.len() >= 1 && j == 0 {
                    assert(f[j] == name + ":"@ + take_at_most(h[0], 64));
                } else {
                    assert(f[j] == name + ":"@ + take_at_most(h.last(), 64));
                }
            }
        },
    }
}

/// The identities of an anonymous API request: forwarding identities, each
/// beginning with `x`, and last the shared anonymous key.
pub proof fn lemma_anonymous_identities(headers: &RequestHeaders, path: Seq<char>)
    requires
        anonymous_api(headers, path),
    ensures
        rate_identities_of(headers, path).len() >= 1,
        rate_identities_of(headers, path).last() == "anonymous-no-cookie"@,
        forall|j: int|
            0 <= j < rate_identities_of(headers, path).len() - 1 ==> #[trigger] rate_identities_of(
                headers,
                path,
            )[j].len() > 0 && rate_identities_of(headers, path)[j][0] == 'x',
{
    reveal_strlit("x-azure-clientip");
    reveal_strlit("x-real-ip");
    reveal_strlit("x-forwarded-for");
    let f1 = forward_identities("x-azure-clientip"@, opt_view(headers.azure_client_ip));
    let f2 = forward_identities("x-real-ip"@, opt_view(headers.real_ip));
    let f3 = forward_identities("x-forwarded-for"@, opt_view(headers.forwarded_for));
    lemma_forward_identities_start("x-azure-clientip"@, opt_view(headers.azure_client_ip));
    lemma_forward_identities_start("x-real-ip"@, opt_view(headers.real_ip));
    lemma_forward_identities_start("x-forwarded-for"@, opt_view(headers.forwarded_for));
    let c: Seq<Seq<char>> = seq![];
    let b: Seq<Seq<char>> = seq![];
    let ids = c + b + f1 + f2 + f3;
    assert(ids =~= f1 + f2 + f3);
    let all = rate_identities_of(headers, path);
    assert(all == ids.push("anonymous-no-cookie"@));
    assert forall|j: int| 0 <= j < all.len() - 1 implies #[trigger] all[j].len() > 0 && all[j][0]
        == 'x' by {
        assert(all[j] == ids[j]);
        if j < f1.len() {
            assert(ids[j] == f1[j]);
        } else if j < f1.len() + f2.len() {
            assert(ids[j] == f2[j - f1.len()]);
        } else {
            assert(ids[j] == f3[j - f1.len() - f2.len()]);
        }
    }
}

/// The cookie pair that a browser sends back for a cookie set by name and
/// value reads back as that value.
pub proof fn lemma_cookie_reads_back(name: Seq<char>, value: Seq<char>)
    requires
        name.len() > 0,
        !is_ws(name[0]),
        value.len() > 0 ==> !is_ws(value.last()),
        value.len() == 0 ==> !is_ws(name.last()),
        !has_char(name, '='),
        !has_char(name, ';'),
        !has_char(value, ';'),
    ensures
        cookie_in(name + "="@ + value, name) == Some(value),
{
    let pair = name + "="@ + value;
    reveal_strlit("=");
    assert(!has_char(pair, ';')) by {
        assert forall|i: int| 0 <= i < pair.len() implies pair[i] != ';' by {
            if i < name.len() {
                assert(pair[i] == name[i]);
            } else if i > name.len() {
                assert(pair[i] == value[i - name.len() - 1]);
            }
        }
    }
    lemma_first_index_bounds(pair, ';');
    if first_index(pair, ';') >= 0 {
        assert(pair[first_index(pair, ';')] == ';');
    }
    assert(split_on(pair, ';') == seq![pair]);
    crate::text::lemma_trim_start_skip(pair, 0);
    assert(pair.skip(0) =~= pair);
    crate::text::lemma_trim_end_take(pair, pair.len() as int);
    assert(pair.take(pair.len() as int) =~= pair);
    assert(trim(pair) == pair);
    assert forall|j: int| 0 <= j < name.len() implies pair[j] != '=' by {
        assert(pair[j] == name[j]);
    }
    crate::text::lemma_first_index_is(pair, '=', name.len() as int);
    assert(pair.take(name.len() as int) =~= name);
    assert(pair.skip(name.len() as int + 1) =~= value);
    assert(cookie_lookup(seq![pair], name) == Some(value));
}


/// The answer to a request over its rate limit (sent with `Retry-After`).
pub fn rate_limited() -> (r: crate::demo::ApiError)
    ensures
        r == crate::demo::api_error(
            429,
            "rate_limited",
            "Too many requests. Wait a moment and try again.",
        ),
{
    crate::demo::ApiError::new(429, "rate_limited", "Too many requests. Wait a moment and try again.")
}

} // verus!
