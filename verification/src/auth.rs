//! Staff sign-in: reading the bearer token, the test tokens of local runs,
//! the JWT header through jsonwebtoken, and the checks on verified claims.

use jsonwebtoken::Algorithm as Alg;
use jsonwebtoken::{decode, DecodingKey, Validation};
use serde_json::Value;
use vstd::prelude::*;

use crate::demo::{api_error, ApiError};
use crate::http::{opt_view, RequestHeaders};
use crate::text::{
    chars_eq, chars_of, copy_range, has_prefix, push_all, push_str, starts_with_str, str_eq,
    string_of,
};

verus! {

broadcast use vstd::string::group_string_axioms;

/// The default Microsoft Entra tenant.
pub const DEFAULT_TENANT: &'static str = "35c6fe40-0ec0-46b6-98c6-213ad4de6650";

/// The default tenant subdomain.
pub const DEFAULT_SUBDOMAIN: &'static str = "sociobotcustomers";

/// The default application (client) id.
pub const DEFAULT_CLIENT: &'static str = "25c704f4-465a-47af-80ab-2c489466b697";

/// Signing keys are fetched again after an hour.
pub const KEY_CACHE_SECS: u64 = 3_600;

/// The claims of a verified staff token.
#[derive(Clone, Debug)]
pub struct StaffClaims {
    pub oid: String,
    pub tid: String,
    pub name: String,
    pub email: String,
}

/// How the service trusts staff tokens: the tenant and application they
/// must name, where the signing keys are published, and whether local test
/// tokens pass.
#[derive(Clone, Debug)]
pub struct AuthSettings {
    pub tenant_id: String,
    pub client_id: String,
    pub discovery_url: String,
    pub accept_test_tokens: bool,
}

/// The OpenID discovery document of a tenant.
pub open spec fn discovery_url_of(subdomain: Seq<char>, tenant: Seq<char>) -> Seq<char> {
    "https://"@ + subdomain + ".ciamlogin.com/"@ + tenant + "/v2.0/.well-known/openid-configuration"@
}

/// The value of an optional setting, or `default`.
pub open spec fn or_default(v: Option<Seq<char>>, default: Seq<char>) -> Seq<char> {
    match v {
        Some(s) => s,
        None => default,
    }
}

fn setting_or(v: Option<String>, default: &str) -> (r: String)
    ensures
        r@ == or_default(opt_view(v), default@),
{
    match v {
        Some(s) => s,
        None => string_of(&chars_of(default)),
    }
}

impl AuthSettings {
    /// The settings that the configured tenant, subdomain and application
    /// give, each defaulting to the shared Sociobot tenant; test tokens pass
    /// only when the test mode is `1`.
    pub fn from_values(
        tenant: Option<String>,
        subdomain: Option<String>,
        client: Option<String>,
        test_mode: Option<String>,
    ) -> (r: AuthSettings)
        ensures
            r.tenant_id@ == or_default(opt_view(tenant), DEFAULT_TENANT@),
            r.client_id@ == or_default(opt_view(client), DEFAULT_CLIENT@),
            r.discovery_url@ == discovery_url_of(
                or_default(opt_view(subdomain), DEFAULT_SUBDOMAIN@),
                or_default(opt_view(tenant), DEFAULT_TENANT@),
            ),
            r.accept_test_tokens == (opt_view(test_mode) == Some("1"@)),
    {
        let tenant_id = setting_or(tenant, DEFAULT_TENANT);
        let sub = setting_or(subdomain, DEFAULT_SUBDOMAIN);
        let client_id = setting_or(client, DEFAULT_CLIENT);
        let mut url: Vec<char> = Vec::new();
        push_str(&mut url, "https://");
        push_str(&mut url, sub.as_str());
        push_str(&mut url, ".ciamlogin.com/");
        push_str(&mut url, tenant_id.as_str());
        push_str(&mut url, "/v2.0/.well-known/openid-configuration");
        let accept = match &test_mode {
            Some(m) => chars_eq(&chars_of(m.as_str()), &chars_of("1")),
            None => false,
        };
        AuthSettings {
            tenant_id,
            client_id,
            discovery_url: string_of(&url),
            accept_test_tokens: accept,
        }
    }
}

/// The answer to a missing, malformed, unknown or expired token.
pub fn invalid_token() -> (r: ApiError)
    ensures
        r == api_error(401, "invalid_token", "Your sign-in has expired. Sign in again."),
{
    ApiError::new(401, "invalid_token", "Your sign-in has expired. Sign in again.")
}

/// The answer when the identity provider cannot be reached.
pub fn auth_unavailable() -> (r: ApiError)
    ensures
        r == api_error(
            503,
            "identity_unavailable",
            "Sign-in verification is unavailable. Try again in a moment.",
        ),
{
    ApiError::new(
        503,
        "identity_unavailable",
        "Sign-in verification is unavailable. Try again in a moment.",
    )
}

/// The text after `Bearer ` in an `Authorization` header, possibly empty.
pub open spec fn bearer_text(auth: Option<Seq<char>>) -> Option<Seq<char>> {
    match auth {
        Some(a) => if has_prefix(a, "Bearer "@) {
            Some(a.skip("Bearer "@.len() as int))
        } else {
            None
        },
        None => None,
    }
}

/// The token that a staff request presents, or 401 when there is none.
pub fn bearer_credentials(headers: &RequestHeaders) -> (r: Result<String, ApiError>)
    ensures
        match bearer_text(opt_view(headers.authorization)) {
            Some(t) => r matches Ok(s) && s@ == t,
            None => r == Err::<String, ApiError>(
                api_error(
                    401,
                    "not_authorized",
                    "Sign in with your Sociobot account to open this workspace.",
                ),
            ),
        },
{
    match &headers.authorization {
        Some(a) => {
            let v = chars_of(a.as_str());
            proof {
                reveal_strlit("Bearer ");
            }
            if starts_with_str(&v, "Bearer ") {
                let rest = copy_range(&v, 7, v.len());
                assert(rest@ =~= v@.skip(7));
                Ok(string_of(&rest))
            } else {
                Err(
                    ApiError::unauthorized(
                        "Sign in with your Sociobot account to open this workspace.",
                    ),
                )
            }
        },
        None => Err(
            ApiError::unauthorized("Sign in with your Sociobot account to open this workspace."),
        ),
    }
}

/// The owner that a local test token `test:<oid>` names, when test tokens
/// pass and the oid is not empty.
pub open spec fn test_token_oid(token: Seq<char>, accept: bool) -> Option<Seq<char>> {
    if accept && has_prefix(token, "test:"@) && token.len() > "test:"@.len() {
        Some(token.skip("test:"@.len() as int))
    } else {
        None
    }
}

/// The claims of a local test token: the named owner in the configured tenant.
pub fn test_claims(token: &str, settings: &AuthSettings) -> (r: Option<StaffClaims>)
    ensures
        match test_token_oid(token@, settings.accept_test_tokens) {
            Some(oid) => r matches Some(c) && c.oid@ == oid && c.tid@ == settings.tenant_id@
                && c.name@ == "Owner "@ + oid && c.email@ == oid + "@example.test"@,
            None => r is None,
        },
{
    if !settings.accept_test_tokens {
        return None;
    }
    let t = chars_of(token);
    proof {
        reveal_strlit("test:");
    }
    if !starts_with_str(&t, "test:") || t.len() <= 5 {
        return None;
    }
    let oid = copy_range(&t, 5, t.len());
    assert(oid@ =~= token@.skip(5));
    let mut name: Vec<char> = Vec::new();
    push_str(&mut name, "Owner ");
    push_all(&mut name, &oid);
    let mut email: Vec<char> = oid.clone();
    push_str(&mut email, "@example.test");
    Some(
        StaffClaims {
            oid: string_of(&oid),
            tid: settings.tenant_id.clone(),
            name: string_of(&name),
            email: string_of(&email),
        },
    )
}

/// The signing algorithms that a JWT header can name.
#[derive(Clone, Copy, Debug, PartialEq, Eq, Structural)]
pub enum JwtAlgorithm {
    HS256,
    HS384,
    HS512,
    ES256,
    ES384,
    RS256,
    RS384,
    RS512,
    PS256,
    PS384,
    PS512,
    EdDSA,
}

/// The algorithm and key id that jsonwebtoken's `decode_header` reads from
/// `token`, or `None` where it refuses the token.
pub uninterp spec fn jwt_header(token: Seq<char>) -> Option<(JwtAlgorithm, Option<Seq<char>>)>;

/// Reads a token's header with jsonwebtoken's `decode_header`, without
/// checking its signature; only the algorithm and the key id are kept. The
/// decoding itself is named, not stated.
#[verifier::external_body]
fn decode_header_parts(token: &str) -> (r: Option<(JwtAlgorithm, Option<String>)>)
    ensures
        match jwt_header(token@) {
            Some(h) => r matches Some(p) && p.0 == h.0 && opt_view(p.1) == h.1,
            None => r is None,
        },
{
    let header = jsonwebtoken::decode_header(token).ok()?;
    let alg = match header.alg {
        Alg::HS256 => JwtAlgorithm::HS256, Alg::HS384 => JwtAlgorithm::HS384,
        Alg::HS512 => JwtAlgorithm::HS512, Alg::ES256 => JwtAlgorithm::ES256,
        Alg::ES384 => JwtAlgorithm::ES384, Alg::RS256 => JwtAlgorithm::RS256,
        Alg::RS384 => JwtAlgorithm::RS384, Alg::RS512 => JwtAlgorithm::RS512,
        Alg::PS256 => JwtAlgorithm::PS256, Alg::PS384 => JwtAlgorithm::PS384,
        Alg::PS512 => JwtAlgorithm::PS512, Alg::EdDSA => JwtAlgorithm::EdDSA,
    };
    Some((alg, header.kid))
}

/// The key id of a token that may be verified: its header must decode, name
/// RS256 and carry a key id; anything else is an invalid token.
pub fn token_key_id(token: &str) -> (r: Result<String, ApiError>)
    ensures
        match jwt_header(token@) {
            Some(h) if h.0 == JwtAlgorithm::RS256 && h.1 is Some => r matches Ok(k) && k@ == h.1.unwrap(),
            _ => r == Err::<String, ApiError>(
                api_error(401, "invalid_token", "Your sign-in has expired. Sign in again."),
            ),
        },
{
    match decode_header_parts(token) {
        Some((alg, kid)) => {
            if alg != JwtAlgorithm::RS256 {
                return Err(invalid_token());
            }
            match kid {
                Some(k) => Ok(k),
                None => Err(invalid_token()),
            }
        },
        None => Err(invalid_token()),
    }
}

/// Accepts the verified claims of a token only for the configured tenant
/// and a non-empty owner id.
pub fn accept_claims(claims: StaffClaims, settings: &AuthSettings) -> (r: Result<StaffClaims, ApiError>)
    ensures
        r == (if claims.tid@ != settings.tenant_id@ || claims.oid@.len() == 0 {
            Err(api_error(401, "invalid_token", "Your sign-in has expired. Sign in again."))
        } else {
            Ok(claims)
        }),
{
    let tid = chars_of(claims.tid.as_str());
    let tenant = chars_of(settings.tenant_id.as_str());
    let oid = chars_of(claims.oid.as_str());
    if !chars_eq(&tid, &tenant) || oid.len() == 0 {
        return Err(invalid_token());
    }
    Ok(claims)
}

/// Whether cached signing keys fetched `age_secs` ago may still be used.
pub fn keys_fresh(age_secs: u64) -> (r: bool)
    ensures
        r == (age_secs < KEY_CACHE_SECS),
{
    age_secs < KEY_CACHE_SECS
}

/// Whether a published key of type `kty` can verify staff tokens: only RSA keys can.
pub fn is_rsa_key(kty: &str) -> (r: bool)
    ensures
        r == (kty@ == "RSA"@),
{
    chars_eq(&chars_of(kty), &chars_of("RSA"))
}

/// Whether jsonwebtoken's `DecodingKey::from_rsa_components` accepts the RSA
/// modulus `n` and exponent `e`, that is, whether both read as unpadded
/// URL-safe base64.
pub uninterp spec fn rsa_components_readable(n: Seq<char>, e: Seq<char>) -> bool;

/// Tries to build an RSA verifying key from the components `n` and `e` with
/// jsonwebtoken's `DecodingKey::from_rsa_components`. Stated: whether it
/// succeeds, as `rsa_components_readable` names it for the same arguments.
#[verifier::external_body]
fn rsa_components_ok(n: &str, e: &str) -> (r: bool)
    ensures
        r == rsa_components_readable(n@, e@),
{
    DecodingKey::from_rsa_components(n, e).is_ok()
}

/// A published key `(kty, kid, n, e)` that can verify staff tokens: an RSA
/// key whose components jsonwebtoken reads.
pub open spec fn usable_key(key: (Seq<char>, Seq<char>, Seq<char>, Seq<char>)) -> bool {
    key.0 == "RSA"@ && rsa_components_readable(key.2, key.3)
}

/// The published keys `(kty, kid, n, e)` of `jwks` that can verify staff
/// tokens, as `(kid, n, e)`, in the order they were published.
pub open spec fn usable_keys_of(jwks: Seq<(Seq<char>, Seq<char>, Seq<char>, Seq<char>)>) -> Seq<
    (Seq<char>, Seq<char>, Seq<char>),
>
    decreases jwks.len(),
{
    if jwks.len() == 0 {
        seq![]
    } else {
        let rest = usable_keys_of(jwks.drop_last());
        let k = jwks.last();
        if usable_key(k) {
            rest.push((k.1, k.2, k.3))
        } else {
            rest
        }
    }
}

/// The text of each published key `(kty, kid, n, e)`.
pub open spec fn jwks_view(jwks: Seq<(String, String, String, String)>) -> Seq<
    (Seq<char>, Seq<char>, Seq<char>, Seq<char>),
> {
    Seq::new(jwks.len(), |i: int| (jwks[i].0@, jwks[i].1@, jwks[i].2@, jwks[i].3@))
}

/// The text of each signing key `(kid, n, e)`.
pub open spec fn keys_view(keys: Seq<(String, String, String)>) -> Seq<(Seq<char>, Seq<char>, Seq<char>)> {
    Seq::new(keys.len(), |i: int| (keys[i].0@, keys[i].1@, keys[i].2@))
}

/// The signing keys of a fetched key set, each given as `(kty, kid, n, e)`:
/// the RSA keys whose components jsonwebtoken reads, as `(kid, n, e)`, in
/// published order.
pub fn usable_keys(jwks: &Vec<(String, String, String, String)>) -> (r: Vec<(String, String, String)>)
    ensures
        keys_view(r@) == usable_keys_of(jwks_view(jwks@)),
{
    let mut out: Vec<(String, String, String)> = Vec::new();
    let mut i: usize = 0;
    while i < jwks.len()
        invariant
            i <= jwks@.len(),
            keys_view(out@) == usable_keys_of(jwks_view(jwks@).take(i as int)),
        decreases jwks@.len() - i,
    {
        let ghost before = out@;
        let (kty, kid, n, e) = &jwks[i];
        proof {
            let v = jwks_view(jwks@);
            assert(v.take(i + 1).drop_last() =~= v.take(i as int));
            assert(v.take(i + 1).last() == v[i as int]);
        }
        if is_rsa_key(kty.as_str()) && rsa_components_ok(n.as_str(), e.as_str()) {
            out.push((kid.clone(), n.clone(), e.clone()));
            proof {
                assert(keys_view(out@) =~= keys_view(before).push((kid@, n@, e@)));
            }
        }
        i = i + 1;
    }
    proof {
        assert(jwks_view(jwks@).take(jwks@.len() as int) =~= jwks_view(jwks@));
    }
    out
}

/// The claims of a token's payload, each by name with its text, or `None`
/// where the value is not text.
pub open spec fn claims_view(pairs: Seq<(String, Option<String>)>) -> Seq<(Seq<char>, Option<Seq<char>>)> {
    Seq::new(pairs.len(), |i: int| (pairs[i].0@, opt_view(pairs[i].1)))
}

/// Claim `name` among `pairs`: `None` when absent, `Some(None)` when its
/// value is not text, the first one where the name repeats.
pub open spec fn claim_of(pairs: Seq<(Seq<char>, Option<Seq<char>>)>, name: Seq<char>) -> Option<
    Option<Seq<char>>,
>
    decreases pairs.len(),
{
    if pairs.len() == 0 {
        None
    } else if pairs[0].0 == name {
        Some(pairs[0].1)
    } else {
        claim_of(pairs.drop_first(), name)
    }
}

/// A claim that must be text.
pub open spec fn required_text(c: Option<Option<Seq<char>>>) -> Option<Seq<char>> {
    match c {
        Some(Some(s)) => Some(s),
        _ => None,
    }
}

/// A claim that may be absent (then empty) but, when present, must be text.
pub open spec fn optional_text(c: Option<Option<Seq<char>>>) -> Option<Seq<char>> {
    match c {
        None => Some(seq![]),
        Some(Some(s)) => Some(s),
        Some(None) => None,
    }
}

/// The e-mail claim: `email`, or else `preferred_username`; a payload that
/// carries both is refused.
pub open spec fn email_claim(pairs: Seq<(Seq<char>, Option<Seq<char>>)>) -> Option<Seq<char>> {
    let e = claim_of(pairs, "email"@);
    let p = claim_of(pairs, "preferred_username"@);
    if e is Some && p is Some {
        None
    } else if e is Some {
        optional_text(e)
    } else {
        optional_text(p)
    }
}

/// The staff claims of a payload: `oid` and `tid` as text, `name` empty
/// when absent, and the e-mail claim; `None` when any of them is refused.
pub open spec fn claims_from(pairs: Seq<(Seq<char>, Option<Seq<char>>)>) -> Option<
    (Seq<char>, Seq<char>, Seq<char>, Seq<char>),
> {
    match (
        required_text(claim_of(pairs, "oid"@)),
        required_text(claim_of(pairs, "tid"@)),
        optional_text(claim_of(pairs, "name"@)),
        email_claim(pairs),
    ) {
        (Some(o), Some(t), Some(n), Some(e)) => Some((o, t, n, e)),
        _ => None,
    }
}

/// Claim `name` among `pairs`, as `claim_of` reads it.
fn find_claim(pairs: &Vec<(String, Option<String>)>, name: &str) -> (r: Option<Option<String>>)
    ensures
        match claim_of(claims_view(pairs@), name@) {
            None => r is None,
            Some(v) => r matches Some(x) && opt_view(x) == v,
        },
{
    let ghost all = claims_view(pairs@);
    let mut i: usize = 0;
    assert(all.skip(0) =~= all);
    while i < pairs.len()
        invariant
            i <= pairs@.len(),
            all == claims_view(pairs@),
            claim_of(all, name@) == claim_of(all.skip(i as int), name@),
        decreases pairs@.len() - i,
    {
        assert(all.skip(i as int)[0] == (pairs@[i as int].0@, opt_view(pairs@[i as int].1)));
        if str_eq(pairs[i].0.as_str(), name) {
            return match &pairs[i].1 {
                Some(s) => Some(Some(s.clone())),
                None => Some(None),
            };
        }
        assert(all.skip(i as int).drop_first() =~= all.skip(i + 1));
        i = i + 1;
    }
    None
}

/// A claim that may be absent but must be text when present.
fn optional_claim(c: Option<Option<String>>) -> (r: Option<String>)
    ensures
        opt_view(r) == optional_text(
            match c {
                Some(v) => Some(opt_view(v)),
                None => None,
            },
        ),
{
    match c {
        None => Some(String::new()),
        Some(v) => v,
    }
}

/// The staff claims that a decoded payload carries: `oid` and `tid` must be
/// text; `name` is empty when absent; the e-mail comes from `email` or else
/// `preferred_username`, empty when neither is there; a claim present with
/// a value that is not text, or both e-mail claims at once, refuses it.
pub fn staff_claims_of(pairs: &Vec<(String, Option<String>)>) -> (r: Option<StaffClaims>)
    ensures
        match claims_from(claims_view(pairs@)) {
            Some(c) => r matches Some(x) && x.oid@ == c.0 && x.tid@ == c.1 && x.name@ == c.2
                && x.email@ == c.3,
            None => r is None,
        },
{
    let oid = match find_claim(pairs, "oid") {
        Some(Some(s)) => s,
        _ => return None,
    };
    let tid = match find_claim(pairs, "tid") {
        Some(Some(s)) => s,
        _ => return None,
    };
    let name = optional_claim(find_claim(pairs, "name"))?;
    let e = find_claim(pairs, "email");
    let p = find_claim(pairs, "preferred_username");
    let email = if e.is_some() && p.is_some() {
        return None;
    } else if e.is_some() {
        optional_claim(e)?
    } else {
        optional_claim(p)?
    };
    Some(StaffClaims { oid, tid, name, email })
}

/// The published key `(n, e)` named `kid` in `keys`; where the name repeats,
/// the last one listed stands, as when the keys are collected by name.
pub open spec fn key_of(keys: Seq<(String, String, String)>, kid: Seq<char>) -> Option<(Seq<char>, Seq<char>)>
    decreases keys.len(),
{
    if keys.len() == 0 {
        None
    } else if keys.last().0@ == kid {
        Some((keys.last().1@, keys.last().2@))
    } else {
        key_of(keys.drop_last(), kid)
    }
}

/// The RSA components of the published key named `kid`, as `key_of` finds them.
pub fn signing_key(keys: &Vec<(String, String, String)>, kid: &str) -> (r: Option<(String, String)>)
    ensures
        match key_of(keys@, kid@) {
            None => r is None,
            Some(k) => r matches Some(x) && x.0@ == k.0 && x.1@ == k.1,
        },
{
    let mut i: usize = keys.len();
    assert(keys@.take(i as int) =~= keys@);
    while i > 0
        invariant
            i <= keys@.len(),
            key_of(keys@, kid@) == key_of(keys@.take(i as int), kid@),
        decreases i,
    {
        assert(keys@.take(i as int).last() == keys@[i - 1]);
        if str_eq(keys[i - 1].0.as_str(), kid) {
            return Some((keys[i - 1].1.clone(), keys[i - 1].2.clone()));
        }
        assert(keys@.take(i as int).drop_last() =~= keys@.take(i - 1));
        i = i - 1;
    }
    None
}

/// The claims that jsonwebtoken's `decode` reads from `token` with the RSA
/// key made from the components `n` and `e`, under an RS256 validation that
/// names `audience` and `issuer`, where no time is compared with the clock
/// (an `exp` claim is still required): the payload's claims in the order the
/// decoded JSON object lists them, each with its text or `None` where the
/// value is not text; `None` where the key, the signature, the header or a
/// checked claim is refused.
pub uninterp spec fn jwt_payload(
    token: Seq<char>,
    n: Seq<char>,
    e: Seq<char>,
    audience: Seq<char>,
    issuer: Seq<char>,
) -> Option<Seq<(Seq<char>, Option<Seq<char>>)>>;

/// Checks a token with the RSA key `(n, e)` through jsonwebtoken's `decode`,
/// with an RS256 validation that names `audience` and `issuer` and checks
/// the not-before time as well as the expiry against the system clock, and
/// gives the payload's claims, each with its text or `None` where the value
/// is not text. The payload is read into a JSON object, which keeps one
/// value for a claim that the token repeats.
///
/// Stated: a token it accepts gives the claims that `jwt_payload` names for
/// the same arguments, and one that `jwt_payload` refuses is refused here
/// too, since the clock checks only add refusals; its header then names
/// RS256, the one algorithm the validation allows. Whether a token is inside
/// its time window rests on the clock and is not stated.
#[verifier::external_body]
fn decode_verified_claims(token: &str, n: &str, e: &str, audience: &str, issuer: &str) -> (r: Option<
    Vec<(String, Option<String>)>,
>)
    ensures
        r matches Some(p) ==> jwt_payload(token@, n@, e@, audience@, issuer@) == Some(
            claims_view(p@),
        ),
        jwt_payload(token@, n@, e@, audience@, issuer@) is None ==> r is None,
        r is Some ==> (jwt_header(token@) matches Some(h) && h.0 == JwtAlgorithm::RS256),
{
    let key = DecodingKey::from_rsa_components(n, e).ok()?;
    let mut validation = Validation::new(Alg::RS256);
    validation.set_audience(&[audience]);
    validation.set_issuer(&[issuer]);
    validation.validate_nbf = true;
    let payload = decode::<serde_json::Map<String, Value>>(token, &key, &validation).ok()?.claims;
    Some(payload.into_iter().map(|(k, v)| (k, match v {
        Value::String(s) => Some(s),
        _ => None,
    })).collect())
}

/// What a token comes to once its signature and standard claims were
/// checked: `decoded` is the payload when they passed. The payload must
/// carry the staff claims, name the configured tenant and a non-empty owner.
pub open spec fn decoded_result(
    decoded: Option<Seq<(Seq<char>, Option<Seq<char>>)>>,
    tenant: Seq<char>,
) -> Option<(Seq<char>, Seq<char>, Seq<char>, Seq<char>)> {
    match decoded {
        None => None,
        Some(p) => match claims_from(p) {
            None => None,
            Some(c) => if c.1 != tenant || c.0.len() == 0 {
                None
            } else {
                Some(c)
            },
        },
    }
}

/// The staff claims that a checked token gives, or `invalid_token`.
pub fn claims_from_decoded(decoded: Option<Vec<(String, Option<String>)>>, settings: &AuthSettings) -> (r:
    Result<StaffClaims, ApiError>)
    ensures
        match decoded_result(
            match decoded {
                Some(p) => Some(claims_view(p@)),
                None => None,
            },
            settings.tenant_id@,
        ) {
            Some(c) => r matches Ok(x) && x.oid@ == c.0 && x.tid@ == c.1 && x.name@ == c.2
                && x.email@ == c.3,
            None => r == Err::<StaffClaims, ApiError>(
                api_error(401, "invalid_token", "Your sign-in has expired. Sign in again."),
            ),
        },
{
    let pairs = match decoded {
        Some(p) => p,
        None => return Err(invalid_token()),
    };
    match staff_claims_of(&pairs) {
        Some(claims) => accept_claims(claims, settings),
        None => Err(invalid_token()),
    }
}

/// The last part of verifying a signed staff token whose header names key
/// `kid`: the key must be among the published `keys`; the token must pass
/// its signature, audience (the configured client), `issuer`, expiry and
/// not-before checks; and its claims must name the configured tenant and an
/// owner. Anything else is `invalid_token`.
pub fn finish_signed_token(
    token: &str,
    kid: &str,
    keys: &Vec<(String, String, String)>,
    settings: &AuthSettings,
    issuer: &str,
) -> (r: Result<StaffClaims, ApiError>)
    ensures
        key_of(keys@, kid@) is None ==> r == Err::<StaffClaims, ApiError>(
            api_error(401, "invalid_token", "Your sign-in has expired. Sign in again."),
        ),
        r is Err ==> r == Err::<StaffClaims, ApiError>(
            api_error(401, "invalid_token", "Your sign-in has expired. Sign in again."),
        ),
        r matches Ok(c) ==> {
            &&& key_of(keys@, kid@) matches Some(k) && decoded_result(
                jwt_payload(token@, k.0, k.1, settings.client_id@, issuer@),
                settings.tenant_id@,
            ) == Some((c.oid@, c.tid@, c.name@, c.email@))
            &&& jwt_header(token@) matches Some(h) && h.0 == JwtAlgorithm::RS256
            &&& c.tid@ == settings.tenant_id@
            &&& c.oid@.len() > 0
        },
        (key_of(keys@, kid@) matches Some(k) && decoded_result(
            jwt_payload(token@, k.0, k.1, settings.client_id@, issuer@),
            settings.tenant_id@,
        ) is None) ==> r is Err,
{
    let (n, e) = match signing_key(keys, kid) {
        Some(k) => k,
        None => return Err(invalid_token()),
    };
    let decoded = decode_verified_claims(
        token,
        n.as_str(),
        e.as_str(),
        settings.client_id.as_str(),
        issuer,
    );
    claims_from_decoded(decoded, settings)
}

/// What verifying a staff request needs next.
#[derive(Clone, Debug)]
pub enum TokenStep {
    /// A local test token, accepted with these claims.
    Accepted(StaffClaims),
    /// A signed token: its signature and claims must be checked with the
    /// published key `kid`.
    CheckSignature { token: String, kid: String },
}

/// The first part of verifying a staff request: the bearer token must be
/// there; a local test token is accepted as it stands; any other token must
/// name RS256 and a key id in its header, whose key then checks it.
pub fn staff_token_step(headers: &RequestHeaders, settings: &AuthSettings) -> (r: Result<
    TokenStep,
    ApiError,
>)
    ensures
        match bearer_text(opt_view(headers.authorization)) {
            None => r == Err::<TokenStep, ApiError>(
                api_error(
                    401,
                    "not_authorized",
                    "Sign in with your Sociobot account to open this workspace.",
                ),
            ),
            Some(t) => match test_token_oid(t, settings.accept_test_tokens) {
                Some(oid) => r matches Ok(TokenStep::Accepted(c)) && c.oid@ == oid && c.tid@
                    == settings.tenant_id@ && c.name@ == "Owner "@ + oid && c.email@ == oid
                    + "@example.test"@,
                None => match jwt_header(t) {
                    Some(h) if h.0 == JwtAlgorithm::RS256 && h.1 is Some => r matches Ok(
                        TokenStep::CheckSignature { token, kid },
                    ) && token@ == t && kid@ == h.1.unwrap(),
                    _ => r == Err::<TokenStep, ApiError>(
                        api_error(401, "invalid_token", "Your sign-in has expired. Sign in again."),
                    ),
                },
            },
        },
{
    let token = bearer_credentials(headers)?;
    if let Some(claims) = test_claims(token.as_str(), settings) {
        return Ok(TokenStep::Accepted(claims));
    }
    let kid = token_key_id(token.as_str())?;
    Ok(TokenStep::CheckSignature { token, kid })
}

} // verus!
