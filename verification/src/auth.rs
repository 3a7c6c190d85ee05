use vstd::prelude::*;
use vstd::utf8::encode_utf8;

use crate::chat::join_spec;
use crate::crypto::{b64_standard_encode, b64url_encode, base64_spec};
use crate::text::{chars_of, is_prefix, starts_with, str_eq, string_of, suffix_from, trim, trim_spec};

verus! {

/// JWT claims of access and refresh tokens.
pub struct Claims {
    pub sub: String,
    pub iat: i64,
    pub exp: i64,
    pub token_type: String,
}

// ---------------------------------------------------------------------------
// Token lifetimes
// ---------------------------------------------------------------------------

/// Seconds in an hour and in a day.
pub open spec fn hour_seconds() -> int {
    3600
}

pub open spec fn day_seconds() -> int {
    86400
}

/// Token lifetimes that can be computed: the hour count is one a
/// millisecond duration can hold, and both expiry times fit an `i64`.
pub open spec fn expiries_fit(now: i64, expiry_hours: i64, refresh_days: i64) -> bool {
    &&& -2_562_047_788_015 <= expiry_hours <= 2_562_047_788_015
    &&& i64::MIN <= now + expiry_hours * hour_seconds() <= i64::MAX
    &&& i64::MIN <= refresh_days * day_seconds() <= i64::MAX
    &&& i64::MIN <= now + refresh_days * day_seconds() <= i64::MAX
}

/// Whether tokens issued at `now` with these lifetimes can be given expiry
/// times at all.
pub fn token_lifetimes_fit(now: i64, expiry_hours: i64, refresh_days: i64) -> (r: bool)
    ensures
        r == expiries_fit(now, expiry_hours, refresh_days),
{
    if expiry_hours < -2_562_047_788_015 || expiry_hours > 2_562_047_788_015 {
        return false;
    }
    let access = (now as i128) + (expiry_hours as i128) * 3600;
    let span = (refresh_days as i128) * 86400;
    let refresh = (now as i128) + span;
    let lo = i64::MIN as i128;
    let hi = i64::MAX as i128;
    lo <= access && access <= hi && lo <= span && span <= hi && lo <= refresh && refresh <= hi
}

/// Expiry times (seconds since the epoch) of the access and refresh tokens
/// issued at `now`.
pub fn token_expiries(now: i64, expiry_hours: i64, refresh_days: i64) -> (r: (i64, i64))
    requires
        expiries_fit(now, expiry_hours, refresh_days),
    ensures
        r.0 == now + expiry_hours * hour_seconds(),
        r.1 == now + refresh_days * day_seconds(),
{
    let access = now + expiry_hours * 3600;
    let refresh = now + refresh_days * 24 * 60 * 60;
    (access, refresh)
}

// ---------------------------------------------------------------------------
// Token checks
// ---------------------------------------------------------------------------

/// What `uuid::Uuid::parse_str` reads a text as, as a 128-bit number.
pub uninterp spec fn spec_uuid_parse(s: Seq<char>) -> Option<u128>;

/// Reads a UUID through `uuid::Uuid::parse_str` and returns its 128-bit
/// value (`Uuid::as_u128`). Claimed: the result is `spec_uuid_parse`.
#[verifier::external_body]
pub(crate) fn parse_uuid(s: &str) -> (r: Option<u128>)
    ensures
        r == spec_uuid_parse(s@),
{
    match uuid::Uuid::parse_str(s) {
        Ok(u) => Some(u.as_u128()),
        Err(_) => None,
    }
}

/// Why a bearer or refresh token is refused.
#[derive(Debug, Clone, Copy, PartialEq, Eq, Structural)]
pub enum AuthRejection {
    /// No `Authorization: Bearer ...` header came with the request.
    MissingToken,
    /// The token does not decode, its signature or header is wrong, or it
    /// expired more than the leeway ago.
    InvalidToken,
    /// An access token was expected and another kind came, or the reverse.
    WrongTokenType,
    /// The subject is not a streamer id.
    InvalidSubject,
}

/// The claims as plain values: subject, issued-at, expiry, token type.
pub open spec fn claims_view(c: Claims) -> (Seq<char>, i64, i64, Seq<char>) {
    (c.sub@, c.iat, c.exp, c.token_type@)
}

pub open spec fn claims_opt_view(c: Option<Claims>) -> Option<(Seq<char>, i64, i64, Seq<char>)> {
    match c {
        Some(c) => Some(claims_view(c)),
        None => None,
    }
}

/// What `jsonwebtoken::decode` yields for a token and an HMAC secret, with
/// HS256 as the only algorithm and the expiry left unchecked: the claims of a
/// well-formed token whose signature matches, or `None`.
pub uninterp spec fn spec_jwt_hs256_decode(token: Seq<char>, secret: Seq<u8>) -> Option<(Seq<char>, i64, i64, Seq<char>)>;

/// What `jsonwebtoken::decode`, as `jwt_hs256_decode` runs it, reads from a
/// token's claims part (the JSON bytes) once the header and signature check
/// out: the claims, or `None` when the JSON lacks them or breaks the crate's
/// claim rules (`exp` required as an unsigned number, no `aud`).
pub uninterp spec fn spec_jwt_payload_claims(claims_json: Seq<u8>) -> Option<(Seq<char>, i64, i64, Seq<char>)>;

/// Decodes a token through `jsonwebtoken::decode` with an HS256 key made by
/// `DecodingKey::from_secret`, the default validation but for the expiry,
/// which the caller checks against its own clock. The claims come back as a
/// JSON object and are read field by field; a missing or mistyped field gives
/// `None`, as decoding into typed claims fails. Claimed: the result is
/// `spec_jwt_hs256_decode` of the token and the secret; a decoded token ends
/// in the HS256 signature of what precedes its last dot (the crate compares
/// the two); and a token with the header `sign_token` writes and a matching
/// signature gives what `spec_jwt_payload_claims` reads from its claims part.
/// Which claims parts pass the crate's rules is left to the names.
#[verifier::external_body]
fn jwt_hs256_decode(token: &str, secret: &[u8]) -> (r: Option<Claims>)
    ensures
        claims_opt_view(r) == spec_jwt_hs256_decode(token@, secret@),
        // The crate checks the last part against the HS256 signature of the rest.
        r is Some ==> exists|m: Seq<char>|
            token@ == m + "."@ + #[trigger] spec_hs256_sign(encode_utf8(m), secret@),
        // A token framed and signed as `sign_token` does, with this secret,
        // yields what its claims part holds.
        forall|claims_json: Seq<u8>|
            #[trigger] signed_token_spec(claims_json, secret@) == token@ ==> claims_opt_view(r)
                == spec_jwt_payload_claims(claims_json),
{
    let mut rules = jsonwebtoken::Validation::new(jsonwebtoken::Algorithm::HS256);
    rules.validate_exp = false;
    let key = jsonwebtoken::DecodingKey::from_secret(secret);
    let v = jsonwebtoken::decode::<serde_json::Value>(token, &key, &rules).ok()?.claims;
    Some(Claims {
        sub: v.get("sub")?.as_str()?.to_string(),
        iat: v.get("iat")?.as_i64()?,
        exp: v.get("exp")?.as_i64()?,
        token_type: v.get("token_type")?.as_str()?.to_string(),
    })
}

/// Seconds by which a token may be past its expiry and still pass.
pub open spec fn leeway_seconds() -> int {
    60
}

/// The outcome of checking decoded claims at time `now` (seconds) for a
/// token of the `expected` type.
pub open spec fn token_check_spec(
    decoded: Option<(Seq<char>, i64, i64, Seq<char>)>,
    now: int,
    expected: Seq<char>,
) -> Result<u128, AuthRejection> {
    match decoded {
        None => Err(AuthRejection::InvalidToken),
        Some(c) => {
            if c.2 < now - leeway_seconds() {
                Err(AuthRejection::InvalidToken)
            } else if c.3 != expected {
                Err(AuthRejection::WrongTokenType)
            } else {
                match spec_uuid_parse(c.0) {
                    Some(id) => Ok(id),
                    None => Err(AuthRejection::InvalidSubject),
                }
            }
        },
    }
}

/// The streamer that decoded claims authenticate at `now`: refused when
/// nothing decoded or the token expired more than the leeway ago, then when
/// the token is of another type, then when the subject is no streamer id.
pub fn claims_subject(decoded: Option<Claims>, now: i64, expected: &str) -> (r: Result<u128, AuthRejection>)
    ensures
        r == token_check_spec(claims_opt_view(decoded), now as int, expected@),
{
    let c = match decoded {
        Some(c) => c,
        None => return Err(AuthRejection::InvalidToken),
    };
    if (c.exp as i128) < (now as i128) - 60 {
        return Err(AuthRejection::InvalidToken);
    }
    if !str_eq(c.token_type.as_str(), expected) {
        return Err(AuthRejection::WrongTokenType);
    }
    match parse_uuid(c.sub.as_str()) {
        Some(id) => Ok(id),
        None => Err(AuthRejection::InvalidSubject),
    }
}

/// The streamer a signed token authenticates at `now`, for a token of the
/// `expected` type ("access" or "refresh").
pub fn token_subject(token: &str, secret: &[u8], now: i64, expected: &str) -> (r: Result<u128, AuthRejection>)
    ensures
        r == token_check_spec(spec_jwt_hs256_decode(token@, secret@), now as int, expected@),
        // A token not signed with this secret is refused.
        !(exists|m: Seq<char>| token@ == m + "."@ + #[trigger] spec_hs256_sign(encode_utf8(m), secret@))
            ==> r == Err::<u128, AuthRejection>(AuthRejection::InvalidToken),
        // A token issued by `sign_token` with this secret is checked on its own claims.
        forall|claims_json: Seq<u8>|
            #[trigger] signed_token_spec(claims_json, secret@) == token@ ==> r == token_check_spec(
                spec_jwt_payload_claims(claims_json),
                now as int,
                expected@,
            ),
{
    let decoded = jwt_hs256_decode(token, secret);
    claims_subject(decoded, now, expected)
}

/// The token an `Authorization` header carries: what follows `Bearer `.
pub open spec fn bearer_token_spec(header: Option<Seq<char>>) -> Option<Seq<char>> {
    match header {
        Some(h) => if is_prefix("Bearer "@, h) {
            Some(h.skip(7))
        } else {
            None
        },
        None => None,
    }
}

pub open spec fn opt_str_view(s: Option<&str>) -> Option<Seq<char>> {
    match s {
        Some(s) => Some(s@),
        None => None,
    }
}

pub open spec fn bearer_check_spec(
    header: Option<Seq<char>>,
    secret: Seq<u8>,
    now: int,
    expected: Seq<char>,
) -> Result<u128, AuthRejection> {
    match bearer_token_spec(header) {
        None => Err(AuthRejection::MissingToken),
        Some(t) => token_check_spec(spec_jwt_hs256_decode(t, secret), now, expected),
    }
}

/// The streamer a request's `Authorization` header authenticates: the
/// header must hold `Bearer ` and a token, which is then checked as by
/// `token_subject`.
pub fn bearer_subject(authorization: Option<&str>, secret: &[u8], now: i64, expected: &str) -> (r: Result<
    u128,
    AuthRejection,
>)
    ensures
        r == bearer_check_spec(opt_str_view(authorization), secret@, now as int, expected@),
{
    proof {
        reveal_strlit("Bearer ");
    }
    let header = match authorization {
        Some(h) => h,
        None => return Err(AuthRejection::MissingToken),
    };
    let cs = chars_of(header);
    let prefix = chars_of("Bearer ");
    if !starts_with(cs.as_slice(), prefix.as_slice()) {
        return Err(AuthRejection::MissingToken);
    }
    let rest = suffix_from(cs.as_slice(), 7);
    let token = string_of(rest.as_slice());
    proof {
        assert(token@ == header@.skip(7));
    }
    token_subject(token.as_str(), secret, now, expected)
}

/// The JOSE header of every token issued: a JWT signed with HS256.
pub open spec fn jwt_header_json() -> Seq<char> {
    "{\"typ\":\"JWT\",\"alg\":\"HS256\"}"@
}

/// What `jsonwebtoken::crypto::sign` returns for a message and an HMAC
/// secret with HS256: the unpadded URL-safe base64 of the HMAC-SHA256 tag.
pub uninterp spec fn spec_hs256_sign(message: Seq<u8>, secret: Seq<u8>) -> Seq<char>;

/// Signs bytes through `jsonwebtoken::crypto::sign` with HS256 and a key
/// made by `EncodingKey::from_secret`. Claimed: the call succeeds (its HS256
/// branch always returns `Ok`) and the signature is `spec_hs256_sign`.
#[verifier::external_body]
fn hs256_sign(message: &[u8], secret: &[u8]) -> (r: Option<String>)
    ensures
        r is Some,
        r is Some ==> r.unwrap()@ == spec_hs256_sign(message@, secret@),
{
    let key = jsonwebtoken::EncodingKey::from_secret(secret);
    jsonwebtoken::crypto::sign(message, &key, jsonwebtoken::Algorithm::HS256).ok()
}

/// The header and claims parts of a token, joined by a dot.
pub open spec fn signing_input_spec(claims_json: Seq<u8>) -> Seq<char> {
    base64_spec(encode_utf8(jwt_header_json()), true, false) + "."@ + base64_spec(claims_json, true, false)
}

/// A token for claims given as JSON: the signing input, a dot, and its
/// HS256 signature.
pub open spec fn signed_token_spec(claims_json: Seq<u8>, secret: Seq<u8>) -> Seq<char> {
    signing_input_spec(claims_json) + "."@ + spec_hs256_sign(encode_utf8(signing_input_spec(claims_json)), secret)
}

/// Issues a token for claims serialised as JSON: header and claims in
/// unpadded URL-safe base64, joined by dots, then the HS256 signature.
pub fn sign_token(claims_json: &[u8], secret: &[u8]) -> (r: String)
    ensures
        r@ == signed_token_spec(claims_json@, secret@),
{
    let header = b64url_encode("{\"typ\":\"JWT\",\"alg\":\"HS256\"}".as_bytes());
    let claims = b64url_encode(claims_json);
    let message = header.concat(".");
    let message = message.concat(claims.as_str());
    let signature = hs256_sign(message.as_str().as_bytes(), secret).unwrap();
    let token = message.concat(".");
    token.concat(signature.as_str())
}

/// An access token never passes as a refresh token, nor the reverse.
pub proof fn law_token_kinds_are_distinct(sub: Seq<char>, iat: i64, exp: i64, now: int)
    requires
        exp >= now - leeway_seconds(),
    ensures
        token_check_spec(Some((sub, iat, exp, "access"@)), now, "refresh"@) == Err::<u128, AuthRejection>(
            AuthRejection::WrongTokenType,
        ),
        token_check_spec(Some((sub, iat, exp, "refresh"@)), now, "access"@) == Err::<u128, AuthRejection>(
            AuthRejection::WrongTokenType,
        ),
{
    reveal_strlit("access");
    reveal_strlit("refresh");
    assert("access"@[0] != "refresh"@[0]);
}

/// A token that decoded is refused as expired exactly when its expiry lies
/// more than the leeway before `now`, whatever its type and subject.
pub proof fn law_expiry_with_leeway(c: (Seq<char>, i64, i64, Seq<char>), now: int, expected: Seq<char>)
    ensures
        (token_check_spec(Some(c), now, expected) == Err::<u128, AuthRejection>(AuthRejection::InvalidToken))
            <==> c.2 < now - leeway_seconds(),
{
}

// ---------------------------------------------------------------------------
// OAuth flows
// ---------------------------------------------------------------------------

/// Bytes `urlencoding` leaves as they are.
pub open spec fn unreserved(b: u8) -> bool {
    (48 <= b <= 57) || (65 <= b <= 90) || (97 <= b <= 122) || b == 45 || b == 46 || b == 95 || b
        == 126
}

pub open spec fn hex_upper(v: int) -> char {
    if v < 10 {
        (48 + v) as char
    } else {
        (65 + v - 10) as char
    }
}

/// Percent-encoding of bytes: unreserved bytes stay, every other byte
/// becomes `%` and two uppercase hex digits.
pub open spec fn percent_encode_spec(b: Seq<u8>) -> Seq<char>
    decreases b.len(),
{
    if b.len() == 0 {
        Seq::empty()
    } else {
        (if unreserved(b[0]) {
            seq![b[0] as char]
        } else {
            seq!['%', hex_upper(b[0] as int / 16), hex_upper(b[0] as int % 16)]
        }) + percent_encode_spec(b.drop_first())
    }
}

/// Percent-encodes text through `urlencoding::encode`. Claimed: the UTF-8
/// bytes of the text, percent-encoded as `percent_encode_spec` states.
#[verifier::external_body]
pub(crate) fn url_encode(s: &str) -> (r: String)
    ensures
        r@ == percent_encode_spec(encode_utf8(s@)),
{
    urlencoding::encode(s).into_owned()
}

pub open spec fn url_encode_spec(s: Seq<char>) -> Seq<char> {
    percent_encode_spec(encode_utf8(s))
}

/// The provider's authorization URL that starts an OAuth flow.
pub open spec fn authorize_url_spec(
    base: Seq<char>,
    client_id: Seq<char>,
    redirect_uri: Seq<char>,
    scopes: Seq<Seq<char>>,
    state: Seq<char>,
) -> Seq<char> {
    base + "?response_type=code&client_id="@ + url_encode_spec(client_id) + "&redirect_uri="@
        + url_encode_spec(redirect_uri) + "&scope="@ + url_encode_spec(join_spec(scopes, " "@))
        + "&state="@ + url_encode_spec(state)
}

/// Builds the authorization URL of an OAuth flow: client id, redirect URI,
/// space-separated scopes and the CSRF state, each percent-encoded.
pub fn authorize_url(
    base: &str,
    client_id: &str,
    redirect_uri: &str,
    scopes: &Vec<String>,
    state: &str,
) -> (r: String)
    ensures
        r@ == authorize_url_spec(
            base@,
            client_id@,
            redirect_uri@,
            scopes@.map_values(|s: String| s@),
            state@,
        ),
{
    let scope_str = crate::chat::join_args(scopes);
    let s = String::from_str(base);
    let s = s.concat("?response_type=code&client_id=");
    let s = s.concat(url_encode(client_id).as_str());
    let s = s.concat("&redirect_uri=");
    let s = s.concat(url_encode(redirect_uri).as_str());
    let s = s.concat("&scope=");
    let s = s.concat(url_encode(scope_str.as_str()).as_str());
    let s = s.concat("&state=");
    s.concat(url_encode(state).as_str())
}

/// Where the browser goes after a failed login.
pub fn error_redirect(frontend: &String, code: &str) -> (r: String)
    ensures
        r@ == frontend@ + "/auth/callback#error="@ + code@,
{
    let s = frontend.clone();
    let s = s.concat("/auth/callback#error=");
    s.concat(code)
}

/// Where the browser goes after a successful login, carrying both tokens.
pub fn login_redirect(frontend: &String, access: &str, refresh: &str) -> (r: String)
    ensures
        r@ == frontend@ + "/auth/callback#access_token="@ + access@ + "&refresh_token="@ + refresh@,
{
    let s = frontend.clone();
    let s = s.concat("/auth/callback#access_token=");
    let s = s.concat(access);
    let s = s.concat("&refresh_token=");
    s.concat(refresh)
}

/// Where the browser goes after connecting a provider.
pub fn connected_redirect(frontend: &String, provider: &str) -> (r: String)
    ensures
        r@ == frontend@ + "/dashboard?connected="@ + provider@,
{
    let s = frontend.clone();
    let s = s.concat("/dashboard?connected=");
    s.concat(provider)
}

/// The outcome of checking a stored login state against the callback that
/// consumes it: the streamer of a connect flow, or the error code to
/// redirect with.
pub open spec fn login_state_spec(
    stored_provider: Seq<char>,
    streamer_id: Option<u128>,
    provider: Seq<char>,
    connect: bool,
) -> Result<Option<u128>, Seq<char>> {
    if stored_provider != provider {
        Err("provider_mismatch"@)
    } else if connect && streamer_id is None {
        Err("unauthorized_connect"@)
    } else {
        Ok(streamer_id)
    }
}

/// Checks a single-use login state: it must have been issued for this
/// provider, and a provider connect flow must carry the streamer who started
/// it.
pub fn check_login_state(
    stored_provider: &str,
    streamer_id: Option<u128>,
    provider: &str,
    connect: bool,
) -> (r: Result<Option<u128>, &'static str>)
    ensures
        match (r, login_state_spec(stored_provider@, streamer_id, provider@, connect)) {
            (Ok(a), Ok(b)) => a == b,
            (Err(a), Err(b)) => a@ == b,
            _ => false,
        },
{
    proof {
        reveal_strlit("provider_mismatch");
        reveal_strlit("unauthorized_connect");
    }
    if !str_eq(stored_provider, provider) {
        return Err("provider_mismatch");
    }
    if connect && streamer_id.is_none() {
        return Err("unauthorized_connect");
    }
    Ok(streamer_id)
}

/// What taking a login state's single-use token from the store found.
pub enum StateLookup {
    /// The store could not be asked.
    Failed,
    /// No such state, or one that does not decode.
    Missing,
    /// The state: the provider it was issued for and the streamer of a
    /// connect flow.
    Found { provider: String, streamer_id: Option<u128> },
}

/// The next step of an OAuth callback.
#[derive(Debug)]
pub enum CallbackStep {
    /// Send the browser back with this error code.
    Fail(&'static str),
    /// Take the single-use login state from the store.
    TakeState,
    /// Exchange the code for tokens; carries the connecting streamer.
    Exchange(Option<u128>),
}

/// Decides the next step of an OAuth callback for `provider` (a login when
/// `connect` is false, a provider connect otherwise) from what is known: the
/// code and state parameters must be there, then the stored state must be
/// found and pass `check_login_state`; only then is the code exchanged.
pub fn callback_step(
    connect: bool,
    provider: &str,
    code_present: bool,
    state_present: bool,
    lookup: &Option<StateLookup>,
) -> (r: CallbackStep)
    ensures
        !connect && !code_present ==> (r matches CallbackStep::Fail(e) && e@ == "oauth_denied"@),
        !connect && code_present && !state_present ==> (r matches CallbackStep::Fail(e) && e@
            == "missing_state"@),
        connect && !(code_present && state_present) ==> (r matches CallbackStep::Fail(e) && e@
            == "missing_params"@),
        code_present && state_present ==> match lookup {
            None => r is TakeState,
            Some(StateLookup::Failed) => (r matches CallbackStep::Fail(e) && e@ == "state_error"@),
            Some(StateLookup::Missing) => (r matches CallbackStep::Fail(e) && e@ == "invalid_state"@),
            Some(StateLookup::Found { provider: p, streamer_id: s }) => match (
                r,
                login_state_spec(p@, *s, provider@, connect),
            ) {
                (CallbackStep::Exchange(a), Ok(b)) => a == b,
                (CallbackStep::Fail(a), Err(b)) => a@ == b,
                _ => false,
            },
        },
        // No code is exchanged before a stored state of this provider was taken.
        r is Exchange ==> code_present && state_present && (lookup matches Some(
            StateLookup::Found { provider: p, .. },
        ) && p@ == provider@),
{
    proof {
        reveal_strlit("provider_mismatch");
    }
    if connect && !(code_present && state_present) {
        return CallbackStep::Fail("missing_params");
    }
    if !code_present {
        return CallbackStep::Fail("oauth_denied");
    }
    if !state_present {
        return CallbackStep::Fail("missing_state");
    }
    match lookup {
        None => CallbackStep::TakeState,
        Some(StateLookup::Failed) => CallbackStep::Fail("state_error"),
        Some(StateLookup::Missing) => CallbackStep::Fail("invalid_state"),
        Some(StateLookup::Found { provider: p, streamer_id }) => {
            match check_login_state(p.as_str(), *streamer_id, provider, connect) {
                Ok(id) => CallbackStep::Exchange(id),
                Err(code) => CallbackStep::Fail(code),
            }
        },
    }
}

/// The providers whose tokens can be stored or dropped.
pub open spec fn known_provider(p: Seq<char>) -> bool {
    p == "spotify"@ || p == "youtube"@ || p == "soundcloud"@
}

/// Token columns of a provider: access, refresh, expiry and scope.
pub open spec fn provider_columns_spec(p: Seq<char>) -> Option<(Seq<char>, Seq<char>, Seq<char>, Seq<char>)> {
    if p == "spotify"@ {
        Some(
            (
                "spotify_access_token"@,
                "spotify_refresh_token"@,
                "spotify_expires_at"@,
                "spotify_scope"@,
            ),
        )
    } else if p == "youtube"@ {
        Some(
            (
                "youtube_access_token"@,
                "youtube_refresh_token"@,
                "youtube_expires_at"@,
                "youtube_scope"@,
            ),
        )
    } else if p == "soundcloud"@ {
        Some(
            (
                "soundcloud_access_token"@,
                "soundcloud_refresh_token"@,
                "soundcloud_expires_at"@,
                "soundcloud_scope"@,
            ),
        )
    } else {
        None
    }
}

/// The token columns a provider's tokens live in; `None` for unknown
/// providers.
pub fn provider_columns(provider: &str) -> (r: Option<(&'static str, &'static str, &'static str, &'static str)>)
    ensures
        match (r, provider_columns_spec(provider@)) {
            (None, None) => true,
            (Some((a, b, c, d)), Some((w, x, y, z))) => a@ == w && b@ == x && c@ == y && d@ == z,
            _ => false,
        },
{
    proof {
        reveal_strlit("spotify_access_token");
        reveal_strlit("spotify_refresh_token");
        reveal_strlit("spotify_expires_at");
        reveal_strlit("spotify_scope");
        reveal_strlit("youtube_access_token");
        reveal_strlit("youtube_refresh_token");
        reveal_strlit("youtube_expires_at");
        reveal_strlit("youtube_scope");
        reveal_strlit("soundcloud_access_token");
        reveal_strlit("soundcloud_refresh_token");
        reveal_strlit("soundcloud_expires_at");
        reveal_strlit("soundcloud_scope");
    }
    if str_eq(provider, "spotify") {
        Some(("spotify_access_token", "spotify_refresh_token", "spotify_expires_at", "spotify_scope"))
    } else if str_eq(provider, "youtube") {
        Some(("youtube_access_token", "youtube_refresh_token", "youtube_expires_at", "youtube_scope"))
    } else if str_eq(provider, "soundcloud") {
        Some(
            (
                "soundcloud_access_token",
                "soundcloud_refresh_token",
                "soundcloud_expires_at",
                "soundcloud_scope",
            ),
        )
    } else {
        None
    }
}

/// Whether a provider named in a disconnect request is known.
pub fn is_known_provider(provider: &str) -> (r: bool)
    ensures
        r == known_provider(provider@),
{
    str_eq(provider, "spotify") || str_eq(provider, "youtube") || str_eq(provider, "soundcloud")
}

/// Exactly the providers with token columns are known.
pub proof fn law_known_providers_have_columns(p: Seq<char>)
    ensures
        known_provider(p) <==> provider_columns_spec(p) is Some,
{
}

/// HTTP basic credentials: base64 of `id:secret`.
pub fn base64_basic(id: &str, secret: &str) -> (r: String)
    ensures
        r@ == base64_spec(encode_utf8(id@ + ":"@ + secret@), false, true),
{
    let s = String::from_str(id);
    let s = s.concat(":");
    let s = s.concat(secret);
    b64_standard_encode(s.as_str().as_bytes())
}

/// When a token that expires in `expires_in` seconds (from `now`) stops
/// being valid; `None` when the provider gave no lifetime.
pub fn expiry_after(now: i64, expires_in: Option<i64>) -> (r: Option<i64>)
    requires
        expires_in matches Some(s) ==> i64::MIN <= now + s <= i64::MAX,
    ensures
        match expires_in {
            Some(s) => r == Some((now + s) as i64),
            None => r is None,
        },
{
    match expires_in {
        Some(s) => Some(now + s),
        None => None,
    }
}

/// When a refreshed Twitch token stops being valid: `expires_in` seconds
/// after `now` when that lifetime is positive, unknown otherwise.
pub fn refreshed_expiry(now: i64, expires_in: i64) -> (r: Option<i64>)
    requires
        expires_in > 0 ==> now + expires_in <= i64::MAX,
    ensures
        expires_in > 0 ==> r == Some((now + expires_in) as i64),
        expires_in <= 0 ==> r is None,
{
    if expires_in > 0 {
        Some(now + expires_in)
    } else {
        None
    }
}

/// Microseconds in a minute.
pub open spec fn minute_micros() -> int {
    60_000_000
}

/// Whether a stored provider token must be refreshed: it has no expiry or
/// expires within a minute of `now` (both in microseconds since the epoch).
pub fn needs_refresh(expires_at: Option<i64>, now: i64) -> (r: bool)
    ensures
        r == match expires_at {
            Some(e) => e - now < minute_micros(),
            None => true,
        },
{
    match expires_at {
        Some(e) => (e as i128) - (now as i128) < 60_000_000,
        None => true,
    }
}

/// The refresh token to keep after a token refresh: the one the provider
/// answered with when it rotated it, else the one already held.
pub fn refresh_token_to_store(old: &str, answered: Option<&str>) -> (r: String)
    ensures
        r@ == match answered {
            Some(a) => a@,
            None => old@,
        },
{
    match answered {
        Some(a) => String::from_str(a),
        None => String::from_str(old),
    }
}

/// Spotify calls need a client id and secret that are not blank.
pub fn spotify_configured(client_id: &str, client_secret: &str) -> (r: bool)
    ensures
        r == (trim_spec(client_id@).len() > 0 && trim_spec(client_secret@).len() > 0),
{
    let a = chars_of(client_id);
    let b = chars_of(client_secret);
    trim(a.as_slice()).len() > 0 && trim(b.as_slice()).len() > 0
}

} // verus!
