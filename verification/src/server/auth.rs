//! Credentials: the bearer token of devices, and the bearer token or HTTP
//! Basic pair of operators.

use base64::Engine;
use vstd::prelude::*;
use vstd::string::*;
use vstd::utf8::*;

use crate::server::error::{ApiError, ApiErrorKind};
use crate::text::{
    before_first, has_prefix, is_blank, is_blank_text, same_text, split_once, strip_prefix,
};

verus! {

/// What the service is configured with: the devices' shared secret, the
/// operators' token, an optional Basic pair for operators, and whether the
/// forwarding header of a proxy is believed.
pub struct ServerConfig {
    pub sync_token: String,
    pub admin_token: String,
    pub admin_basic_user: Option<String>,
    pub admin_basic_password: Option<String>,
    pub trust_proxy: bool,
}

/// The text of an `Authorization` header, empty where the request has none.
pub open spec fn presented(authorization: Option<&str>) -> Seq<char> {
    match authorization {
        Some(a) => a@,
        None => Seq::empty(),
    }
}

/// The header that carries `token` as a bearer token.
pub open spec fn bearer_header(token: Seq<char>) -> Seq<char> {
    "Bearer "@ + token
}

/// The bearer token that a header carries.
pub open spec fn bearer_token(authorization: Option<&str>) -> Option<Seq<char>> {
    match authorization {
        Some(a) => if has_prefix(a@, "Bearer "@) {
            Some(a@.skip("Bearer "@.len() as int))
        } else {
            None
        },
        None => None,
    }
}

/// User and password in the text of a Basic credential: what stands before
/// the first colon, and what stands after it.
pub open spec fn credentials_in(text: Seq<char>) -> Option<(Seq<char>, Seq<char>)> {
    if text.contains(':') {
        Some((before_first(text, ':'), text.skip(before_first(text, ':').len() as int + 1)))
    } else {
        None
    }
}

/// What the `base64` crate's standard engine decodes `text` to; `None` where
/// it rejects the text.
pub uninterp spec fn base64_standard_decoded(text: Seq<char>) -> Option<Seq<u8>>;

/// The text that `String::from_utf8_lossy` makes of `bytes`.
pub uninterp spec fn utf8_lossy_text(bytes: Seq<u8>) -> Seq<char>;

/// User and password that a header carries as a Basic credential.
pub open spec fn basic_credentials(authorization: Option<&str>) -> Option<(Seq<char>, Seq<char>)> {
    match authorization {
        Some(a) => if has_prefix(a@, "Basic "@) {
            match base64_standard_decoded(a@.skip("Basic "@.len() as int)) {
                Some(bytes) => credentials_in(utf8_lossy_text(bytes)),
                None => None,
            }
        } else {
            None
        },
        None => None,
    }
}

/// Whether a header lets an operator in: its bearer token is the operators'
/// token, or a Basic pair is configured and the header carries that pair.
pub open spec fn admits_admin(authorization: Option<&str>, config: ServerConfig) -> bool {
    ||| bearer_token(authorization) == Some(config.admin_token@)
    ||| (config.admin_basic_user matches Some(user) && config.admin_basic_password matches Some(
        password,
    ) && basic_credentials(authorization) == Some((user@, password@)))
}

/// Decodes `text` with the `base64` crate: `Engine::decode` of
/// `general_purpose::STANDARD`. The bytes are those named by
/// `base64_standard_decoded`; a text that the engine rejects gives `None`.
#[verifier::external_body]
fn base64_decode(text: &str) -> (bytes: Option<Vec<u8>>)
    ensures
        match bytes {
            Some(b) => base64_standard_decoded(text@) == Some(b@),
            None => base64_standard_decoded(text@) is None,
        },
{
    base64::engine::general_purpose::STANDARD.decode(text).ok()
}

/// Turns bytes into text with `String::from_utf8_lossy`. The text is the one
/// named by `utf8_lossy_text`; bytes that are valid UTF-8 give the text that
/// they encode.
#[verifier::external_body]
fn utf8_lossy(bytes: &[u8]) -> (text: String)
    ensures
        text@ == utf8_lossy_text(bytes@),
        valid_utf8(bytes@) ==> text@ == decode_utf8(bytes@),
{
    String::from_utf8_lossy(bytes).into_owned()
}

/// Lets a device in where its header is exactly `Bearer`, a space and the
/// expected token. A request without a header counts as an empty one.
pub fn authorize_bearer(authorization: Option<&str>, expected: &str) -> (r: Result<(), ApiError>)
    ensures
        r is Ok <==> presented(authorization) == bearer_header(expected@),
        r matches Err(e) ==> e.is(ApiErrorKind::Authorization, "unauthorized"@),
{
    let auth = match authorization {
        Some(a) => a,
        None => "",
    };
    proof {
        reveal_strlit("");
    }
    assert(auth@ == presented(authorization)) by {
        if authorization is None {
            assert(auth@ =~= Seq::<char>::empty());
        }
    }
    let wanted = "Bearer ".to_owned().concat(expected);
    if same_text(auth, wanted.as_str()) {
        Ok(())
    } else {
        Err(ApiError::unauthorized())
    }
}

/// The bearer token of a header: what follows `Bearer` and a space.
pub fn extract_bearer_token(authorization: Option<&str>) -> (token: Option<String>)
    ensures
        match token {
            Some(t) => bearer_token(authorization) == Some(t@),
            None => bearer_token(authorization) is None,
        },
{
    match authorization {
        Some(a) => match strip_prefix(a, "Bearer ") {
            Some(rest) => Some(rest.to_owned()),
            None => None,
        },
        None => None,
    }
}

/// User and password in the decoded text of a Basic credential.
pub fn parse_credentials(decoded: &str) -> (pair: Option<(String, String)>)
    ensures
        match pair {
            Some((user, password)) => credentials_in(decoded@) == Some((user@, password@)),
            None => credentials_in(decoded@) is None,
        },
{
    match split_once(decoded, ':') {
        Some((user, password)) => {
            assert(password@ =~= decoded@.skip(user@.len() as int + 1));
            Some((user.to_owned(), password.to_owned()))
        },
        None => None,
    }
}

/// User and password of a header that carries a Basic credential: what
/// follows `Basic` and a space is decoded from base64 and read as text.
pub fn extract_basic_auth(authorization: Option<&str>) -> (pair: Option<(String, String)>)
    ensures
        match pair {
            Some((user, password)) => basic_credentials(authorization) == Some(
                (user@, password@),
            ),
            None => basic_credentials(authorization) is None,
        },
{
    match authorization {
        Some(a) => match strip_prefix(a, "Basic ") {
            Some(encoded) => match base64_decode(encoded) {
                Some(bytes) => {
                    let decoded = utf8_lossy(bytes.as_slice());
                    parse_credentials(decoded.as_str())
                },
                None => None,
            },
            None => None,
        },
        None => None,
    }
}

/// Lets an operator in by bearer token or, where a Basic pair is configured,
/// by that pair.
pub fn authorize_admin(authorization: Option<&str>, config: &ServerConfig) -> (r: Result<
    (),
    ApiError,
>)
    ensures
        r is Ok <==> admits_admin(authorization, *config),
        r matches Err(e) ==> e.is(ApiErrorKind::Authorization, "unauthorized"@),
{
    if let Some(token) = extract_bearer_token(authorization) {
        if same_text(token.as_str(), config.admin_token.as_str()) {
            return Ok(());
        }
    }
    if let Some(user) = &config.admin_basic_user {
        if let Some(password) = &config.admin_basic_password {
            if let Some((given_user, given_password)) = extract_basic_auth(authorization) {
                if same_text(given_user.as_str(), user.as_str()) && same_text(
                    given_password.as_str(),
                    password.as_str(),
                ) {
                    return Ok(());
                }
            }
        }
    }
    Err(ApiError::unauthorized())
}

/// The Basic pair that the service goes by: the configured user and password
/// where both are set and neither is blank, else none.
pub fn basic_pair(user: Option<String>, password: Option<String>) -> (pair: (
    Option<String>,
    Option<String>,
))
    ensures
        pair == if user matches Some(u) && password matches Some(p) && !is_blank_text(u@)
            && !is_blank_text(p@) {
            (user, password)
        } else {
            (None::<String>, None::<String>)
        },
{
    match (user, password) {
        (Some(u), Some(p)) => {
            if !is_blank(u.as_str()) && !is_blank(p.as_str()) {
                (Some(u), Some(p))
            } else {
                (None, None)
            }
        },
        _ => (None, None),
    }
}

} // verus!
