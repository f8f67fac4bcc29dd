//! Authentication: the bearer credential of a request, the principal it
//! stands for, and the roles a route asks of it.

use vstd::prelude::*;
use crate::config::{ApiKeyDetails, ApiKeyStore, AuthConfig, AuthType};
use crate::errors::{AppError, ErrorView};
use crate::text::{chars_of, clone_strings, contains_str, is_prefix, owned, starts_with, str_eq, views};

verus! {

/// An authenticated identity.
#[derive(Debug, Clone)]
pub struct Claims {
    /// The subject: a user id.
    pub sub: String,
    pub roles: Vec<String>,
    /// When a signed token expires, in seconds since the epoch; 0 for an API key.
    pub exp: usize,
}

/// What a principal is, as plain values.
pub struct ClaimsView {
    pub sub: Seq<char>,
    pub roles: Seq<Seq<char>>,
    pub exp: nat,
}

impl View for Claims {
    type V = ClaimsView;

    open spec fn view(&self) -> ClaimsView {
        ClaimsView { sub: self.sub@, roles: views(self.roles@), exp: self.exp as nat }
    }
}

/// What the decoder of signed tokens reports of a token. The decoder checks
/// the signature against the shared secret and the expiry against the clock.
#[derive(Debug, Clone)]
pub enum JwtOutcome {
    /// The signature holds and the token has not expired; its claims.
    Valid(Claims),
    /// The signature holds, and the expiry has passed.
    Expired,
    /// Anything else: no token at all, a bad signature, claims that cannot be read.
    Invalid,
}

/// The credential that an `Authorization` header of the text `header` carries:
/// what follows `Bearer `.
pub open spec fn bearer_token_of(header: Option<Seq<char>>) -> Result<Seq<char>, ErrorView> {
    match header {
        None => Err(ErrorView::MissingAuthToken),
        Some(h) => if is_prefix("Bearer "@, h) {
            Ok(h.subrange(7, h.len() as int))
        } else {
            Err(ErrorView::InvalidAuthHeader)
        },
    }
}

/// The text of `s`, where there is one.
pub open spec fn text_of(s: Option<&str>) -> Option<Seq<char>> {
    match s {
        Some(t) => Some(t@),
        None => None,
    }
}

/// Takes the bearer credential out of the `Authorization` header, given as
/// its text where the request has one.
pub fn extract_bearer_token<'a>(authorization: Option<&'a str>) -> (r: Result<&'a str, AppError>)
    ensures
        match r {
            Ok(token) => bearer_token_of(text_of(authorization)) == Ok::<Seq<char>, ErrorView>(
                token@,
            ),
            Err(e) => bearer_token_of(text_of(authorization)) == Err::<Seq<char>, ErrorView>(e@),
        },
{
    proof {
        reveal_strlit("Bearer ");
    }
    match authorization {
        None => Err(AppError::MissingAuthToken),
        Some(header) => {
            let h = chars_of(header);
            let p = chars_of("Bearer ");
            if starts_with(&h, &p) {
                Ok(header.substring_char(7, h.len()))
            } else {
                Err(AppError::InvalidAuthHeader)
            }
        },
    }
}

/// Whether every one of the roles `required` is among `held`.
pub open spec fn has_roles(held: Seq<Seq<char>>, required: Seq<Seq<char>>) -> bool {
    forall|i: int| 0 <= i < required.len() ==> held.contains(#[trigger] required[i])
}

/// Checks that the principal's roles include every required role.
pub fn check_roles(user_roles: &[String], required_roles: &[String]) -> (r: Result<(), AppError>)
    ensures
        r is Ok <==> has_roles(views(user_roles@), views(required_roles@)),
        r matches Err(e) ==> e == AppError::InsufficientPermissions,
{
    let mut i: usize = 0;
    while i < required_roles.len()
        invariant
            i <= required_roles.len(),
            forall|j: int|
                0 <= j < i ==> views(user_roles@).contains(#[trigger] views(required_roles@)[j]),
        decreases required_roles.len() - i,
    {
        assert(views(required_roles@)[i as int] == required_roles@[i as int]@);
        if !contains_str(user_roles, required_roles[i].as_str()) {
            return Err(AppError::InsufficientPermissions);
        }
        i += 1;
    }
    Ok(())
}

/// `got` is the result `want`, principal and error taken by their views.
pub open spec fn same_result(got: Result<Claims, AppError>, want: Result<ClaimsView, ErrorView>) -> bool {
    match got {
        Ok(claims) => want == Ok::<ClaimsView, ErrorView>(claims@),
        Err(e) => want == Err::<ClaimsView, ErrorView>(e@),
    }
}

/// What the decoder's report means for the request.
pub open spec fn jwt_result(decoded: JwtOutcome) -> Result<ClaimsView, ErrorView> {
    match decoded {
        JwtOutcome::Valid(claims) => Ok(claims@),
        JwtOutcome::Expired => Err(ErrorView::TokenExpired),
        JwtOutcome::Invalid => Err(ErrorView::AuthFailed("Invalid JWT."@)),
    }
}

/// Turns the decoder's report on a signed token into the principal or the
/// error that the request is answered with.
pub fn verify_jwt(decoded: JwtOutcome) -> (r: Result<Claims, AppError>)
    ensures
        same_result(r, jwt_result(decoded)),
{
    match decoded {
        JwtOutcome::Valid(claims) => Ok(claims),
        JwtOutcome::Expired => Err(AppError::TokenExpired),
        JwtOutcome::Invalid => Err(AppError::AuthFailed(owned("Invalid JWT."))),
    }
}

/// What the key store says of the token `token`.
pub open spec fn api_key_result(token: Seq<char>, keys: Map<Seq<char>, ApiKeyDetails>) -> Result<
    ClaimsView,
    ErrorView,
> {
    if !keys.contains_key(token) {
        Err(ErrorView::AuthFailed("Invalid API Key."@))
    } else if keys[token].status@ != "active"@ {
        Err(ErrorView::AuthFailed("API Key is revoked."@))
    } else {
        Ok(ClaimsView { sub: keys[token].user_id@, roles: views(keys[token].roles@), exp: 0 })
    }
}

/// Looks the token up in the key store: the principal of an active key.
pub fn verify_api_key(token: &str, key_store: &ApiKeyStore) -> (r: Result<Claims, AppError>)
    ensures
        same_result(r, api_key_result(token@, key_store.keys@)),
{
    match key_store.keys.get(token) {
        None => Err(AppError::AuthFailed(owned("Invalid API Key."))),
        Some(details) => {
            if !str_eq(details.status.as_str(), "active") {
                return Err(AppError::AuthFailed(owned("API Key is revoked.")));
            }
            Ok(
                Claims {
                    sub: details.user_id.clone(),
                    roles: clone_strings(details.roles.as_slice()),
                    exp: 0,
                },
            )
        },
    }
}

/// The principal of a request, or why it has none.
///
/// The header is read first, whatever the route's kind of credential. A
/// route of signed tokens then goes by `decoded`, the decoder's report on
/// the bearer token; a route of API keys looks the token up in `keys`.
pub open spec fn token_result(
    authorization: Option<Seq<char>>,
    auth_type: AuthType,
    decoded: JwtOutcome,
    keys: Map<Seq<char>, ApiKeyDetails>,
) -> Result<ClaimsView, ErrorView> {
    match bearer_token_of(authorization) {
        Err(e) => Err(e),
        Ok(token) => match auth_type {
            AuthType::Jwt => jwt_result(decoded),
            AuthType::ApiKey => api_key_result(token, keys),
        },
    }
}

/// Authenticates a request from its `Authorization` header.
///
/// `decoded` is what the token decoder reported of the header's bearer
/// token; it is read only where the route asks for a signed token and the
/// header carries one.
pub fn verify_token(
    authorization: Option<&str>,
    auth_config: &AuthConfig,
    decoded: JwtOutcome,
    key_store: &ApiKeyStore,
) -> (r: Result<Claims, AppError>)
    ensures
        same_result(
            r,
            token_result(text_of(authorization), auth_config.auth_type, decoded, key_store.keys@),
        ),
{
    let token = match extract_bearer_token(authorization) {
        Ok(t) => t,
        Err(e) => {
            return Err(e);
        },
    };
    match auth_config.auth_type {
        AuthType::Jwt => verify_jwt(decoded),
        AuthType::ApiKey => verify_api_key(token, key_store),
    }
}

/// What the authentication stage decides for a route with the policy `auth`:
/// the principal, where the credential is good and holds every role that
/// the route requires.
pub open spec fn auth_result(
    authorization: Option<Seq<char>>,
    auth: AuthConfig,
    decoded: JwtOutcome,
    keys: Map<Seq<char>, ApiKeyDetails>,
) -> Result<ClaimsView, ErrorView> {
    match token_result(authorization, auth.auth_type, decoded, keys) {
        Err(e) => Err(e),
        Ok(claims) => match auth.roles {
            Some(required) => if has_roles(claims.roles, views(required@)) {
                Ok(claims)
            } else {
                Err(ErrorView::InsufficientPermissions)
            },
            None => Ok(claims),
        },
    }
}

/// The authentication stage: authenticates the request, then checks the
/// principal's roles against those that the route requires.
pub fn authenticate(
    authorization: Option<&str>,
    auth_config: &AuthConfig,
    decoded: JwtOutcome,
    key_store: &ApiKeyStore,
) -> (r: Result<Claims, AppError>)
    ensures
        same_result(r, auth_result(text_of(authorization), *auth_config, decoded, key_store.keys@)),
{
    let claims = match verify_token(authorization, auth_config, decoded, key_store) {
        Ok(c) => c,
        Err(e) => {
            return Err(e);
        },
    };
    if let Some(required) = &auth_config.roles {
        match check_roles(claims.roles.as_slice(), required.as_slice()) {
            Ok(()) => {},
            Err(e) => {
                return Err(e);
            },
        }
    }
    Ok(claims)
}

} // verus!
