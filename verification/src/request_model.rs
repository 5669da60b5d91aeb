//! Typed request data: the validated token claims and the parsed request
//! body the routes work with.

use vstd::prelude::*;
use crate::chat_model::DtkChat;

verus! {

/// Validated claims of an access token.
#[derive(Clone, Debug)]
pub struct TokenInfo {
    /// User id.
    pub id: String,
    /// User lvl.
    pub lvl: Vec<String>,
    /// User email.
    pub email: String,
    /// User name.
    pub name: String,
    /// Token iat.
    pub iat: i64,
    /// Token exp.
    pub exp: i64,
    /// Token aud.
    pub aud: String,
    /// Token iss.
    pub iss: String,
    /// Token sub.
    pub sub: String,
}

/// The parsed body of an authenticated request.
#[derive(Debug)]
pub struct DtkRequestBody {
    /// User id.
    pub id: String,
    /// User email.
    pub email: String,
    /// User name.
    pub name: String,
    /// User level.
    pub lvl: Vec<String>,
    /// User token.
    pub token: String,
    /// Filter tags.
    pub filter_tags: Vec<String>,
    /// Filter search.
    pub filter_search: String,
    /// Chat payload.
    pub chat_payload: DtkChat,
}

/// A validated token together with its claims.
#[derive(Clone, Debug)]
pub struct JwtAuth {
    pub claims: TokenInfo,
    pub token: String,
}

/// Judge an answer by its status code: success on OK, nothing on forbidden
/// or anything else.
pub fn validate_response(status_code: u16) -> (r: Option<bool>)
    ensures
        r == if status_code == 200 {
            Some(true)
        } else {
            None::<bool>
        },
{
    if status_code == 200 {
        Some(true)
    } else {
        None
    }
}

} // verus!
