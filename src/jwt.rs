use vstd::prelude::*;
use vstd::string::StringExecFns;

verus! {

/// Seconds for which a token stays valid.
pub const TOKEN_LIFETIME: i64 = 86_400;

/// What a token asserts: the account name and the expiry, in seconds since
/// the Unix epoch.
#[derive(Debug, PartialEq)]
pub struct Claims {
    pub sub: String,
    pub exp: i64,
}

/// A signed token as handed to the client.
#[derive(Debug, PartialEq)]
pub struct Token {
    pub access_token: String,
    pub token_type: String,
    pub expire: i64,
}

impl Claims {
    /// Claims for `sub` issued at `now`, in seconds since the Unix epoch, and
    /// valid for one day.
    pub fn new(sub: String, now: i64) -> (r: Claims)
        requires
            now <= i64::MAX - TOKEN_LIFETIME,
        ensures
            r.sub == sub,
            r.exp == now + TOKEN_LIFETIME,
    {
        Claims { sub, exp: now + TOKEN_LIFETIME }
    }
}

impl Token {
    /// The bearer token `access_token` that carries `claims`.
    pub fn bearer(access_token: String, claims: &Claims) -> (r: Token)
        ensures
            r.access_token == access_token,
            r.token_type@ == "Bearer"@,
            r.expire == claims.exp,
    {
        Token { access_token, token_type: String::from_str("Bearer"), expire: claims.exp }
    }
}

} // verus!
