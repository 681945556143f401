//! Admin authentication data: login credentials, token claims, and the
//! checks and arithmetic behind issuing and accepting a token. Signing and
//! verifying the token itself is the caller's concern.

use vstd::prelude::*;

use crate::strings::chars_to_string;
use crate::strings::eq_str;
use crate::strings::to_chars;

verus! {

/// How long an issued admin token stays valid, in hours.
pub const TOKEN_EXPIRY_HOURS: i64 = 8;

/// The claims carried by an admin token.
#[derive(Debug)]
pub struct Claims {
    /// The authenticated username.
    pub sub: String,
    /// Expiry, as a Unix timestamp.
    pub exp: usize,
    /// Issued at, as a Unix timestamp.
    pub iat: usize,
}

#[derive(Debug)]
pub struct LoginRequest {
    pub username: String,
    pub password: String,
}

#[derive(Debug)]
pub struct LoginResponse {
    pub token: String,
    pub expires_in: i64,
}

/// A login succeeds exactly when both the username and the password equal
/// the configured admin credentials.
pub fn credentials_valid(req: &LoginRequest, admin_username: &str, admin_password: &str) -> (r:
    bool)
    ensures
        r == (req.username@ == admin_username@ && req.password@ == admin_password@),
{
    let user_ok = eq_str(req.username.as_str(), admin_username);
    let pass_ok = eq_str(req.password.as_str(), admin_password);
    user_ok && pass_ok
}

/// The claims for a token issued now: subject carried over, and expiry a
/// fixed eight hours after issue.
pub fn make_claims(username: String, now_ts: usize) -> (r: Claims)
    requires
        now_ts + 28800 <= usize::MAX,
    ensures
        r.sub == username,
        r.iat == now_ts,
        r.exp == now_ts + 28800,
{
    Claims { sub: username, exp: now_ts + 28800, iat: now_ts }
}

/// The token carried by an authorization header: the text after the
/// "Bearer " prefix, or nothing when the prefix is absent.
pub fn bearer_token(header: &str) -> (r: Option<String>)
    ensures
        match r {
            Some(t) => header@.len() >= 7 && header@.take(7) == "Bearer "@ && t@ == header@.skip(
                7,
            ),
            None => !(header@.len() >= 7 && header@.take(7) == "Bearer "@),
        },
{
    proof {
        reveal_strlit("Bearer ");
    }
    let chars = to_chars(header);
    let pat = to_chars("Bearer ");
    if crate::grading::match_at_exec(&chars, 0, &pat) {
        proof {
            assert(header@.subrange(0, 7) =~= header@.take(7));
        }
        let mut rest: Vec<char> = Vec::new();
        let mut k: usize = 7;
        while k < chars.len()
            invariant
                7 <= k <= chars@.len(),
                chars@ == header@,
                rest@ == header@.subrange(7, k as int),
            decreases chars@.len() - k,
        {
            rest.push(chars[k]);
            proof {
                assert(header@.subrange(7, k + 1 as int) =~= header@.subrange(7, k as int).push(
                    header@[k as int],
                ));
            }
            k = k + 1;
        }
        proof {
            assert(header@.subrange(7, header@.len() as int) =~= header@.skip(7));
        }
        Some(chars_to_string(&rest))
    } else {
        proof {
            if header@.len() >= 7 && header@.take(7) == "Bearer "@ {
                assert(header@.subrange(0, 7) =~= header@.take(7));
            }
        }
        None
    }
}

} // verus!
