//! Authentication data types and API key generation.
//!
//! Credential issuance and storage live outside this library; what stands
//! here are the data shapes that cross that boundary and the pure pieces of
//! key handling: minting a fresh API key and masking a stored token for
//! display.

use vstd::prelude::*;

verus! {

/// The claims carried inside an access token.
#[derive(Clone, Debug)]
pub struct Claims {
    /// Subject: the user this token speaks for.
    pub sub: String,
    /// Expiry time, seconds since the Unix epoch.
    pub exp: usize,
    /// Issued-at time, seconds since the Unix epoch.
    pub iat: usize,
    /// The user's role.
    pub role: String,
}

/// A login attempt: the credentials a caller presents.
#[derive(Clone, Debug)]
pub struct LoginRequest {
    pub username: String,
    pub password: String,
}

/// An issued API token as listed back to its owner; `token` holds only a
/// masked prefix, never the full secret.
#[derive(Clone, Debug)]
pub struct ApiToken {
    pub id: String,
    pub name: String,
    pub token: String,
    pub created_at: usize,
    pub expires_at: Option<usize>,
}

/// Whether `c` is a lowercase hexadecimal digit.
pub open spec fn is_lower_hex(c: char) -> bool {
    ('0' <= c && c <= '9') || ('a' <= c && c <= 'f')
}

/// Relies on `uuid::Uuid::new_v4` and the `Display` of `uuid::fmt::Simple`:
/// a fresh random UUID rendered as exactly 32 lowercase hexadecimal
/// characters. The value is random; only its shape is stated.
#[verifier::external_body]
fn fresh_uuid_hex() -> (r: String)
    ensures
        r@.len() == 32,
        forall|i: int| 0 <= i < 32 ==> is_lower_hex(#[trigger] r@[i]),
{
    uuid::Uuid::new_v4().simple().to_string()
}

/// Mints a fresh API key: a random 128-bit identifier in lowercase
/// hexadecimal behind a fixed prefix.
pub fn generate_api_key() -> (r: String)
    ensures
        r@.len() == 37,
        r@.subrange(0, 5) == "nmbs_"@,
        forall|i: int| 5 <= i < 37 ==> is_lower_hex(#[trigger] r@[i]),
{
    let key = fresh_uuid_hex();
    let prefix = String::from_str("nmbs_");
    let r = prefix.concat(key.as_str());
    proof {
        reveal_strlit("nmbs_");
        assert(r@.subrange(0, 5) =~= "nmbs_"@);
        assert forall|i: int| 5 <= i < 37 implies is_lower_hex(#[trigger] r@[i]) by {
            assert(r@[i] == key@[i - 5]);
        }
    }
    r
}

/// The number of leading characters a masked token shows.
pub const TOKEN_MASK_PREFIX: usize = 8;

/// Masks a stored token for display: at most its first eight characters,
/// then an ellipsis.
pub fn mask_token(token: &str) -> (r: String)
    ensures
        r@ == token@.subrange(
            0,
            if token@.len() < TOKEN_MASK_PREFIX {
                token@.len() as int
            } else {
                TOKEN_MASK_PREFIX as int
            },
        ) + "..."@,
{
    let len = token.unicode_len();
    let keep = if len < TOKEN_MASK_PREFIX {
        len
    } else {
        TOKEN_MASK_PREFIX
    };
    let head = token.substring_char(0, keep);
    head.to_owned().concat("...")
}

} // verus!
