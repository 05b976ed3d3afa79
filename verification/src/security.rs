//! Who is signed in: the user record, the claims carried by the tokens the
//! server issues, and the guard that admits a request with a valid token.

use vstd::prelude::*;

use crate::errors::AppError;

verus! {

/// `chrono::TimeDelta` (`chrono::Duration`), a span of time; opaque here.
#[verifier::external_type_specification]
#[verifier::external_body]
pub struct ExTimeDelta(chrono::TimeDelta);

/// `chrono::Utc::now`, then `chrono::DateTime::checked_add_signed` by
/// `delta`, then `DateTime::timestamp`: the instant `delta` after the current
/// time as seconds since the Unix epoch, or `None` when that instant falls
/// outside the range of dates that chrono represents.  The three calls stand
/// together because `DateTime<Tz>` cannot be declared to Verus (its `Tz` is
/// bound by chrono's `TimeZone` trait), so only the timestamp leaves.  It
/// depends on the clock, so which timestamp comes back, and when `None`
/// comes, is left unsaid here.
#[verifier::external_body]
fn timestamp_from_now(delta: chrono::TimeDelta) -> Option<i64> {
    chrono::Utc::now().checked_add_signed(delta).map(|at| at.timestamp())
}

/// A registered user, as the user table stores it.
#[derive(Debug)]
pub struct User {
    pub id: i32,
    pub address: String,
    pub is_admin: bool,
}

/// What a token says of its holder: who it is, whether it is an
/// administrator, and until when (seconds since the Unix epoch) it holds.
#[derive(Debug)]
pub struct Claims {
    pub exp: u32,
    pub id: i32,
    pub address: String,
    pub is_admin: bool,
}

/// A request that carried a valid token, with the token's claims.
#[derive(Debug)]
pub struct Guard(pub Claims);

/// Why a presented token was refused.
#[derive(Debug, Clone, Copy, PartialEq, Eq, Structural)]
pub enum TokenRejection {
    /// The token was well formed and signed, but it has expired.
    ExpiredSignature,
    /// Any other reason: bad signature, bad encoding, bad claims.
    Invalid,
}

/// The claims of `user` hold until `exp` (the timestamp cut to 32 bits).
pub open spec fn claims_of(user: User, exp: u32) -> Claims {
    Claims { exp, id: user.id, address: user.address, is_admin: user.is_admin }
}

impl Claims {
    /// Claims about `user` that expire at `expires_at`, seconds since the Unix
    /// epoch, stored in 32 bits (the timestamp's low 32 bits).
    pub fn with_expiry(user: &User, expires_at: i64) -> (claims: Claims)
        ensures
            claims == claims_of(*user, expires_at as u32),
            claims.exp == expires_at as u32,
            claims.id == user.id,
            claims.address@ == user.address@,
            claims.is_admin == user.is_admin,
    {
        Claims {
            address: user.address.clone(),
            id: user.id,
            is_admin: user.is_admin,
            exp: expires_at as u32,
        }
    }

    /// Claims about `user` that expire `expired` from now; `None` when that
    /// instant cannot be represented.
    pub fn new(user: &User, expired: chrono::TimeDelta) -> (claims: Option<Claims>)
        ensures
            claims matches Some(c) ==> c.id == user.id && c.address@ == user.address@
                && c.is_admin == user.is_admin,
    {
        match timestamp_from_now(expired) {
            Some(at) => Some(Claims::with_expiry(user, at)),
            None => None,
        }
    }
}

impl Guard {
    /// Admits or refuses a request from what was found of its bearer token:
    /// `None` when the request had no bearer `Authorization` header, else the
    /// outcome of decoding and validating the token.
    pub fn from_token_check(check: Option<Result<Claims, TokenRejection>>) -> (admitted: Result<
        Guard,
        AppError,
    >)
        ensures
            match check {
                None => admitted == Err::<Guard, AppError>(
                    AppError::AuthenticationError("Missing Authorization"),
                ),
                Some(Ok(claims)) => admitted == Ok::<Guard, AppError>(Guard(claims)),
                Some(Err(TokenRejection::ExpiredSignature)) => admitted == Err::<Guard, AppError>(
                    AppError::AuthenticationError("Expired token"),
                ),
                Some(Err(TokenRejection::Invalid)) => admitted == Err::<Guard, AppError>(
                    AppError::AuthenticationError("Invalid token"),
                ),
            },
    {
        match check {
            None => Err(AppError::AuthenticationError("Missing Authorization")),
            Some(Ok(claims)) => Ok(Guard(claims)),
            Some(Err(TokenRejection::ExpiredSignature)) => Err(
                AppError::AuthenticationError("Expired token"),
            ),
            Some(Err(TokenRejection::Invalid)) => Err(AppError::AuthenticationError("Invalid token")),
        }
    }
}

} // verus!
