//! Sign-in with Ethereum: the payload a wallet posts, the checks made on it,
//! and the tokens handed back.

use vstd::prelude::*;

use crate::decimal::{decimal_text, lemma_decimal_text_injective};
use crate::errors::AppError;

verus! {

/// Days for which an access token holds.
pub const ACCESS_TOKEN_DAYS: i64 = 3;

/// Days for which a refresh token holds.
pub const REFRESH_TOKEN_DAYS: i64 = 180;

/// What a wallet posts to sign in: an EIP-4361 message and its signature.
#[derive(Debug)]
pub struct AuthPayload {
    pub message: String,
    pub signature: String,
}

/// The tokens handed back after a successful sign-in.
#[derive(Debug)]
pub struct Tokens {
    pub access_token: String,
    pub refresh_token: String,
}

/// The address that the EIP-4361 message `message` is signed for, as
/// `siwe::Message::from_str` reads it, or `None` when that parse fails.
pub uninterp spec fn siwe_message_address(message: Seq<char>) -> Option<Seq<u8>>;

/// `siwe::eip55`: the address written as `0x` and forty hexadecimal digits,
/// capitalised by the EIP-55 checksum.
pub uninterp spec fn eip55_text(address: Seq<u8>) -> Seq<char>;

/// A hexadecimal digit, in either case.
pub open spec fn is_hex_digit(c: char) -> bool {
    ('0' <= c && c <= '9') || ('a' <= c && c <= 'f') || ('A' <= c && c <= 'F')
}

/// `text` without a leading `0x` or `0X`.
pub open spec fn without_hex_prefix(text: Seq<char>) -> Seq<char> {
    if text.len() >= 2 && text[0] == '0' && (text[1] == 'x' || text[1] == 'X') {
        text.subrange(2, text.len() as int)
    } else {
        text
    }
}

/// `text` is a 65-byte signature written in hexadecimal (130 digits), with
/// or without a `0x` prefix.
pub open spec fn is_signature_text(text: Seq<char>) -> bool {
    let digits = without_hex_prefix(text);
    &&& digits.len() == 130
    &&& forall|i: int| 0 <= i < digits.len() ==> is_hex_digit(#[trigger] digits[i])
}

/// `<siwe::Message as FromStr>::from_str`, keeping only the `address` field
/// of the parsed message.  The result is named, not described; the source
/// types the field as `[u8; 20]`, so an address has twenty bytes.
#[verifier::external_body]
fn siwe_address(message: &str) -> (address: Option<Vec<u8>>)
    ensures
        match address {
            Some(a) => siwe_message_address(message@) == Some(a@) && a@.len() == 20,
            None => siwe_message_address(message@) is None,
        },
{
    message.parse::<siwe::Message>().ok().map(|m| m.address.to_vec())
}

/// `siwe::eip55` on a twenty-byte address.  Its source writes `0x` followed by
/// the forty hexadecimal digits of the address.
#[verifier::external_body]
fn eip55(address: &Vec<u8>) -> (text: String)
    requires
        address@.len() == 20,
    ensures
        text@ == eip55_text(address@),
        text@.len() == 42,
        text@[0] == '0',
        text@[1] == 'x',
{
    let bytes: [u8; 20] = address.as_slice().try_into().unwrap();
    siwe::eip55(&bytes)
}

/// `<ethers_core::types::Signature as FromStr>::from_str` succeeds exactly
/// when the text, less an optional `0x`/`0X` prefix, is hexadecimal for
/// 65 bytes (the source hex-decodes it and then requires 65 bytes).
#[verifier::external_body]
fn parses_as_signature(text: &str) -> (ok: bool)
    ensures
        ok == is_signature_text(text@),
{
    text.parse::<ethers_core::types::Signature>().is_ok()
}

/// The decision of a sign-in, from the address read from the message (`None`
/// when the message did not parse) and whether the signature parsed: the
/// message is checked first, then the signature.
pub fn check_sign_in(address: Option<Vec<u8>>, signature_ok: bool) -> (outcome: Result<
    Vec<u8>,
    AppError,
>)
    ensures
        match address {
            None => outcome == Err::<Vec<u8>, AppError>(
                AppError::AuthenticationError("Invalid message"),
            ),
            Some(a) => if signature_ok {
                outcome == Ok::<Vec<u8>, AppError>(a)
            } else {
                outcome == Err::<Vec<u8>, AppError>(
                    AppError::AuthenticationError("Invalid signature"),
                )
            },
        },
{
    match address {
        None => Err(AppError::AuthenticationError("Invalid message")),
        Some(a) => if signature_ok {
            Ok(a)
        } else {
            Err(AppError::AuthenticationError("Invalid signature"))
        },
    }
}

/// The checksummed address of the wallet signing in with `message` and
/// `signature`, or the authentication error that refuses it.
pub fn sign_in_address(message: &str, signature: &str) -> (outcome: Result<String, AppError>)
    ensures
        siwe_message_address(message@) is None ==> outcome == Err::<String, AppError>(
            AppError::AuthenticationError("Invalid message"),
        ),
        siwe_message_address(message@) is Some && !is_signature_text(signature@) ==> outcome
            == Err::<String, AppError>(AppError::AuthenticationError("Invalid signature")),
        siwe_message_address(message@) matches Some(a) ==> (is_signature_text(signature@) ==> (
        outcome matches Ok(text) && text@ == eip55_text(a))),
        outcome matches Ok(text) ==> text@.len() == 42 && text@[0] == '0' && text@[1] == 'x',
{
    let address = siwe_address(message);
    let signature_ok = if address.is_some() {
        parses_as_signature(signature)
    } else {
        false
    };
    match check_sign_in(address, signature_ok) {
        Ok(a) => Ok(eip55(&a)),
        Err(e) => Err(e),
    }
}

/// `<i32 as ToString>::to_string`: the number in decimal, as `Display` for
/// integers documents it.
#[verifier::external_body]
fn i32_to_decimal(n: i32) -> (text: String)
    ensures
        text@ == decimal_text(n as int),
{
    n.to_string()
}

/// The key under which the refresh token of user `user_id` is stored.
pub open spec fn refresh_token_key_text(user_id: i32) -> Seq<char> {
    "refresh_token_on_user_"@ + decimal_text(user_id as int)
}

/// The key under which the refresh token of user `user_id` is stored:
/// `refresh_token_on_user_` followed by the id in decimal.
pub fn refresh_token_key(user_id: i32) -> (key: String)
    ensures
        key@ == refresh_token_key_text(user_id),
        key@ == "refresh_token_on_user_"@ + decimal_text(user_id as int),
{
    let id = i32_to_decimal(user_id);
    String::from_str("refresh_token_on_user_").concat(id.as_str())
}

/// Different users have their refresh tokens stored under different keys.
pub proof fn lemma_refresh_token_keys_distinct(a: i32, b: i32)
    requires
        a != b,
    ensures
        refresh_token_key_text(a) != refresh_token_key_text(b),
{
    reveal_strlit("refresh_token_on_user_");
    let p = "refresh_token_on_user_"@;
    if refresh_token_key_text(a) == refresh_token_key_text(b) {
        let k = refresh_token_key_text(a);
        assert(decimal_text(a as int) =~= k.subrange(p.len() as int, k.len() as int));
        assert(decimal_text(b as int) =~= k.subrange(p.len() as int, k.len() as int));
        lemma_decimal_text_injective(a as int, b as int);
    }
}

} // verus!
