use server::errors::AppError;
use server::sign_in::{check_sign_in, refresh_token_key, sign_in_address, ACCESS_TOKEN_DAYS, REFRESH_TOKEN_DAYS};

const MESSAGE: &str = "localhost:4361 wants you to sign in with your Ethereum account:
0x6Da01670d8fc844e736095918bbE11fE8D564163

SIWE Notepad Example

URI: http://localhost:4361
Version: 1
Chain ID: 1
Nonce: kEWepMt9knR6lWJ6A
Issued At: 2021-12-07T18:28:18.807Z";

fn signature() -> String {
    format!("0x{}", "ab".repeat(65))
}

#[test]
fn sign_in_gives_checksummed_address() {
    let address = sign_in_address(MESSAGE, &signature()).unwrap();
    assert_eq!(address, "0x6Da01670d8fc844e736095918bbE11fE8D564163");
}

#[test]
fn sign_in_accepts_signature_without_prefix() {
    let address = sign_in_address(MESSAGE, &"CD".repeat(65)).unwrap();
    assert_eq!(address, "0x6Da01670d8fc844e736095918bbE11fE8D564163");
}

#[test]
fn sign_in_refuses_bad_message() {
    assert!(matches!(
        sign_in_address("hello", &signature()),
        Err(AppError::AuthenticationError("Invalid message"))
    ));
    // The message is checked before the signature.
    assert!(matches!(
        sign_in_address("hello", "zz"),
        Err(AppError::AuthenticationError("Invalid message"))
    ));
}

#[test]
fn sign_in_refuses_bad_signature() {
    for bad in ["", "0x1234", &"ab".repeat(64), &format!("0x{}g", "a".repeat(129))] {
        assert!(matches!(
            sign_in_address(MESSAGE, bad),
            Err(AppError::AuthenticationError("Invalid signature"))
        ));
    }
}

#[test]
fn check_sign_in_decisions() {
    assert!(matches!(check_sign_in(None, true), Err(AppError::AuthenticationError("Invalid message"))));
    assert!(matches!(
        check_sign_in(Some(vec![1u8; 20]), false),
        Err(AppError::AuthenticationError("Invalid signature"))
    ));
    assert_eq!(check_sign_in(Some(vec![1u8; 20]), true).unwrap(), vec![1u8; 20]);
}

#[test]
fn refresh_token_keys() {
    assert_eq!(refresh_token_key(42), "refresh_token_on_user_42");
    assert_eq!(refresh_token_key(0), "refresh_token_on_user_0");
    assert_eq!(refresh_token_key(-3), "refresh_token_on_user_-3");
    assert_ne!(refresh_token_key(1), refresh_token_key(11));
}

#[test]
fn token_periods() {
    assert_eq!(ACCESS_TOKEN_DAYS, 3);
    assert_eq!(REFRESH_TOKEN_DAYS, 180);
}
