use server::errors::AppError;
use server::security::{Claims, Guard, TokenRejection, User};

fn alice() -> User {
    User { id: 7, address: "0x6Da01670d8fc844e736095918bbE11fE8D564163".to_string(), is_admin: true }
}

#[test]
fn claims_with_expiry_copy_the_user() {
    let c = Claims::with_expiry(&alice(), 1_700_000_000);
    assert_eq!(c.exp, 1_700_000_000);
    assert_eq!(c.id, 7);
    assert_eq!(c.address, "0x6Da01670d8fc844e736095918bbE11fE8D564163");
    assert!(c.is_admin);
}

#[test]
fn claims_expiry_keeps_low_32_bits() {
    let c = Claims::with_expiry(&alice(), (1i64 << 32) + 5);
    assert_eq!(c.exp, 5);
    let c = Claims::with_expiry(&alice(), -1);
    assert_eq!(c.exp, u32::MAX);
}

#[test]
fn claims_new_expires_after_the_period() {
    let before = chrono::Utc::now().timestamp();
    let c = Claims::new(&alice(), chrono::Duration::days(3)).unwrap();
    let after = chrono::Utc::now().timestamp();
    assert!(c.exp as i64 >= before + 3 * 86_400);
    assert!(c.exp as i64 <= after + 3 * 86_400);
    assert_eq!(c.id, 7);
    assert!(c.is_admin);
}

#[test]
fn claims_new_out_of_range_is_none() {
    assert!(Claims::new(&alice(), chrono::Duration::MAX).is_none());
}

#[test]
fn guard_admits_decoded_claims() {
    let c = Claims::with_expiry(&alice(), 10);
    match Guard::from_token_check(Some(Ok(c))) {
        Ok(Guard(claims)) => assert_eq!(claims.id, 7),
        Err(e) => panic!("refused: {:?}", e),
    }
}

#[test]
fn guard_refusals() {
    assert!(matches!(
        Guard::from_token_check(None),
        Err(AppError::AuthenticationError("Missing Authorization"))
    ));
    assert!(matches!(
        Guard::from_token_check(Some(Err(TokenRejection::ExpiredSignature))),
        Err(AppError::AuthenticationError("Expired token"))
    ));
    assert!(matches!(
        Guard::from_token_check(Some(Err(TokenRejection::Invalid))),
        Err(AppError::AuthenticationError("Invalid token"))
    ));
}
