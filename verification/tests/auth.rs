use oxideforms::auth::{
    check_password, constant_time_eq, make_token, now_secs, signing_key, verify_token,
    verify_token_at,
};

const KEY_HEX: &str = "1ec1c26b50d5d3c58d9583181af8076655fe00756bf7285940ba3670f99fcba0";
const TAG_1700000000: &str = "2df32d925584bbc65e874c8618cbfdfd3eb8731ef0031c175214e9d19379ee15";

fn hex(bytes: &[u8]) -> String {
    bytes.iter().map(|b| format!("{:02x}", b)).collect()
}

#[test]
fn signing_key_is_sha256_of_password() {
    let key = signing_key("s3cret");
    assert_eq!(key.len(), 32);
    assert_eq!(hex(&key), KEY_HEX);
}

#[test]
fn make_token_is_expiry_dot_hmac_hex() {
    let key = signing_key("s3cret");
    let token = make_token(&key, 1700000000);
    assert_eq!(token, format!("1700000000.{}", TAG_1700000000));
}

#[test]
fn make_token_negative_expiry() {
    let key = signing_key("s3cret");
    let token = make_token(&key, -5);
    assert_eq!(
        token,
        "-5.5ace55e9c7064f3bac3655c2fa8d4edc05c604ed7ed8c4406faf272532e7605f"
    );
}

#[test]
fn token_valid_until_expiry() {
    let key = signing_key("s3cret");
    let token = make_token(&key, 1700000000);
    assert!(verify_token_at(&key, &token, 1699999999));
    assert!(!verify_token_at(&key, &token, 1700000000));
    assert!(!verify_token_at(&key, &token, 1800000000));
}

#[test]
fn token_tag_is_case_insensitive() {
    let key = signing_key("s3cret");
    let token = format!("1700000000.{}", TAG_1700000000.to_ascii_uppercase());
    assert!(verify_token_at(&key, &token, 0));
}

#[test]
fn token_rejects_other_key_and_tampering() {
    let key = signing_key("s3cret");
    let other = signing_key("other");
    let token = make_token(&key, 1700000000);
    assert!(!verify_token_at(&other, &token, 0));
    let tampered = format!("1700000001.{}", TAG_1700000000);
    assert!(!verify_token_at(&key, &tampered, 0));
    assert!(!verify_token_at(&key, "no-dot-here", 0));
    assert!(!verify_token_at(&key, "abc.def", 0));
    assert!(!verify_token_at(&key, "", 0));
    assert!(!verify_token_at(&key, &format!("+1700000000.{}", TAG_1700000000), 0));
}

#[test]
fn verify_token_uses_the_clock() {
    let key = signing_key("s3cret");
    let now = now_secs();
    assert!(now > 1_600_000_000);
    let fresh = make_token(&key, now + 3600);
    assert!(verify_token(&key, &fresh));
    let expired = make_token(&key, now - 10);
    assert!(!verify_token(&key, &expired));
}

#[test]
fn check_password_compares_passwords() {
    assert!(check_password("s3cret", "s3cret"));
    assert!(!check_password("s3cret", "s3cret "));
    assert!(!check_password("s3cret", ""));
    assert!(check_password("", ""));
}

#[test]
fn constant_time_eq_cases() {
    assert!(constant_time_eq(b"abc", b"abc"));
    assert!(!constant_time_eq(b"abc", b"abd"));
    assert!(!constant_time_eq(b"abc", b"ab"));
    assert!(constant_time_eq(b"", b""));
}
