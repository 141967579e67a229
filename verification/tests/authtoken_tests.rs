use activity_scheduler::authtoken::{AuthToken, AuthTokenError};
use activity_scheduler::util::u64_to_string;
use base64::Engine;

fn ec_key_pem() -> Vec<u8> {
    let group = openssl::ec::EcGroup::from_curve_name(openssl::nid::Nid::X9_62_PRIME256V1).unwrap();
    let key = openssl::ec::EcKey::generate(&group).unwrap();
    key.private_key_to_pem().unwrap()
}

#[test]
fn new_token_has_expected_header_and_claims() {
    let pem = ec_key_pem();
    let token = AuthToken::new(
        String::from("TEAM1"),
        String::from("KEY1"),
        pem,
        1000,
    )
    .expect("valid key material");

    let parts: Vec<&str> = token.token.split('.').collect();
    assert_eq!(parts.len(), 3);
    // base64, no padding, of: { "alg": "ES256", "kid": "KEY1" }
    assert_eq!(parts[0], "eyAiYWxnIjogIkVTMjU2IiwgImtpZCI6ICJLRVkxIiB9");
    // base64, no padding, of: { "iss": "TEAM1", "iat": 1000 }
    assert_eq!(parts[1], "eyAiaXNzIjogIlRFQU0xIiwgImlhdCI6IDEwMDAgfQ");
    assert!(!parts[2].is_empty());
    assert_eq!(parts[0], token.jwt_header);
    assert_eq!(parts[1], token.jwt_claims);
    assert_eq!(parts[2], token.jwt_signed);
}

#[test]
fn signature_verifies_over_header_and_claims() {
    let group = openssl::ec::EcGroup::from_curve_name(openssl::nid::Nid::X9_62_PRIME256V1).unwrap();
    let ec = openssl::ec::EcKey::generate(&group).unwrap();
    let pem = ec.private_key_to_pem().unwrap();
    let token = AuthToken::new(
        String::from("TEAM1"),
        String::from("KEY1"),
        pem,
        1234,
    )
    .expect("valid key material");

    let signature = base64::engine::general_purpose::STANDARD_NO_PAD
        .decode(token.jwt_signed.as_bytes())
        .expect("signature part is valid base64");
    let message = format!("{}.{}", token.jwt_header, token.jwt_claims);

    let pkey = openssl::pkey::PKey::from_ec_key(ec).unwrap();
    let mut verifier =
        openssl::sign::Verifier::new(openssl::hash::MessageDigest::sha256(), &pkey).unwrap();
    verifier.update(message.as_bytes()).unwrap();
    assert!(verifier.verify(&signature).unwrap());
}

#[test]
fn refresh_keeps_header_and_replaces_claims() {
    let pem = ec_key_pem();
    let mut token = AuthToken::new(
        String::from("TEAM1"),
        String::from("KEY1"),
        pem,
        1000,
    )
    .expect("valid key material");
    let header_before = token.jwt_header.clone();
    let claims_before = token.jwt_claims.clone();
    let token_before = token.token.clone();

    token.refresh(2000).expect("refresh with valid key material");

    // The fixed header component is byte-identical across refreshes.
    assert_eq!(token.jwt_header, header_before);
    // The time-bound claims changed with the new issue time.
    assert_ne!(token.jwt_claims, claims_before);
    // base64, no padding, of: { "iss": "TEAM1", "iat": 2000 }
    assert_eq!(token.jwt_claims, "eyAiaXNzIjogIlRFQU0xIiwgImlhdCI6IDIwMDAgfQ");
    assert_ne!(token.token, token_before);
    assert_eq!(
        token.token,
        format!("{}.{}.{}", token.jwt_header, token.jwt_claims, token.jwt_signed)
    );
}

#[test]
fn failed_refresh_leaves_credential_in_place() {
    let pem = ec_key_pem();
    let mut token = AuthToken::new(
        String::from("TEAM1"),
        String::from("KEY1"),
        pem,
        1000,
    )
    .expect("valid key material");
    let token_before = token.token.clone();

    // Corrupt the key material: the next refresh must fail and leave the
    // previously stored credential readable and unchanged.
    token.key_pem = Vec::from(&b"not a pem"[..]);
    let result = token.refresh(2000);
    assert!(matches!(result, Err(AuthTokenError::BadPrivateKey)));
    assert_eq!(token.token, token_before);
}

#[test]
fn bad_key_material_is_rejected_at_startup() {
    let result = AuthToken::new(
        String::from("TEAM1"),
        String::from("KEY1"),
        Vec::from(&b"garbage"[..]),
        1000,
    );
    assert!(matches!(result, Err(AuthTokenError::BadPrivateKey)));
}

#[test]
fn key_unusable_for_signing_is_rejected() {
    // An Ed25519 key parses as a PEM private key but cannot be used with the
    // SHA-256 signer this credential requires.
    let key = openssl::pkey::PKey::generate_ed25519().unwrap();
    let pem = key.private_key_to_pem_pkcs8().unwrap();
    let result = AuthToken::new(String::from("TEAM1"), String::from("KEY1"), pem, 1000);
    assert!(matches!(result, Err(AuthTokenError::BadSignature)));
}

#[test]
fn decimal_rendering_is_exact() {
    assert_eq!(u64_to_string(0), "0");
    assert_eq!(u64_to_string(7), "7");
    assert_eq!(u64_to_string(10), "10");
    assert_eq!(u64_to_string(1700000000), "1700000000");
    assert_eq!(u64_to_string(u64::MAX), "18446744073709551615");
}
