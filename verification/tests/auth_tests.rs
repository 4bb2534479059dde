use jwt_compact::alg::Es256k;
use jwt_compact::{AlgorithmExt, Claims, Header};
use secp256k1::{PublicKey, Secp256k1, SecretKey};
use sha2::Sha256;
use vss::auth::{
    parse_auth_key, reconcile_store_id, verify_token, AuthError, ConfigError,
};

fn test_keypair() -> (SecretKey, PublicKey) {
    let secret = SecretKey::from_slice(&[0x42; 32]).unwrap();
    let public = PublicKey::from_secret_key(&Secp256k1::new(), &secret);
    (secret, public)
}

fn sub_claims(tenant: &str) -> serde_json::Value {
    let mut map = serde_json::Map::new();
    map.insert(
        "sub".to_string(),
        serde_json::Value::String(tenant.to_string()),
    );
    serde_json::Value::Object(map)
}

fn signed_token(
    secret: &SecretKey,
    tenant: &str,
    exp: Option<i64>,
    nbf: Option<i64>,
) -> String {
    let mut claims = Claims::new(sub_claims(tenant));
    claims.expiration = exp.and_then(|t| chrono::DateTime::from_timestamp(t, 0));
    claims.not_before = nbf.and_then(|t| chrono::DateTime::from_timestamp(t, 0));
    let alg = Es256k::<Sha256>::default();
    alg.token(&Header::empty(), &claims, secret).unwrap()
}

const NOW: i64 = 1_700_000_000;

#[test]
fn valid_token_yields_its_subject() {
    let (secret, public) = test_keypair();
    let key = public.serialize().to_vec();
    let token = signed_token(&secret, "tenant_one", Some(NOW + 3600), Some(NOW - 3600));
    let r = verify_token(&token, Some(&key), NOW);
    assert_eq!(r.unwrap().unwrap(), "tenant_one");
}

#[test]
fn expired_token_is_rejected_despite_valid_signature() {
    let (secret, public) = test_keypair();
    let key = public.serialize().to_vec();
    let token = signed_token(&secret, "tenantX", Some(NOW - 3600), Some(NOW - 7200));
    assert_eq!(verify_token(&token, Some(&key), NOW), Err(AuthError::Expired));
}

#[test]
fn expiration_within_leeway_is_accepted() {
    let (secret, public) = test_keypair();
    let key = public.serialize().to_vec();
    let token = signed_token(&secret, "t", Some(NOW - 30), Some(NOW - 7200));
    assert!(verify_token(&token, Some(&key), NOW).is_ok());
    let token = signed_token(&secret, "t", Some(NOW - 61), Some(NOW - 7200));
    assert_eq!(verify_token(&token, Some(&key), NOW), Err(AuthError::Expired));
}

#[test]
fn not_yet_valid_token_is_rejected() {
    let (secret, public) = test_keypair();
    let key = public.serialize().to_vec();
    let token = signed_token(&secret, "t", Some(NOW + 7200), Some(NOW + 3600));
    assert_eq!(
        verify_token(&token, Some(&key), NOW),
        Err(AuthError::NotYetValid)
    );
}

#[test]
fn missing_temporal_claims_are_rejected() {
    let (secret, public) = test_keypair();
    let key = public.serialize().to_vec();
    let token = signed_token(&secret, "t", None, Some(NOW - 10));
    assert_eq!(
        verify_token(&token, Some(&key), NOW),
        Err(AuthError::MissingExpiration)
    );
    let token = signed_token(&secret, "t", Some(NOW + 3600), None);
    assert_eq!(
        verify_token(&token, Some(&key), NOW),
        Err(AuthError::MissingNotBefore)
    );
}

#[test]
fn garbage_token_is_rejected() {
    let (_, public) = test_keypair();
    let key = public.serialize().to_vec();
    assert_eq!(
        verify_token("not.a.token", Some(&key), NOW),
        Err(AuthError::InvalidToken)
    );
    assert_eq!(verify_token("", Some(&key), NOW), Err(AuthError::InvalidToken));
}

#[test]
fn token_signed_with_another_key_is_rejected() {
    let (secret, _) = test_keypair();
    let other_secret = SecretKey::from_slice(&[0x24; 32]).unwrap();
    let other_public = PublicKey::from_secret_key(&Secp256k1::new(), &other_secret);
    let key = other_public.serialize().to_vec();
    let token = signed_token(&secret, "t", Some(NOW + 3600), Some(NOW - 3600));
    assert_eq!(
        verify_token(&token, Some(&key), NOW),
        Err(AuthError::InvalidToken)
    );
}

#[test]
fn no_configured_key_means_unauthenticated() {
    let (secret, _) = test_keypair();
    let token = signed_token(&secret, "t", Some(NOW + 3600), Some(NOW - 3600));
    assert_eq!(verify_token(&token, None, NOW), Ok(None));
    assert_eq!(verify_token("garbage", None, NOW), Ok(None));
}

#[test]
fn auth_key_parses_from_hex() {
    let (_, public) = test_keypair();
    let hex_key = hex::encode(public.serialize());
    let parsed = parse_auth_key(&hex_key).unwrap();
    assert_eq!(parsed, public.serialize().to_vec());
}

#[test]
fn auth_key_rejects_bad_input() {
    assert_eq!(parse_auth_key("zz"), Err(ConfigError::KeyNotHex));
    assert_eq!(parse_auth_key("abc"), Err(ConfigError::KeyNotHex));
    let all_zero = "00".repeat(33);
    assert_eq!(
        parse_auth_key(&all_zero),
        Err(ConfigError::KeyNotAPublicKey)
    );
}

#[test]
fn reconcile_adopts_credential_tenant() {
    let r = reconcile_store_id(None, Some("t1".to_string()));
    assert_eq!(r.unwrap(), "t1");
}

#[test]
fn reconcile_requires_matching_tenants() {
    let r = reconcile_store_id(Some("t1".to_string()), Some("t1".to_string()));
    assert_eq!(r.unwrap(), "t1");
    let r = reconcile_store_id(Some("t1".to_string()), Some("t2".to_string()));
    assert_eq!(r, Err(AuthError::StoreIdMismatch));
}

#[test]
fn reconcile_requires_some_tenant() {
    assert_eq!(reconcile_store_id(None, None), Err(AuthError::MissingStoreId));
    let r = reconcile_store_id(Some("t9".to_string()), None);
    assert_eq!(r.unwrap(), "t9");
}

#[test]
fn auth_error_messages_are_nonempty() {
    assert!(AuthError::InvalidToken.message().starts_with("Unauthorized"));
    assert!(AuthError::Expired.message().starts_with("Unauthorized"));
    assert_eq!(
        AuthError::MissingStoreId.message(),
        "Unauthorized: store_id required"
    );
    assert_eq!(
        AuthError::StoreIdMismatch.message(),
        "Unauthorized: store_id mismatch"
    );
    assert_eq!(
        AuthError::MissingCredential.message(),
        "Unauthorized: credential required"
    );
}
