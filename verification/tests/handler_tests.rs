use jwt_compact::alg::Es256k;
use jwt_compact::{AlgorithmExt, Claims, Header};
use secp256k1::{PublicKey, Secp256k1, SecretKey};
use sha2::Sha256;
use vss::auth::AuthError;
use vss::handlers::{
    get_object, get_object_impl, get_object_v2, health_check, list_key_versions,
    list_key_versions_impl, put_objects, put_objects_impl, GetObjectRequest, HealthResponse,
    ListKeyVersionsRequest, PutObjectsRequest, ServiceError,
};
use vss::origin::RequestOrigin;
use vss::record::{WireKeyValue, WireValue};
use vss::store::{MemStore, VssBackend};

const NOW: i64 = 1_700_000_000;

fn test_keypair() -> (SecretKey, PublicKey) {
    let secret = SecretKey::from_slice(&[0x42; 32]).unwrap();
    let public = PublicKey::from_secret_key(&Secp256k1::new(), &secret);
    (secret, public)
}

fn signed_token_for(tenant: &str) -> (String, Vec<u8>) {
    let (secret, public) = test_keypair();
    let mut map = serde_json::Map::new();
    map.insert(
        "sub".to_string(),
        serde_json::Value::String(tenant.to_string()),
    );
    let mut claims = Claims::new(serde_json::Value::Object(map));
    claims.expiration = chrono::DateTime::from_timestamp(NOW + 3600, 0);
    claims.not_before = chrono::DateTime::from_timestamp(NOW - 3600, 0);
    let alg = Es256k::<Sha256>::default();
    let token = alg.token(&Header::empty(), &claims, &secret).unwrap();
    (token, public.serialize().to_vec())
}

fn wire_bytes(key: &str, value: &[u8], version: i64) -> WireKeyValue {
    WireKeyValue {
        key: key.to_string(),
        value: WireValue::Bytes(value.to_vec()),
        version,
    }
}

#[test]
fn health_check_reports_liveness() {
    let r: HealthResponse = health_check();
    assert_eq!(r.status, "pass");
    assert_eq!(r.version, "v2");
}

#[test]
fn put_then_get_end_to_end_with_token() {
    let (token, key_bytes) = signed_token_for("t1");
    let mut store = MemStore::new();
    let origin = RequestOrigin::Named("https://app.mutinywallet.com".to_string());

    let put_req = PutObjectsRequest {
        store_id: Some("t1".to_string()),
        global_version: None,
        transaction_items: vec![wire_bytes("a", &[10, 20, 30], 1)],
    };
    put_objects(
        &mut store,
        Some(&key_bytes),
        false,
        &origin,
        Some(&token),
        NOW,
        put_req,
    )
    .unwrap();

    let get_req = GetObjectRequest {
        store_id: None,
        key: "a".to_string(),
    };
    let got = get_object_v2(
        &store,
        Some(&key_bytes),
        false,
        &origin,
        Some(&token),
        NOW,
        get_req,
    )
    .unwrap()
    .unwrap();
    assert_eq!(got.key, "a");
    assert_eq!(got.value, vec![10, 20, 30]);
    assert_eq!(got.version, 1);
}

#[test]
fn legacy_get_returns_base64_text() {
    let mut store = MemStore::new();
    store.put_item("t1", "a", b"hello world", 5);
    let got = get_object(
        &store,
        None,
        false,
        &RequestOrigin::Absent,
        None,
        NOW,
        GetObjectRequest {
            store_id: Some("t1".to_string()),
            key: "a".to_string(),
        },
    )
    .unwrap()
    .unwrap();
    assert_eq!(got.value, "aGVsbG8gd29ybGQ=");
    assert_eq!(got.version, 5);
}

#[test]
fn get_of_missing_key_is_empty_not_an_error() {
    let store = MemStore::new();
    let r = get_object_v2(
        &store,
        None,
        false,
        &RequestOrigin::Absent,
        None,
        NOW,
        GetObjectRequest {
            store_id: Some("t1".to_string()),
            key: "nope".to_string(),
        },
    );
    assert_eq!(r.unwrap().is_none(), true);
}

#[test]
fn disallowed_origin_is_reported_as_not_found() {
    let store = MemStore::new();
    let origin = RequestOrigin::Named("https://evil.example.com".to_string());
    let r = get_object_v2(
        &store,
        None,
        false,
        &origin,
        None,
        NOW,
        GetObjectRequest {
            store_id: Some("t1".to_string()),
            key: "a".to_string(),
        },
    );
    assert_eq!(r, Err(ServiceError::OriginRejected));
    assert_eq!(ServiceError::OriginRejected.status_code(), 404);
    assert_eq!(ServiceError::OriginRejected.message(), "");
}

#[test]
fn self_hosted_mode_accepts_any_origin() {
    let mut store = MemStore::new();
    store.put_item("t1", "a", &[1], 1);
    let origin = RequestOrigin::Named("https://evil.example.com".to_string());
    let r = get_object_v2(
        &store,
        None,
        true,
        &origin,
        None,
        NOW,
        GetObjectRequest {
            store_id: Some("t1".to_string()),
            key: "a".to_string(),
        },
    );
    assert!(r.unwrap().is_some());
}

#[test]
fn tenant_mismatch_between_token_and_payload_is_unauthorized() {
    let (token, key_bytes) = signed_token_for("t1");
    let mut store = MemStore::new();
    let r = put_objects(
        &mut store,
        Some(&key_bytes),
        false,
        &RequestOrigin::Absent,
        Some(&token),
        NOW,
        PutObjectsRequest {
            store_id: Some("t2".to_string()),
            global_version: None,
            transaction_items: vec![wire_bytes("a", &[1], 1)],
        },
    );
    assert_eq!(
        r,
        Err(ServiceError::Unauthorized(AuthError::StoreIdMismatch))
    );
    assert!(store.get_item("t1", "a").is_none());
    assert!(store.get_item("t2", "a").is_none());
}

#[test]
fn anonymous_request_is_rejected_when_a_key_is_configured() {
    let (_, key_bytes) = signed_token_for("t1");
    let mut store = MemStore::new();
    store.put_item("t1", "a", &[1], 1);
    let r = get_object_v2(
        &store,
        Some(&key_bytes),
        false,
        &RequestOrigin::Absent,
        None,
        NOW,
        GetObjectRequest {
            store_id: Some("t1".to_string()),
            key: "a".to_string(),
        },
    );
    assert_eq!(
        r,
        Err(ServiceError::Unauthorized(AuthError::MissingCredential))
    );

    let w = put_objects(
        &mut store,
        Some(&key_bytes),
        false,
        &RequestOrigin::Absent,
        None,
        NOW,
        PutObjectsRequest {
            store_id: Some("t1".to_string()),
            global_version: None,
            transaction_items: vec![wire_bytes("b", &[2], 2)],
        },
    );
    assert_eq!(
        w,
        Err(ServiceError::Unauthorized(AuthError::MissingCredential))
    );
    assert!(store.get_item("t1", "b").is_none());
}

#[test]
fn missing_tenant_everywhere_is_unauthorized() {
    let store = MemStore::new();
    let r = get_object_v2(
        &store,
        None,
        false,
        &RequestOrigin::Absent,
        None,
        NOW,
        GetObjectRequest {
            store_id: None,
            key: "a".to_string(),
        },
    );
    assert_eq!(
        r,
        Err(ServiceError::Unauthorized(AuthError::MissingStoreId))
    );
    assert_eq!(
        ServiceError::Unauthorized(AuthError::MissingStoreId).status_code(),
        401
    );
}

#[test]
fn malformed_batch_item_aborts_the_whole_batch() {
    let mut store = MemStore::new();
    store.put_item("t1", "existing", &[0], 0);
    let r = put_objects(
        &mut store,
        None,
        false,
        &RequestOrigin::Absent,
        None,
        NOW,
        PutObjectsRequest {
            store_id: Some("t1".to_string()),
            global_version: None,
            transaction_items: vec![
                wire_bytes("good_one", &[1], 1),
                WireKeyValue {
                    key: "bad".to_string(),
                    value: WireValue::Text("%%%not-base64%%%".to_string()),
                    version: 2,
                },
                wire_bytes("good_two", &[3], 3),
            ],
        },
    );
    assert_eq!(r, Err(ServiceError::MalformedValue));
    assert_eq!(ServiceError::MalformedValue.status_code(), 400);
    assert!(store.get_item("t1", "good_one").is_none());
    assert!(store.get_item("t1", "bad").is_none());
    assert!(store.get_item("t1", "good_two").is_none());
    assert!(store.get_item("t1", "existing").is_some());
}

#[test]
fn empty_batch_is_a_no_op_success() {
    let mut store = MemStore::new();
    let r = put_objects(
        &mut store,
        None,
        false,
        &RequestOrigin::Absent,
        None,
        NOW,
        PutObjectsRequest {
            store_id: Some("t1".to_string()),
            global_version: None,
            transaction_items: Vec::new(),
        },
    );
    assert_eq!(r, Ok(()));
    assert!(store.list_key_versions("t1", None).is_empty());
}

#[test]
fn base64_text_items_store_their_decoded_bytes() {
    let mut store = MemStore::new();
    let r = put_objects(
        &mut store,
        None,
        false,
        &RequestOrigin::Absent,
        None,
        NOW,
        PutObjectsRequest {
            store_id: Some("t1".to_string()),
            global_version: None,
            transaction_items: vec![WireKeyValue {
                key: "enc".to_string(),
                value: WireValue::Text("aGVsbG8gd29ybGQ=".to_string()),
                version: 7,
            }],
        },
    );
    assert_eq!(r, Ok(()));
    let item = store.get_item("t1", "enc").unwrap();
    assert_eq!(item.value.unwrap(), b"hello world".to_vec());
}

#[test]
fn list_handler_filters_by_prefix_case_insensitively() {
    let mut store = MemStore::new();
    store.put_item("t1", "kv_test", &[1], 0);
    store.put_item("t1", "other_kv_test", &[1], 0);
    store.put_item("t2", "kv_foreign", &[1], 0);

    let r = list_key_versions(
        &store,
        None,
        false,
        &RequestOrigin::Absent,
        None,
        NOW,
        ListKeyVersionsRequest {
            store_id: Some("t1".to_string()),
            key_prefix: Some("KV".to_string()),
            page_size: None,
            page_token: None,
        },
    )
    .unwrap();
    assert_eq!(r.len(), 1);
    assert_eq!(r[0].0, "kv_test");
}

#[test]
fn impl_functions_serve_resolved_requests() {
    let mut store = MemStore::new();
    let r = put_objects_impl(
        PutObjectsRequest {
            store_id: Some("t".to_string()),
            global_version: None,
            transaction_items: vec![wire_bytes("x", &[1, 2], 4)],
        },
        &mut store,
    );
    assert_eq!(r, Ok(()));

    let got = get_object_impl(
        GetObjectRequest {
            store_id: Some("t".to_string()),
            key: "x".to_string(),
        },
        &store,
    )
    .unwrap();
    assert_eq!(got.value, vec![1, 2]);
    assert_eq!(got.version, 4);

    let listed = list_key_versions_impl(
        ListKeyVersionsRequest {
            store_id: Some("t".to_string()),
            key_prefix: None,
            page_size: None,
            page_token: None,
        },
        &store,
    );
    assert_eq!(listed, vec![("x".to_string(), 4)]);
}
