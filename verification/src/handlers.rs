//! Request handlers: each data operation validates the origin, authorizes
//! the bearer credential, reconciles the tenant identifier, and delegates to
//! the storage backend. Authorization and origin failures never reach the
//! backend.

use vstd::prelude::*;
use crate::auth::{verify_token, reconcile_store_id, AuthError, spec_token_check};
use crate::origin::{RequestOrigin, validate_cors, spec_origin_approved};
use crate::record::{
    KeyValue,
    KeyValueOld,
    WireKeyValue,
    decode_transaction_items,
    spec_decode_wire_value,
    b64_of,
};
use crate::store::{
    VssBackend,
    BatchEntry,
    spec_get,
    spec_put_batch,
    spec_prefix_sel,
    spec_next_tick,
    entry_of_kv,
};
use crate::strutil::{opt_str_view, opt_string_view, opt_vec_view};

verus! {

/// Failure of one request, as the transport reports it.
#[derive(Debug, Clone, Copy, PartialEq, Eq, Structural)]
pub enum ServiceError {
    /// The origin is not allowed; reported as absence of the endpoint so
    /// that disallowed origins cannot probe for it.
    OriginRejected,
    /// Authorization or tenant reconciliation failed.
    Unauthorized(AuthError),
    /// A transport record's value did not decode.
    MalformedValue,
}

impl ServiceError {
    /// The transport status code of this failure.
    pub fn status_code(&self) -> (r: u16)
        ensures
            r == spec_status_code(*self),
    {
        match self {
            ServiceError::OriginRejected => 404,
            ServiceError::Unauthorized(_) => 401,
            ServiceError::MalformedValue => 400,
        }
    }

    /// Short description of the failure; origin rejections carry none, so
    /// that disallowed origins learn nothing.
    pub fn message(&self) -> (r: &'static str)
        ensures
            r@ == spec_service_message(*self),
    {
        match self {
            ServiceError::OriginRejected => "",
            ServiceError::Unauthorized(e) => e.message(),
            ServiceError::MalformedValue => "Bad request: malformed transaction item",
        }
    }
}

/// The description each failure carries; origin rejections carry none.
pub open spec fn spec_service_message(e: ServiceError) -> Seq<char> {
    match e {
        ServiceError::OriginRejected => ""@,
        ServiceError::Unauthorized(a) => crate::auth::spec_auth_message(a),
        ServiceError::MalformedValue => "Bad request: malformed transaction item"@,
    }
}

/// The status code each failure maps to.
pub open spec fn spec_status_code(e: ServiceError) -> u16 {
    match e {
        ServiceError::OriginRejected => 404,
        ServiceError::Unauthorized(_) => 401,
        ServiceError::MalformedValue => 400,
    }
}

/// Request for one record.
pub struct GetObjectRequest {
    pub store_id: Option<String>,
    pub key: String,
}

/// Request to write a batch of records for one tenant. The global version
/// is accepted but not interpreted: writes are last-writer-wins.
pub struct PutObjectsRequest {
    pub store_id: Option<String>,
    pub global_version: Option<u64>,
    pub transaction_items: Vec<WireKeyValue>,
}

/// Request to list keys and versions for one tenant, optionally narrowed by
/// a case-insensitive key prefix. Pagination fields are accepted but not
/// interpreted: the full result set is returned.
pub struct ListKeyVersionsRequest {
    pub store_id: Option<String>,
    pub key_prefix: Option<String>,
    pub page_size: Option<i32>,
    pub page_token: Option<String>,
}

/// Liveness report.
pub struct HealthResponse {
    pub status: String,
    pub version: String,
}

impl HealthResponse {
    /// Fabricate a status: pass response without checking database connectivity
    pub fn new_ok() -> (r: Self)
        ensures
            r.status@ == "pass"@,
            r.version@ == "v2"@,
    {
        HealthResponse { status: "pass".to_owned(), version: "v2".to_owned() }
    }
}

/// Reports service liveness without touching the backend.
pub fn health_check() -> (r: HealthResponse)
    ensures
        r.status@ == "pass"@,
        r.version@ == "v2"@,
{
    HealthResponse::new_ok()
}

/// The tenant the credential authorizes. With no verification key
/// configured the deployment is unauthenticated and every request passes
/// without a tenant from this step. With a key configured, a credential is
/// mandatory and must check out.
pub open spec fn spec_authorize(
    auth_key: Option<Seq<u8>>,
    bearer: Option<Seq<char>>,
    now: int,
) -> Result<Option<Seq<char>>, AuthError> {
    match auth_key {
        None => Ok(None),
        Some(k) => match bearer {
            None => Err(AuthError::MissingCredential),
            Some(tok) => match spec_token_check(tok, k, now) {
                Ok(sub) => Ok(Some(sub)),
                Err(e) => Err(e),
            },
        },
    }
}

/// The credential's tenant reconciled with the payload's.
pub open spec fn spec_reconcile(
    payload: Option<Seq<char>>,
    credential: Option<Seq<char>>,
) -> Result<Seq<char>, AuthError> {
    match (payload, credential) {
        (None, None) => Err(AuthError::MissingStoreId),
        (None, Some(t)) => Ok(t),
        (Some(p), None) => Ok(p),
        (Some(p), Some(t)) => if p == t {
            Ok(p)
        } else {
            Err(AuthError::StoreIdMismatch)
        },
    }
}

/// The admission pipeline every data operation passes before it reaches
/// the backend: origin check (bypassed when self-hosted), token
/// verification, tenant reconciliation.
pub open spec fn spec_admission(
    self_hosted: bool,
    origin: RequestOrigin,
    auth_key: Option<Seq<u8>>,
    bearer: Option<Seq<char>>,
    payload_store_id: Option<Seq<char>>,
    now: int,
) -> Result<Seq<char>, ServiceError> {
    if !self_hosted && !spec_origin_approved(origin) {
        Err(ServiceError::OriginRejected)
    } else {
        match spec_authorize(auth_key, bearer, now) {
            Err(e) => Err(ServiceError::Unauthorized(e)),
            Ok(credential) => match spec_reconcile(payload_store_id, credential) {
                Err(e) => Err(ServiceError::Unauthorized(e)),
                Ok(t) => Ok(t),
            },
        }
    }
}

/// Runs the admission pipeline: origin, authorization, reconciliation;
/// yields the tenant every record of the request is scoped to.
fn resolve_tenant(
    self_hosted: bool,
    origin: &RequestOrigin,
    auth_key: Option<&Vec<u8>>,
    bearer: Option<&str>,
    payload_store_id: Option<String>,
    now: i64,
) -> (r: Result<String, ServiceError>)
    ensures
        match r {
            Ok(t) => spec_admission(
                self_hosted,
                *origin,
                opt_vec_view(auth_key),
                opt_str_view(bearer),
                opt_string_view(payload_store_id),
                now as int,
            ) == Ok::<Seq<char>, ServiceError>(t@),
            Err(e) => spec_admission(
                self_hosted,
                *origin,
                opt_vec_view(auth_key),
                opt_str_view(bearer),
                opt_string_view(payload_store_id),
                now as int,
            ) == Err::<Seq<char>, ServiceError>(e),
        },
{
    if !self_hosted && !validate_cors(origin) {
        return Err(ServiceError::OriginRejected);
    }
    let credential = match (auth_key, bearer) {
        (None, _) => None,
        (Some(_), None) => {
            return Err(ServiceError::Unauthorized(AuthError::MissingCredential));
        },
        (Some(_), Some(tok)) => match verify_token(tok, auth_key, now) {
            Ok(sub) => sub,
            Err(e) => {
                return Err(ServiceError::Unauthorized(e));
            },
        },
    };
    match reconcile_store_id(payload_store_id, credential) {
        Ok(t) => Ok(t),
        Err(e) => Err(ServiceError::Unauthorized(e)),
    }
}

/// What a get returns once a tenant is resolved: the record's bytes and
/// version, or nothing for a missing identity or a tombstone.
pub open spec fn spec_get_result(
    m: crate::store::StoreModel,
    t: Seq<char>,
    k: Seq<char>,
) -> Option<(Seq<u8>, i64)> {
    match spec_get(m, t, k) {
        None => None,
        Some(rec) => match rec.value {
            None => None,
            Some(bytes) => Some((bytes, rec.version)),
        },
    }
}

/// Fetches one record for an already-resolved tenant; a missing identity is
/// an explicit empty result, never an error.
pub fn get_object_impl<B: VssBackend>(req: GetObjectRequest, store: &B) -> (r: Option<KeyValue>)
    requires
        req.store_id is Some,
    ensures
        match r {
            Some(kv) => {
                &&& spec_get_result(store.model(), req.store_id->0@, req.key@) == Some(
                    (kv.value@, kv.version),
                )
                &&& kv.key@ == req.key@
            },
            None => spec_get_result(store.model(), req.store_id->0@, req.key@) is None,
        },
{
    let store_id = match req.store_id {
        Some(s) => s,
        None => {
            return vstd::pervasive::unreached();
        },
    };
    match store.get_item(store_id.as_str(), req.key.as_str()) {
        Some(item) => item.into_kv(),
        None => None,
    }
}

/// Serves a get in the legacy rendering: the value comes back as base64
/// text. Admission runs first; a missing record is an explicit empty result.
pub fn get_object<B: VssBackend>(
    store: &B,
    auth_key: Option<&Vec<u8>>,
    self_hosted: bool,
    origin: &RequestOrigin,
    bearer: Option<&str>,
    now: i64,
    req: GetObjectRequest,
) -> (r: Result<Option<KeyValueOld>, ServiceError>)
    ensures
        ({
            let gate = spec_admission(
                self_hosted,
                *origin,
                opt_vec_view(auth_key),
                opt_str_view(bearer),
                opt_string_view(req.store_id),
                now as int,
            );
            match r {
                Ok(res) => gate matches Ok(t) && match spec_get_result(store.model(), t, req.key@) {
                    None => res is None,
                    Some((bytes, version)) => res matches Some(old_kv) && {
                        &&& old_kv.key@ == req.key@
                        &&& old_kv.value@ == b64_of(bytes)
                        &&& old_kv.version == version
                    },
                },
                Err(e) => gate == Err::<Seq<char>, ServiceError>(e),
            }
        }),
{
    let GetObjectRequest { store_id, key } = req;
    let tenant = match resolve_tenant(self_hosted, origin, auth_key, bearer, store_id, now) {
        Ok(t) => t,
        Err(e) => {
            return Err(e);
        },
    };
    let inner = GetObjectRequest { store_id: Some(tenant), key };
    match get_object_impl(inner, store) {
        Some(kv) => Ok(Some(KeyValueOld::from_kv(kv))),
        None => Ok(None),
    }
}

/// Serves a get in the raw rendering: the value comes back as bytes.
/// Admission runs first; a missing record is an explicit empty result.
pub fn get_object_v2<B: VssBackend>(
    store: &B,
    auth_key: Option<&Vec<u8>>,
    self_hosted: bool,
    origin: &RequestOrigin,
    bearer: Option<&str>,
    now: i64,
    req: GetObjectRequest,
) -> (r: Result<Option<KeyValue>, ServiceError>)
    ensures
        ({
            let gate = spec_admission(
                self_hosted,
                *origin,
                opt_vec_view(auth_key),
                opt_str_view(bearer),
                opt_string_view(req.store_id),
                now as int,
            );
            match r {
                Ok(res) => gate matches Ok(t) && match spec_get_result(store.model(), t, req.key@) {
                    None => res is None,
                    Some((bytes, version)) => res matches Some(kv) && {
                        &&& kv.key@ == req.key@
                        &&& kv.value@ == bytes
                        &&& kv.version == version
                    },
                },
                Err(e) => gate == Err::<Seq<char>, ServiceError>(e),
            }
        }),
{
    let GetObjectRequest { store_id, key } = req;
    let tenant = match resolve_tenant(self_hosted, origin, auth_key, bearer, store_id, now) {
        Ok(t) => t,
        Err(e) => {
            return Err(e);
        },
    };
    let inner = GetObjectRequest { store_id: Some(tenant), key };
    Ok(get_object_impl(inner, store))
}

/// Writes the batch of an already-resolved request, without admission: the
/// transport decoding is all-or-nothing, an empty batch is a no-op success,
/// and a non-empty batch is applied atomically and in order under the
/// request's tenant.
pub fn put_objects_impl<B: VssBackend>(req: PutObjectsRequest, store: &mut B) -> (r: Result<
    (),
    ServiceError,
>)
    requires
        req.store_id is Some,
    ensures
        match r {
            Ok(u) => {
                &&& !spec_batch_malformed(req.transaction_items@)
                &&& if req.transaction_items@.len() == 0 {
                    final(store).model() == old(store).model() && final(store).tick() == old(store).tick()
                } else {
                    final(store).model() == spec_put_batch(
                        old(store).model(),
                        spec_request_batch(req.transaction_items@, req.store_id->0@),
                        old(store).tick(),
                    ) && final(store).tick() == spec_next_tick(old(store).tick())
                }
            },
            Err(e) => {
                &&& e == ServiceError::MalformedValue
                &&& spec_batch_malformed(req.transaction_items@)
                &&& final(store).model() == old(store).model()
                &&& final(store).tick() == old(store).tick()
            },
        },
{
    let PutObjectsRequest { store_id, global_version: _, transaction_items } = req;
    let tenant = match store_id {
        Some(t) => t,
        None => {
            return vstd::pervasive::unreached();
        },
    };
    let decoded = match decode_transaction_items(&transaction_items) {
        Some(d) => d,
        None => {
            return Err(ServiceError::MalformedValue);
        },
    };
    if decoded.len() == 0 {
        return Ok(());
    }
    let ghost entries = decoded@.map_values(|kv: KeyValue| entry_of_kv(tenant@, kv));
    store.put_items_in_store(tenant.as_str(), decoded);
    proof {
        assert(entries =~~= spec_request_batch(transaction_items@, tenant@));
    }
    Ok(())
}

/// Lists keys and versions of an already-resolved request, without
/// admission: exactly the tenant's keys matching the optional case-insensitive
/// prefix, each once, with its current version.
pub fn list_key_versions_impl<B: VssBackend>(req: ListKeyVersionsRequest, store: &B) -> (r: Vec<
    (String, i64),
>)
    requires
        req.store_id is Some,
    ensures
        forall|x: int| 0 <= x < r@.len() ==> {
            &&& store.model().contains_key((req.store_id->0@, #[trigger] r@[x].0@))
            &&& store.model()[(req.store_id->0@, r@[x].0@)].version == r@[x].1
            &&& spec_prefix_sel(opt_string_view(req.key_prefix), r@[x].0@)
        },
        forall|p: (Seq<char>, Seq<char>)|
            #[trigger] store.model().contains_key(p) && p.0 == req.store_id->0@ && spec_prefix_sel(
                opt_string_view(req.key_prefix),
                p.1,
            ) ==> exists|x: int| 0 <= x < r@.len() && #[trigger] r@[x].0@ == p.1,
        forall|x: int, y: int| 0 <= x < y < r@.len() ==> r@[x].0@ != r@[y].0@,
{
    let ListKeyVersionsRequest { store_id, key_prefix, page_size: _, page_token: _ } = req;
    let tenant = match store_id {
        Some(t) => t,
        None => {
            return vstd::pervasive::unreached();
        },
    };
    let prefix: Option<&str> = match &key_prefix {
        Some(p) => Some(p.as_str()),
        None => None,
    };
    store.list_key_versions(tenant.as_str(), prefix)
}

/// The batch a put request denotes once its tenant is resolved: each
/// transport record's decoded bytes under that tenant.
pub open spec fn spec_request_batch(items: Seq<WireKeyValue>, t: Seq<char>) -> Seq<BatchEntry> {
    items.map_values(
        |w: WireKeyValue| BatchEntry {
            store_id: t,
            key: w.key@,
            value: spec_decode_wire_value(w.value),
            version: w.version,
        },
    )
}

/// Some transport record of the batch is malformed.
pub open spec fn spec_batch_malformed(items: Seq<WireKeyValue>) -> bool {
    exists|i: int|
        0 <= i < items.len() && spec_decode_wire_value(#[trigger] items[i].value) is None
}

/// Writes a batch for one tenant. The transport decoding is all-or-nothing:
/// one malformed value fails the request and nothing is written. Admission
/// runs next; only then is the batch applied, atomically and in order. An
/// empty batch is a no-op success.
pub fn put_objects<B: VssBackend>(
    store: &mut B,
    auth_key: Option<&Vec<u8>>,
    self_hosted: bool,
    origin: &RequestOrigin,
    bearer: Option<&str>,
    now: i64,
    req: PutObjectsRequest,
) -> (r: Result<(), ServiceError>)
    ensures
        ({
            let gate = spec_admission(
                self_hosted,
                *origin,
                opt_vec_view(auth_key),
                opt_str_view(bearer),
                opt_string_view(req.store_id),
                now as int,
            );
            match r {
                Ok(u) => {
                    &&& !spec_batch_malformed(req.transaction_items@)
                    &&& gate is Ok
                    &&& if req.transaction_items@.len() == 0 {
                        final(store).model() == old(store).model() && final(store).tick() == old(store).tick()
                    } else {
                        final(store).model() == spec_put_batch(
                            old(store).model(),
                            spec_request_batch(req.transaction_items@, gate->Ok_0),
                            old(store).tick(),
                        ) && final(store).tick() == spec_next_tick(old(store).tick())
                    }
                },
                Err(e) => {
                    &&& final(store).model() == old(store).model()
                    &&& final(store).tick() == old(store).tick()
                    &&& if spec_batch_malformed(req.transaction_items@) {
                        e == ServiceError::MalformedValue
                    } else {
                        gate == Err::<Seq<char>, ServiceError>(e)
                    }
                },
            }
        }),
{
    let PutObjectsRequest { store_id, global_version: _, transaction_items } = req;
    let decoded = match decode_transaction_items(&transaction_items) {
        Some(d) => d,
        None => {
            return Err(ServiceError::MalformedValue);
        },
    };
    let tenant = match resolve_tenant(self_hosted, origin, auth_key, bearer, store_id, now) {
        Ok(t) => t,
        Err(e) => {
            return Err(e);
        },
    };
    if decoded.len() == 0 {
        return Ok(());
    }
    let ghost entries = decoded@.map_values(|kv: KeyValue| entry_of_kv(tenant@, kv));
    store.put_items_in_store(tenant.as_str(), decoded);
    proof {
        assert(entries =~~= spec_request_batch(transaction_items@, tenant@));
    }
    Ok(())
}

/// Lists keys and versions for one tenant, optionally narrowed by a
/// case-insensitive key prefix: exactly the tenant's matching keys, each
/// once, with its current version. Admission runs first.
pub fn list_key_versions<B: VssBackend>(
    store: &B,
    auth_key: Option<&Vec<u8>>,
    self_hosted: bool,
    origin: &RequestOrigin,
    bearer: Option<&str>,
    now: i64,
    req: ListKeyVersionsRequest,
) -> (r: Result<Vec<(String, i64)>, ServiceError>)
    ensures
        ({
            let gate = spec_admission(
                self_hosted,
                *origin,
                opt_vec_view(auth_key),
                opt_str_view(bearer),
                opt_string_view(req.store_id),
                now as int,
            );
            match r {
                Ok(out) => gate matches Ok(t) && {
                    &&& forall|x: int| 0 <= x < out@.len() ==> {
                        &&& store.model().contains_key((t, #[trigger] out@[x].0@))
                        &&& store.model()[(t, out@[x].0@)].version == out@[x].1
                        &&& spec_prefix_sel(opt_string_view(req.key_prefix), out@[x].0@)
                    }
                    &&& forall|p: (Seq<char>, Seq<char>)|
                        #[trigger] store.model().contains_key(p) && p.0 == t && spec_prefix_sel(
                            opt_string_view(req.key_prefix),
                            p.1,
                        ) ==> exists|x: int| 0 <= x < out@.len() && #[trigger] out@[x].0@ == p.1
                    &&& forall|x: int, y: int|
                        0 <= x < y < out@.len() ==> out@[x].0@ != out@[y].0@
                },
                Err(e) => gate == Err::<Seq<char>, ServiceError>(e),
            }
        }),
{
    let ListKeyVersionsRequest { store_id, key_prefix, page_size: _, page_token: _ } = req;
    let tenant = match resolve_tenant(self_hosted, origin, auth_key, bearer, store_id, now) {
        Ok(t) => t,
        Err(e) => {
            return Err(e);
        },
    };
    let prefix: Option<&str> = match &key_prefix {
        Some(p) => Some(p.as_str()),
        None => None,
    };
    Ok(store.list_key_versions(tenant.as_str(), prefix))
}

} // verus!
