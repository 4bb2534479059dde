//! Tenant authorization: a signed bearer credential carries the tenant
//! identifier as its subject, plus expiration and not-before claims. The
//! signature check is delegated to the ES256K validator; the temporal check
//! and the reconciliation of the credential's tenant with the payload's are
//! verified here.

use vstd::prelude::*;

verus! {

/// Temporal tolerance, in seconds, applied to the expiration and not-before
/// claims: the validator's documented default leeway.
pub const TEMPORAL_LEEWAY: i64 = 60;

/// Failures of authorization: a token that does not verify, temporal claims
/// that are missing or out of range, and tenant reconciliation failures.
#[derive(Debug, Clone, Copy, PartialEq, Eq, Structural)]
pub enum AuthError {
    /// A verification key is configured but the request presents no
    /// credential.
    MissingCredential,
    /// Malformed token structure or a signature that does not verify.
    InvalidToken,
    /// The token carries no expiration claim.
    MissingExpiration,
    /// The expiration lies in the past.
    Expired,
    /// The token carries no not-before claim.
    MissingNotBefore,
    /// The not-before time lies in the future.
    NotYetValid,
    /// Neither the credential nor the payload names a tenant.
    MissingStoreId,
    /// The credential and the payload name different tenants.
    StoreIdMismatch,
}

/// The description each authorization failure carries.
pub open spec fn spec_auth_message(e: AuthError) -> Seq<char> {
    match e {
        AuthError::MissingCredential => "Unauthorized: credential required"@,
        AuthError::InvalidToken => "Unauthorized: invalid token"@,
        AuthError::MissingExpiration => "Unauthorized: token has no expiration"@,
        AuthError::Expired => "Unauthorized: token expired"@,
        AuthError::MissingNotBefore => "Unauthorized: token has no not-before time"@,
        AuthError::NotYetValid => "Unauthorized: token not yet valid"@,
        AuthError::MissingStoreId => "Unauthorized: store_id required"@,
        AuthError::StoreIdMismatch => "Unauthorized: store_id mismatch"@,
    }
}

impl AuthError {
    /// Short description of the failure.
    pub fn message(&self) -> (r: &'static str)
        ensures
            r@ == spec_auth_message(*self),
    {
        match self {
            AuthError::MissingCredential => "Unauthorized: credential required",
            AuthError::InvalidToken => "Unauthorized: invalid token",
            AuthError::MissingExpiration => "Unauthorized: token has no expiration",
            AuthError::Expired => "Unauthorized: token expired",
            AuthError::MissingNotBefore => "Unauthorized: token has no not-before time",
            AuthError::NotYetValid => "Unauthorized: token not yet valid",
            AuthError::MissingStoreId => "Unauthorized: store_id required",
            AuthError::StoreIdMismatch => "Unauthorized: store_id mismatch",
        }
    }
}

/// Claims extracted from a verified token: the tenant identifier, and the
/// standard temporal claims as unix timestamps.
pub struct TokenClaims {
    pub sub: String,
    pub exp: Option<i64>,
    pub nbf: Option<i64>,
}

/// A timestamp option, as specifications see it.
pub open spec fn opt_ts(o: Option<i64>) -> Option<int> {
    match o {
        Some(v) => Some(v as int),
        None => None,
    }
}

/// Spec-level image of a claims value.
pub open spec fn claims_model(c: TokenClaims) -> (Seq<char>, Option<int>, Option<int>) {
    (c.sub@, opt_ts(c.exp), opt_ts(c.nbf))
}

/// The claims a token carries exactly when the key bytes parse, the token's
/// structure parses, it names the ES256K algorithm, its signature verifies
/// against the key, and its subject claim is a string; nothing otherwise.
pub uninterp spec fn es256k_claims(token: Seq<char>, key: Seq<u8>) -> Option<
    (Seq<char>, Option<int>, Option<int>),
>;

/// Relies on jwt_compact's `Es256k::<Sha256>` validator, with the key parsed
/// by secp256k1's `PublicKey::from_slice`: the claims come back exactly when
/// the key bytes parse, the token parses, it names the ES256K algorithm, and
/// its signature verifies against the key; the outcome is a function of the
/// token text and the key bytes alone. The subject claim must be a string,
/// as it is the tenant identifier.
#[verifier::external_body]
fn decode_verified_claims(token: &str, key: &Vec<u8>) -> (r: Option<TokenClaims>)
    ensures
        match r {
            Some(c) => es256k_claims(token@, key@) == Some(claims_model(c)),
            None => es256k_claims(token@, key@) is None,
        },
{
    let key = secp256k1::PublicKey::from_slice(key).ok()?;
    let alg = jwt_compact::alg::Es256k::<sha2::Sha256>::default();
    let untrusted = jwt_compact::UntrustedToken::new(token).ok()?;
    let checked: jwt_compact::Token<serde_json::Map<String, serde_json::Value>> =
        jwt_compact::AlgorithmExt::validator(&alg, &key).validate(&untrusted).ok()?;
    let claims = checked.claims();
    let sub = claims.custom.get("sub")?.as_str()?.to_string();
    Some(TokenClaims {
        sub,
        exp: claims.expiration.map(|t| t.timestamp()),
        nbf: claims.not_before.map(|t| t.timestamp()),
    })
}

/// The outcome of checking one token against the key at one moment: the
/// subject, or the first failure in the order the checks run.
pub open spec fn spec_token_check(token: Seq<char>, key: Seq<u8>, now: int) -> Result<
    Seq<char>,
    AuthError,
> {
    match es256k_claims(token, key) {
        None => Err(AuthError::InvalidToken),
        Some(c) => if c.1 is None {
            Err(AuthError::MissingExpiration)
        } else if !(now <= c.1->0 + TEMPORAL_LEEWAY) {
            Err(AuthError::Expired)
        } else if c.2 is None {
            Err(AuthError::MissingNotBefore)
        } else if !(c.2->0 - TEMPORAL_LEEWAY <= now) {
            Err(AuthError::NotYetValid)
        } else {
            Ok(c.0)
        },
    }
}

/// Verifies a bearer token and extracts the tenant identifier it authorizes.
/// With no key configured the deployment is unauthenticated and every token
/// yields no tenant. With a key, the token must parse, its signature must
/// verify, and the current time must lie within its temporal claims, with
/// the documented leeway.
pub fn verify_token(token: &str, auth_key: Option<&Vec<u8>>, now: i64) -> (r: Result<
    Option<String>,
    AuthError,
>)
    ensures
        match auth_key {
            None => r matches Ok(s) && s is None,
            Some(k) => match r {
                Ok(s) => s matches Some(sub) && spec_token_check(token@, k@, now as int)
                    == Ok::<Seq<char>, AuthError>(sub@),
                Err(e) => spec_token_check(token@, k@, now as int) == Err::<
                    Seq<char>,
                    AuthError,
                >(e),
            },
        },
{
    let key = match auth_key {
        None => {
            return Ok(None);
        },
        Some(k) => k,
    };
    let claims = match decode_verified_claims(token, key) {
        None => {
            return Err(AuthError::InvalidToken);
        },
        Some(c) => c,
    };
    match claims.exp {
        None => {
            return Err(AuthError::MissingExpiration);
        },
        Some(e) => {
            if !((now as i128) <= (e as i128) + (TEMPORAL_LEEWAY as i128)) {
                return Err(AuthError::Expired);
            }
        },
    }
    match claims.nbf {
        None => {
            return Err(AuthError::MissingNotBefore);
        },
        Some(n) => {
            if !((n as i128) - (TEMPORAL_LEEWAY as i128) <= (now as i128)) {
                return Err(AuthError::NotYetValid);
            }
        },
    }
    Ok(Some(claims.sub))
}

/// Reconciles the tenant named by the credential with the tenant named by
/// the payload: the credential's tenant is adopted when the payload has
/// none, both must agree when both are present, and with no credential —
/// which admission allows only when authorization is disabled entirely —
/// the payload's tenant is trusted as-is; a tenant is mandatory.
pub fn reconcile_store_id(payload_store_id: Option<String>, token_store_id: Option<String>) -> (r:
    Result<String, AuthError>)
    ensures
        match (payload_store_id, token_store_id) {
            (None, None) => r == Err::<String, AuthError>(AuthError::MissingStoreId),
            (None, Some(t)) => r == Ok::<String, AuthError>(t),
            (Some(p), None) => r == Ok::<String, AuthError>(p),
            (Some(p), Some(t)) => if p@ == t@ {
                r == Ok::<String, AuthError>(p)
            } else {
                r == Err::<String, AuthError>(AuthError::StoreIdMismatch)
            },
        },
{
    match (payload_store_id, token_store_id) {
        (None, None) => Err(AuthError::MissingStoreId),
        (None, Some(t)) => Ok(t),
        (Some(p), None) => Ok(p),
        (Some(p), Some(t)) => {
            if p == t {
                Ok(p)
            } else {
                Err(AuthError::StoreIdMismatch)
            }
        },
    }
}

/// An expired credential is rejected regardless of signature validity: when
/// the token's signature does not verify the check fails, and when it does
/// verify but the expiration lies further in the past than the leeway, the
/// check fails as well.
pub proof fn lemma_expired_rejected(token: Seq<char>, key: Seq<u8>, now: int)
    requires
        match es256k_claims(token, key) {
            Some(c) => match c.1 {
                Some(e) => now > e + TEMPORAL_LEEWAY,
                None => true,
            },
            None => true,
        },
    ensures
        spec_token_check(token, key, now) is Err,
{
}

/// Value of one hex digit, either case.
pub open spec fn hex_val(c: char) -> Option<int> {
    if '0' <= c && c <= '9' {
        Some((c as u8) - 48)
    } else if 'a' <= c && c <= 'f' {
        Some((c as u8) - 87)
    } else if 'A' <= c && c <= 'F' {
        Some((c as u8) - 55)
    } else {
        None
    }
}

/// Bytes denoted by a hex string: two digits to a byte; an odd length or a
/// character that is no hex digit denotes nothing.
pub open spec fn spec_hex_decoded(s: Seq<char>) -> Option<Seq<u8>>
    decreases s.len(),
{
    if s.len() % 2 != 0 {
        None
    } else if s.len() == 0 {
        Some(Seq::<u8>::empty())
    } else {
        match (hex_val(s[0]), hex_val(s[1]), spec_hex_decoded(s.skip(2))) {
            (Some(h), Some(l), Some(rest)) => Some(seq![(h * 16 + l) as u8] + rest),
            _ => None,
        }
    }
}

/// Parses one hex digit, either case.
fn hex_val_exec(c: char) -> (r: Option<u8>)
    ensures
        match r {
            Some(v) => hex_val(c) == Some(v as int) && v < 16,
            None => hex_val(c) is None,
        },
{
    if '0' <= c && c <= '9' {
        Some((c as u8) - 48)
    } else if 'a' <= c && c <= 'f' {
        Some((c as u8) - 87)
    } else if 'A' <= c && c <= 'F' {
        Some((c as u8) - 55)
    } else {
        None
    }
}

/// Decodes an even-length string of hex digits, either case, two digits to
/// a byte; anything else is rejected.
fn hex_decode(s: &str) -> (r: Option<Vec<u8>>)
    ensures
        match r {
            Some(v) => spec_hex_decoded(s@) == Some(v@),
            None => spec_hex_decoded(s@) is None,
        },
{
    let len = s.unicode_len();
    if len % 2 != 0 {
        return None;
    }
    let mut out: Vec<u8> = Vec::new();
    let mut i: usize = 0;
    proof {
        assert(s@.skip(0) =~= s@);
        match spec_hex_decoded(s@) {
            Some(rest) => {
                assert(Seq::<u8>::empty() + rest =~= rest);
            },
            None => {},
        }
    }
    while i < len
        invariant
            len == s@.len(),
            len % 2 == 0,
            i % 2 == 0,
            i <= len,
            spec_hex_decoded(s@) == (match spec_hex_decoded(s@.skip(i as int)) {
                Some(rest) => Some(out@ + rest),
                None => None::<Seq<u8>>,
            }),
        decreases len - i,
    {
        proof {
            let rest = s@.skip(i as int);
            assert(rest[0] == s@[i as int]);
            assert(rest[1] == s@[i + 1]);
            assert(rest.skip(2) =~= s@.skip(i + 2));
        }
        let hi = match hex_val_exec(s.get_char(i)) {
            Some(h) => h,
            None => {
                return None;
            },
        };
        let lo = match hex_val_exec(s.get_char(i + 1)) {
            Some(l) => l,
            None => {
                return None;
            },
        };
        let b: u8 = hi * 16 + lo;
        let ghost old_out = out@;
        out.push(b);
        proof {
            match spec_hex_decoded(s@.skip(i + 2)) {
                Some(tail) => {
                    assert((old_out + seq![b]) + tail =~= old_out + (seq![b] + tail));
                },
                None => {},
            }
        }
        i = i + 2;
    }
    proof {
        assert(s@.skip(len as int) =~= Seq::<char>::empty());
        assert(out@ + Seq::<u8>::empty() =~= out@);
    }
    Some(out)
}

/// Whether the bytes are a valid encoding of a secp256k1 public key.
pub uninterp spec fn spec_valid_public_key(b: Seq<u8>) -> bool;

/// Relies on secp256k1's `PublicKey::from_slice`: acceptance is a function
/// of the bytes alone.
#[verifier::external_body]
fn public_key_valid(b: &Vec<u8>) -> (r: bool)
    ensures
        r == spec_valid_public_key(b@),
{
    secp256k1::PublicKey::from_slice(b).is_ok()
}

/// Failures of loading the verification key from configuration.
#[derive(Debug, Clone, Copy, PartialEq, Eq, Structural)]
pub enum ConfigError {
    /// The configured key is not a hex string.
    KeyNotHex,
    /// The configured bytes are no valid public key.
    KeyNotAPublicKey,
}

/// Parses the hex-encoded verification key configured at service start and
/// checks that it encodes a valid public key; the resulting bytes are what
/// `verify_token` verifies against.
pub fn parse_auth_key(hex_str: &str) -> (r: Result<Vec<u8>, ConfigError>)
    ensures
        match r {
            Ok(v) => spec_hex_decoded(hex_str@) == Some(v@) && spec_valid_public_key(v@),
            Err(e) => match e {
                ConfigError::KeyNotHex => spec_hex_decoded(hex_str@) is None,
                ConfigError::KeyNotAPublicKey => spec_hex_decoded(hex_str@) matches Some(v)
                    && !spec_valid_public_key(v),
            },
        },
{
    match hex_decode(hex_str) {
        None => Err(ConfigError::KeyNotHex),
        Some(bytes) => {
            if public_key_valid(&bytes) {
                Ok(bytes)
            } else {
                Err(ConfigError::KeyNotAPublicKey)
            }
        },
    }
}

} // verus!
