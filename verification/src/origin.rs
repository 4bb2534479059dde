//! Cross-origin allow-list: a fixed set of exact origins, one allowed
//! subdomain suffix, and one local-development prefix. Requests without an
//! origin, or with an explicit null origin, are treated as same-origin.

use vstd::prelude::*;
use crate::strutil::{str_eq, starts_with, ends_with, spec_starts_with, spec_ends_with};

verus! {

/// The origin named by an inbound request.
pub enum RequestOrigin {
    /// No origin indicated.
    Absent,
    /// An explicit null origin.
    Null,
    /// A concrete origin value.
    Named(String),
}

/// `o` is one of the fixed allowed origins.
pub open spec fn spec_allowed_origin_exact(o: Seq<char>) -> bool {
    ||| o == "https://app.mutinywallet.com"@
    ||| o == "capacitor://localhost"@
    ||| o == "https://signet-app.mutinywallet.com"@
    ||| o == "http://localhost:3420"@
    ||| o == "http://localhost"@
    ||| o == "https://localhost"@
}

/// `o` is approved: it is on the allow-list, or ends with the allowed
/// subdomain suffix, or starts with the local-development prefix.
pub open spec fn spec_valid_origin(o: Seq<char>) -> bool {
    ||| spec_allowed_origin_exact(o)
    ||| spec_ends_with(o, ".mutiny-web.pages.dev"@)
    ||| spec_starts_with(o, "http://127.0.0.1:"@)
}

/// An origin is approved when absent, explicitly null, or valid under
/// `spec_valid_origin`.
pub open spec fn spec_origin_approved(o: RequestOrigin) -> bool {
    match o {
        RequestOrigin::Absent => true,
        RequestOrigin::Null => true,
        RequestOrigin::Named(s) => spec_valid_origin(s@),
    }
}

/// Approves an origin string against the allow-list, the subdomain suffix,
/// and the local-development prefix.
pub fn valid_origin(origin: &str) -> (r: bool)
    ensures
        r == spec_valid_origin(origin@),
{
    str_eq(origin, "https://app.mutinywallet.com")
        || str_eq(origin, "capacitor://localhost")
        || str_eq(origin, "https://signet-app.mutinywallet.com")
        || str_eq(origin, "http://localhost:3420")
        || str_eq(origin, "http://localhost")
        || str_eq(origin, "https://localhost")
        || ends_with(origin, ".mutiny-web.pages.dev")
        || starts_with(origin, "http://127.0.0.1:")
}

/// Approves or rejects an inbound request's origin: absent and null origins
/// pass as same-origin, named origins must satisfy the allow-list.
pub fn validate_cors(origin: &RequestOrigin) -> (r: bool)
    ensures
        r == spec_origin_approved(*origin),
{
    match origin {
        RequestOrigin::Absent => true,
        RequestOrigin::Null => true,
        RequestOrigin::Named(s) => valid_origin(s.as_str()),
    }
}

} // verus!
