//! The versioned key-value record and its two wire-level renderings: raw
//! bytes, and legacy base64 text. Both decode to the same canonical byte
//! sequence, and the conversion round-trips exactly.

use vstd::prelude::*;

verus! {

/// Base64 rendering of a byte sequence (standard alphabet, padded).
pub uninterp spec fn b64_of(bytes: Seq<u8>) -> Seq<char>;

/// Bytes recovered from base64 text, or nothing when the text is not a valid
/// encoding.
pub uninterp spec fn b64_decoded(text: Seq<char>) -> Option<Seq<u8>>;

/// Relies on `base64::encode` (standard alphabet, padded): the rendering is a
/// function of the input bytes alone, and `base64::decode` recovers exactly
/// those bytes from it.
#[verifier::external_body]
pub(crate) fn b64_encode(bytes: &Vec<u8>) -> (r: String)
    ensures
        r@ == b64_of(bytes@),
        b64_decoded(r@) == Some(bytes@),
{
    base64::encode(bytes)
}

/// Relies on `base64::decode` (standard alphabet, padded): success and the
/// recovered bytes are a function of the input text alone.
#[verifier::external_body]
pub(crate) fn b64_decode(text: &str) -> (r: Option<Vec<u8>>)
    ensures
        match r {
            Some(v) => b64_decoded(text@) == Some(v@),
            None => b64_decoded(text@) is None,
        },
{
    base64::decode(text).ok()
}

/// One record as a caller hands it in: an opaque byte value under a key, with
/// a caller-assigned version.
#[derive(Debug, Clone, PartialEq, Eq)]
pub struct KeyValue {
    pub key: String,
    pub value: Vec<u8>,
    pub version: i64,
}

impl KeyValue {
    /// Packs a key, raw bytes and a version into a record.
    pub fn new(key: String, value: Vec<u8>, version: i64) -> (r: KeyValue)
        ensures
            r.key@ == key@,
            r.value@ == value@,
            r.version == version,
    {
        KeyValue { key, value, version }
    }

    /// Decodes a legacy rendering back to raw bytes; fails exactly when the
    /// text is not valid base64.
    pub fn from_legacy(old: KeyValueOld) -> (r: Option<KeyValue>)
        ensures
            match r {
                Some(kv) => {
                    &&& b64_decoded(old.value@) == Some(kv.value@)
                    &&& kv.key@ == old.key@
                    &&& kv.version == old.version
                },
                None => b64_decoded(old.value@) is None,
            },
    {
        match b64_decode(old.value.as_str()) {
            Some(bytes) => Some(KeyValue { key: old.key, value: bytes, version: old.version }),
            None => None,
        }
    }
}

/// The legacy wire rendering of a record: the value as base64 text.
#[derive(Debug, Clone, PartialEq, Eq)]
pub struct KeyValueOld {
    pub key: String,
    pub value: String,
    pub version: i64,
}

impl KeyValueOld {
    /// Renders a record for the legacy wire format. Decoding the rendered
    /// text gives back exactly the record's bytes.
    pub fn from_kv(kv: KeyValue) -> (r: KeyValueOld)
        ensures
            r.key@ == kv.key@,
            r.version == kv.version,
            r.value@ == b64_of(kv.value@),
            b64_decoded(r.value@) == Some(kv.value@),
    {
        let value = b64_encode(&kv.value);
        KeyValueOld { key: kv.key, value, version: kv.version }
    }
}

/// A record value as the transport may carry it: raw bytes, or base64 text.
#[derive(Debug, Clone, PartialEq, Eq)]
pub enum WireValue {
    Bytes(Vec<u8>),
    Text(String),
}

/// One record as the transport carries it.
#[derive(Debug, Clone, PartialEq, Eq)]
pub struct WireKeyValue {
    pub key: String,
    pub value: WireValue,
    pub version: i64,
}

/// Canonical bytes of a transport value: raw bytes stand for themselves,
/// text must decode as base64.
pub open spec fn spec_decode_wire_value(v: WireValue) -> Option<Seq<u8>> {
    match v {
        WireValue::Bytes(b) => Some(b@),
        WireValue::Text(t) => b64_decoded(t@),
    }
}

/// Byte-for-byte copy of a byte vector.
pub fn copy_bytes(v: &Vec<u8>) -> (r: Vec<u8>)
    ensures
        r@ == v@,
{
    let mut out: Vec<u8> = Vec::new();
    let mut i: usize = 0;
    while i < v.len()
        invariant
            i <= v@.len(),
            out@ =~= v@.take(i as int),
        decreases v@.len() - i,
    {
        out.push(v[i]);
        i = i + 1;
        proof {
            assert(out@ =~= v@.take(i as int));
        }
    }
    proof {
        assert(out@ =~= v@);
    }
    out
}

/// Decodes one transport record; fails exactly when its value is malformed.
pub fn decode_wire_item(item: &WireKeyValue) -> (r: Option<KeyValue>)
    ensures
        match r {
            Some(kv) => {
                &&& spec_decode_wire_value(item.value) == Some(kv.value@)
                &&& kv.key@ == item.key@
                &&& kv.version == item.version
            },
            None => spec_decode_wire_value(item.value) is None,
        },
{
    let key = item.key.clone();
    match &item.value {
        WireValue::Bytes(bytes) => Some(KeyValue { key, value: copy_bytes(bytes), version: item.version }),
        WireValue::Text(text) => match b64_decode(text.as_str()) {
            Some(bytes) => Some(KeyValue { key, value: bytes, version: item.version }),
            None => None,
        },
    }
}

/// Decodes a whole transport batch, all-or-nothing: one malformed value
/// fails the batch.
pub fn decode_transaction_items(items: &Vec<WireKeyValue>) -> (r: Option<Vec<KeyValue>>)
    ensures
        match r {
            Some(out) => {
                &&& out@.len() == items@.len()
                &&& forall|i: int| 0 <= i < items@.len() ==> {
                    &&& spec_decode_wire_value(#[trigger] items@[i].value) == Some(out@[i].value@)
                    &&& out@[i].key@ == items@[i].key@
                    &&& out@[i].version == items@[i].version
                }
            },
            None => exists|i: int|
                0 <= i < items@.len()
                    && spec_decode_wire_value(#[trigger] items@[i].value) is None,
        },
{
    let mut out: Vec<KeyValue> = Vec::new();
    let mut idx: usize = 0;
    while idx < items.len()
        invariant
            idx <= items@.len(),
            out@.len() == idx,
            forall|i: int| 0 <= i < idx ==> {
                &&& spec_decode_wire_value(#[trigger] items@[i].value) == Some(out@[i].value@)
                &&& out@[i].key@ == items@[i].key@
                &&& out@[i].version == items@[i].version
            },
        decreases items@.len() - idx,
    {
        match decode_wire_item(&items[idx]) {
            Some(kv) => {
                out.push(kv);
            },
            None => {
                return None;
            },
        }
        idx = idx + 1;
    }
    Some(out)
}

} // verus!
