//! The backfill worker's logic: decoding legacy pages into persisted
//! records, the paging state machine, and the admin gate on the trigger.
//! Fetching pages from the remote source is outside work; a driver performs
//! each fetch and feeds the page back through these functions.

use vstd::prelude::*;
use vstd::arithmetic::div_mod::{lemma_basic_div, lemma_hoist_over_denominator};
use crate::record::b64_decoded;
use crate::store::{VssItem, BatchEntry, entry_of_item};

verus! {

/// One record as the legacy paginated source returns it: the value as
/// base64 text.
#[derive(Debug, Clone, PartialEq, Eq)]
pub struct Item {
    pub store_id: String,
    pub key: String,
    pub value: String,
    pub version: i64,
}

/// The batch one legacy page denotes: the records whose value decodes, in
/// order; a record that fails to decode is dropped and the run continues.
pub open spec fn spec_page_entries(items: Seq<Item>) -> Seq<BatchEntry>
    decreases items.len(),
{
    if items.len() == 0 {
        Seq::empty()
    } else {
        let init = spec_page_entries(items.drop_last());
        let it = items.last();
        match b64_decoded(it.value@) {
            Some(bytes) => init.push(
                BatchEntry { store_id: it.store_id@, key: it.key@, value: Some(bytes), version: it.version },
            ),
            None => init,
        }
    }
}

/// Decodes one legacy page into persisted records: records whose base64
/// value decodes are kept in order, the rest are dropped.
pub fn decode_page(items: &Vec<Item>) -> (r: Vec<VssItem>)
    ensures
        r@.map_values(|it: VssItem| entry_of_item(it)) == spec_page_entries(items@),
{
    let mut out: Vec<VssItem> = Vec::new();
    let mut i: usize = 0;
    while i < items.len()
        invariant
            i <= items@.len(),
            out@.map_values(|it: VssItem| entry_of_item(it)) =~= spec_page_entries(
                items@.take(i as int),
            ),
        decreases items@.len() - i,
    {
        let it = &items[i];
        proof {
            assert(items@.take(i + 1).drop_last() =~= items@.take(i as int));
            assert(items@.take(i + 1).last() == items@[i as int]);
        }
        match crate::record::b64_decode(it.value.as_str()) {
            Some(bytes) => {
                let item = VssItem {
                    store_id: it.store_id.clone(),
                    key: it.key.clone(),
                    value: Some(bytes),
                    version: it.version,
                    created_date: 0,
                    updated_date: 0,
                };
                out.push(item);
                proof {
                    assert(out@.map_values(|x: VssItem| entry_of_item(x)) =~= spec_page_entries(
                        items@.take(i + 1),
                    ));
                }
            },
            None => {
                proof {
                    assert(out@.map_values(|x: VssItem| entry_of_item(x)) =~= spec_page_entries(
                        items@.take(i + 1),
                    ));
                }
            },
        }
        i = i + 1;
    }
    proof {
        assert(items@.take(items@.len() as int) =~= items@);
    }
    out
}

/// The trigger's gate: the presented credential must equal the configured
/// admin secret exactly.
pub fn check_admin_key(token: &str, admin_key: &str) -> (r: bool)
    ensures
        r == (token@ == admin_key@),
{
    crate::strutil::str_eq(token, admin_key)
}

/// The offset the run fetches next, or nothing when the run is done: a page
/// shorter than the page size is the last one.
pub fn migration_step(offset: usize, limit: usize, page_len: usize) -> (r: Option<usize>)
    requires
        offset + limit <= usize::MAX,
    ensures
        r == (
        if page_len < limit {
            None::<usize>
        } else {
            Some((offset + limit) as usize)
        }),
{
    if page_len < limit {
        None
    } else {
        Some(offset + limit)
    }
}

/// How many records one fetch at `offset` returns from a source of `total`
/// records: a full page, or whatever is left.
pub open spec fn spec_page_len(total: nat, offset: nat, limit: nat) -> nat {
    if offset >= total {
        0
    } else if total - offset < limit {
        (total - offset) as nat
    } else {
        limit
    }
}

/// The number of page fetches a run makes over a source of `total` records
/// starting at `offset`: every full page is followed by another fetch; the
/// first short page ends the run.
pub open spec fn spec_fetch_count(total: nat, offset: nat, limit: nat) -> nat
    decreases
            (if offset <= total {
                (total - offset) as int
            } else {
                0
            }),
{
    if limit == 0 {
        1
    } else if spec_page_len(total, offset, limit) < limit {
        1
    } else {
        1 + spec_fetch_count(total, (offset + limit) as nat, limit)
    }
}

/// A run from offset `offset` fetches one page per full page-size chunk of
/// what remains, plus the final short page.
proof fn lemma_fetch_count_from(total: nat, offset: nat, limit: nat)
    requires
        0 < limit,
        offset <= total,
    ensures
        spec_fetch_count(total, offset, limit) == (total - offset) / (limit as int) + 1,
    decreases total - offset,
{
    let rem = (total - offset) as int;
    if spec_page_len(total, offset, limit) < limit {
        assert(rem < limit);
        lemma_basic_div(rem, limit as int);
    } else {
        lemma_fetch_count_from(total, (offset + limit) as nat, limit);
        lemma_hoist_over_denominator(rem - limit, 1, limit);
        assert((rem - limit) / (limit as int) + 1 == rem / (limit as int));
    }
}

/// A run over a source of `total` records with page size `limit` issues
/// exactly `total / limit + 1` page fetches: all full pages, then one short,
/// possibly empty, page that ends the run.
pub proof fn lemma_fetch_count(total: nat, limit: nat)
    requires
        0 < limit,
    ensures
        spec_fetch_count(total, 0, limit) == total / limit + 1,
{
    lemma_fetch_count_from(total, 0, limit);
}

} // verus!
