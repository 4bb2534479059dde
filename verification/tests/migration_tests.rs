use vss::migration::{check_admin_key, decode_page, migration_step, Item};
use vss::store::{MemStore, VssBackend};

fn legacy_item(store_id: &str, key: &str, bytes: &[u8], version: i64) -> Item {
    Item {
        store_id: store_id.to_string(),
        key: key.to_string(),
        value: base64::encode(bytes),
        version,
    }
}

/// Drives a whole backfill run against an in-memory legacy source, the way
/// the worker does against the remote one: fetch a page, decode it, write
/// the batch, step the offset.
fn run_backfill(source: &[Item], store: &mut MemStore, start: usize, limit: usize) -> (usize, Vec<usize>) {
    let mut offset = start;
    let mut fetches = 0;
    let mut page_sizes = Vec::new();
    loop {
        let begin = offset.min(source.len());
        let end = (offset + limit).min(source.len());
        let page: Vec<Item> = source[begin..end]
            .iter()
            .map(|it| Item {
                store_id: it.store_id.clone(),
                key: it.key.clone(),
                value: it.value.clone(),
                version: it.version,
            })
            .collect();
        fetches += 1;
        page_sizes.push(page.len());
        let batch = decode_page(&page);
        store.put_items(batch);
        match migration_step(offset, limit, page.len()) {
            None => break,
            Some(next) => offset = next,
        }
    }
    (fetches, page_sizes)
}

#[test]
fn backfill_of_250_records_takes_three_fetches() {
    let mut source = Vec::new();
    for i in 0..250 {
        source.push(legacy_item("t1", &format!("key{i:03}"), &[i as u8], i as i64));
    }
    let mut store = MemStore::new();
    let (fetches, page_sizes) = run_backfill(&source, &mut store, 0, 100);
    assert_eq!(fetches, 3);
    assert_eq!(page_sizes, vec![100, 100, 50]);
    assert_eq!(store.list_key_versions("t1", None).len(), 250);
}

#[test]
fn backfill_deduplicates_repeated_identities() {
    let mut source = Vec::new();
    for i in 0..150 {
        source.push(legacy_item("t1", &format!("key{:03}", i % 100), &[1], i as i64));
    }
    let mut store = MemStore::new();
    let (fetches, _) = run_backfill(&source, &mut store, 0, 100);
    assert_eq!(fetches, 2);
    assert_eq!(store.list_key_versions("t1", None).len(), 100);
    let replayed = store.get_item("t1", "key049").unwrap();
    assert_eq!(replayed.version, 149);
}

#[test]
fn backfill_source_of_exactly_one_page_fetches_twice() {
    let source: Vec<Item> = (0..100)
        .map(|i| legacy_item("t", &format!("k{i}"), &[0], 0))
        .collect();
    let mut store = MemStore::new();
    let (fetches, page_sizes) = run_backfill(&source, &mut store, 0, 100);
    assert_eq!(fetches, 2);
    assert_eq!(page_sizes, vec![100, 0]);
}

#[test]
fn decode_page_drops_undecodable_records() {
    let mut page = vec![
        legacy_item("t", "good", &[1, 2], 1),
        Item {
            store_id: "t".to_string(),
            key: "bad".to_string(),
            value: "%%%".to_string(),
            version: 2,
        },
        legacy_item("t", "also_good", &[3], 3),
    ];
    let decoded = decode_page(&page);
    assert_eq!(decoded.len(), 2);
    assert_eq!(decoded[0].key, "good");
    assert_eq!(decoded[1].key, "also_good");
    assert_eq!(decoded[0].value.as_ref().unwrap(), &vec![1, 2]);

    page.remove(1);
    assert_eq!(decode_page(&page).len(), 2);
}

#[test]
fn migration_step_advances_until_a_short_page() {
    assert_eq!(migration_step(0, 100, 100), Some(100));
    assert_eq!(migration_step(100, 100, 100), Some(200));
    assert_eq!(migration_step(200, 100, 50), None);
    assert_eq!(migration_step(0, 100, 0), None);
}

#[test]
fn admin_key_gate_compares_exactly() {
    assert!(check_admin_key("admin-secret", "admin-secret"));
    assert!(!check_admin_key("wrong", "admin-secret"));
    assert!(!check_admin_key("", "admin-secret"));
}
