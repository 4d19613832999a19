use chimes_utils::global_data::global_app_data_get;
use chimes_utils::global_data::global_app_data_insert;
use chimes_utils::global_data::global_app_data_insert_with_expire;
use chimes_utils::global_data::global_app_data_remove;
use chimes_utils::global_data::global_app_data_resizing;
use chimes_utils::global_data::AppData;

#[test]
fn stored_values_read_back() {
    let mut store = AppData::new();
    global_app_data_insert_with_expire(&mut store, "k", "v", 100, 1000);
    assert_eq!(global_app_data_get(&mut store, "k", 1050), Some("v".to_owned()));
    assert_eq!(global_app_data_get(&mut store, "missing", 1050), None);
}

#[test]
fn inserting_replaces_the_earlier_value() {
    let mut store = AppData::new();
    global_app_data_insert_with_expire(&mut store, "k", "first", 100, 1000);
    global_app_data_insert_with_expire(&mut store, "k", "second", 100, 1000);
    assert_eq!(store.count(), 1);
    assert_eq!(global_app_data_get(&mut store, "k", 1050), Some("second".to_owned()));
}

#[test]
fn expired_values_vanish_on_read() {
    let mut store = AppData::new();
    global_app_data_insert_with_expire(&mut store, "k", "v", 5, 100);
    // still readable while its lifetime runs
    assert_eq!(global_app_data_get(&mut store, "k", 104), Some("v".to_owned()));
    assert_eq!(global_app_data_get(&mut store, "k", 105), Some("v".to_owned()));
    // past it, the read removes the entry
    assert_eq!(global_app_data_get(&mut store, "k", 106), None);
    assert_eq!(store.count(), 0);
}

#[test]
fn zero_lifetime_never_expires_on_read() {
    let mut store = AppData::new();
    global_app_data_insert_with_expire(&mut store, "k", "v", 0, 100);
    assert_eq!(global_app_data_get(&mut store, "k", u64::MAX), Some("v".to_owned()));
}

#[test]
fn default_lifetime_is_a_minute_of_milliseconds() {
    let mut store = AppData::new();
    global_app_data_insert(&mut store, "k", "v", 1_000_000);
    assert_eq!(global_app_data_get(&mut store, "k", 1_060_000), Some("v".to_owned()));
    assert_eq!(global_app_data_get(&mut store, "k", 1_060_001), None);
}

#[test]
fn removal_is_idempotent() {
    let mut store = AppData::new();
    global_app_data_insert_with_expire(&mut store, "k", "v", 100, 1000);
    global_app_data_remove(&mut store, "k");
    assert_eq!(store.count(), 0);
    global_app_data_remove(&mut store, "k");
    assert_eq!(store.count(), 0);
}

#[test]
fn resizing_purges_only_an_outgrown_store() {
    let mut store = AppData::new();
    for i in 0..9 {
        let key = format!("k{}", i);
        global_app_data_insert_with_expire(&mut store, &key, "v", 5, 100);
    }
    assert_eq!(store.count(), 9);
    // nine entries are few enough: the ripe entries stay
    global_app_data_resizing(&mut store, 10_000);
    assert_eq!(store.count(), 9);
    global_app_data_insert_with_expire(&mut store, "k9", "v", 5, 100);
    global_app_data_insert_with_expire(&mut store, "fresh", "v", 50_000, 100);
    assert_eq!(store.count(), 11);
    // eleven entries outgrow the store: the ripe ones vanish
    global_app_data_resizing(&mut store, 10_000);
    assert_eq!(store.count(), 1);
    assert_eq!(global_app_data_get(&mut store, "fresh", 10_000), Some("v".to_owned()));
}

#[test]
fn insertion_triggers_the_purge() {
    let mut store = AppData::new();
    for i in 0..10 {
        let key = format!("k{}", i);
        global_app_data_insert_with_expire(&mut store, &key, "v", 5, 100);
    }
    assert_eq!(store.count(), 10);
    // the eleventh insertion outgrows the store at a late time: every
    // entry whose lifetime ran out is purged on the way
    global_app_data_insert_with_expire(&mut store, "late", "v", 50_000, 10_000);
    assert_eq!(store.count(), 1);
}
