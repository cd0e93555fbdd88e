use scheduler::errors::SchedulerErrors;
use scheduler::record::Record;
use scheduler::redis_store::{
    add_batch, delete_batch, fetch_batch, load_batch, record_from_hash, records_from_hashes, update_batch,
    RETENTION_SECONDS,
};

fn words(ws: &[&str]) -> Vec<String> {
    ws.iter().map(|w| w.to_string()).collect()
}

fn some(values: &[&str]) -> Vec<Option<String>> {
    values.iter().map(|v| Some(v.to_string())).collect()
}

#[test]
fn add_sets_fields_and_expiry() {
    let mut r = Record::new("abc".to_string(), "http://x".to_string(), "s".to_string(), 5);
    let batch = add_batch(&r, 1_000);
    assert!(batch.atomic);
    assert_eq!(
        batch.commands,
        vec![
            words(&["ZADD", "ids", "2593000", "abc"]),
            words(&[
                "HSET", "abc", "id", "abc", "url", "http://x", "interval", "5", "script", "s", "chat_id", ""
            ]),
            words(&["EXPIRE", "abc", "2592000"]),
        ]
    );
    r.chat_id = Some("42".to_string());
    assert_eq!(add_batch(&r, 0).commands[1][11], "42");
}

#[test]
fn load_purges_expired_ids_first() {
    let batch = load_batch(1_700_000_000);
    assert!(batch.atomic);
    assert_eq!(
        batch.commands,
        vec![
            words(&["ZREMRANGEBYSCORE", "ids", "-inf", "1700000000"]),
            words(&["ZRANGEBYSCORE", "ids", "-inf", "+inf"]),
        ]
    );
}

#[test]
fn expired_record_is_purged_by_the_next_load() {
    let r = Record::new("old".to_string(), "u".to_string(), "s".to_string(), 5);
    let added = 100;
    let score: u64 = add_batch(&r, added).commands[0][2].parse().unwrap();
    let purged_up_to = |now: u64| -> u64 { load_batch(now).commands[0][3].parse().unwrap() };
    assert!(score <= purged_up_to(added + RETENTION_SECONDS));
    assert!(score > purged_up_to(added + RETENTION_SECONDS - 1));
}

#[test]
fn update_and_delete_batches() {
    let id = "abc".to_string();
    assert_eq!(update_batch(&id, &"42".to_string()).commands, vec![words(&["HSET", "abc", "chat_id", "42"])]);
    assert_eq!(
        delete_batch(&id).commands,
        vec![
            words(&["HDEL", "abc", "id", "interval", "script", "url", "chat_id"]),
            words(&["ZREM", "ids", "abc"]),
        ]
    );
}

#[test]
fn fetch_reads_each_hash() {
    let batch = fetch_batch(&words(&["a", "b"]));
    assert!(!batch.atomic);
    assert_eq!(
        batch.commands,
        vec![
            words(&["HMGET", "a", "id", "interval", "script", "url", "chat_id"]),
            words(&["HMGET", "b", "id", "interval", "script", "url", "chat_id"]),
        ]
    );
}

#[test]
fn hash_values_describe_a_record() {
    let r = record_from_hash(&some(&["abc", "5", "s", "http://x", ""])).unwrap().unwrap();
    assert_eq!(r, Record::new("abc".to_string(), "http://x".to_string(), "s".to_string(), 5));
    let r = record_from_hash(&some(&["abc", "5", "s", "http://x", "42"])).unwrap().unwrap();
    assert_eq!(r.chat_id, Some("42".to_string()));
    assert_eq!(record_from_hash(&vec![None, None, None, None, None]).unwrap(), None);
    assert!(matches!(record_from_hash(&some(&["abc", "x", "s", "u", ""])), Err(SchedulerErrors::BadHash)));
    assert!(matches!(record_from_hash(&some(&["abc", "5"])), Err(SchedulerErrors::BadHash)));
}

#[test]
fn vanished_hashes_are_skipped() {
    let replies = vec![
        some(&["a", "5", "s", "u", "1"]),
        vec![None, None, None, None, None],
        some(&["c", "10", "s", "u", ""]),
    ];
    let records = records_from_hashes(&replies).unwrap();
    let ids: Vec<&str> = records.iter().map(|r| r.id.as_str()).collect();
    assert_eq!(ids, vec!["a", "c"]);
    let bad = vec![some(&["a", "5", "s", "u", "1"]), some(&["b", "", "s", "u", ""])];
    assert!(matches!(records_from_hashes(&bad), Err(SchedulerErrors::BadHash)));
}
