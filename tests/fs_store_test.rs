use scheduler::errors::SchedulerErrors;
use scheduler::fs_store::{add, get, load, record_fields, record_from_fields, remove, update};
use scheduler::record::Record;

fn record(id: &str, url: &str, script: &str, interval: u64) -> Record {
    Record::new(id.to_string(), url.to_string(), script.to_string(), interval)
}

/// Appends the bytes of `add` to a file held in memory.
fn append(file: &mut Vec<u8>, r: &Record) {
    let bytes = add(r, file.len() as u64).expect("csv writes the row");
    file.extend_from_slice(&bytes);
}

#[test]
fn first_row_comes_behind_a_header() {
    let mut file = Vec::new();
    append(&mut file, &record("abc", "http://x", "s", 5));
    assert_eq!(
        String::from_utf8(file.clone()).unwrap(),
        "id,interval,script,url,chat_id,is_deleted\nabc,5,s,http://x,,false\n"
    );
    append(&mut file, &record("def", "http://y", "t", 10));
    assert_eq!(
        String::from_utf8(file).unwrap(),
        "id,interval,script,url,chat_id,is_deleted\nabc,5,s,http://x,,false\ndef,10,t,http://y,,false\n"
    );
}

#[test]
fn empty_file_holds_nothing() {
    assert!(load(b"").unwrap().is_empty());
    assert_eq!(get(b"", &"abc".to_string()).unwrap(), None);
}

#[test]
fn upsert_last_write_wins() {
    let mut file = Vec::new();
    let first = record("abc", "http://x", "s", 5);
    append(&mut file, &first);
    assert_eq!(get(&file, &"abc".to_string()).unwrap(), Some(first));
    let mut second = record("abc", "http://other", "script, with \"quotes\"", 60);
    second.chat_id = Some("42".to_string());
    append(&mut file, &second);
    assert_eq!(get(&file, &"abc".to_string()).unwrap(), Some(second.clone()));
    let all = load(&file).unwrap();
    assert_eq!(all, vec![second]);
}

#[test]
fn load_returns_each_record_once() {
    let mut file = Vec::new();
    append(&mut file, &record("a", "u1", "s", 5));
    append(&mut file, &record("b", "u2", "s", 10));
    append(&mut file, &record("a", "u3", "s", 15));
    let mut all = load(&file).unwrap();
    all.sort_by(|x, y| x.id.cmp(&y.id));
    assert_eq!(all, vec![record("a", "u3", "s", 15), record("b", "u2", "s", 10)]);
}

#[test]
fn update_attaches_the_subscriber() {
    let mut file = Vec::new();
    append(&mut file, &record("abc", "http://x", "s", 5));
    let bytes = update(&file, &"abc".to_string(), "42".to_string()).unwrap().unwrap();
    assert_eq!(String::from_utf8(bytes.clone()).unwrap(), "abc,5,s,http://x,42,false\n");
    file.extend_from_slice(&bytes);
    assert_eq!(get(&file, &"abc".to_string()).unwrap().unwrap().chat_id, Some("42".to_string()));
    assert!(update(&file, &"missing".to_string(), "1".to_string()).unwrap().is_none());
}

#[test]
fn remove_marks_the_record_deleted() {
    let mut file = Vec::new();
    append(&mut file, &record("abc", "http://x", "s", 5));
    append(&mut file, &record("def", "http://y", "s", 5));
    let bytes = remove(&file, &"abc".to_string()).unwrap().unwrap();
    assert_eq!(String::from_utf8(bytes.clone()).unwrap(), "abc,5,s,http://x,,true\n");
    file.extend_from_slice(&bytes);
    assert_eq!(get(&file, &"abc".to_string()).unwrap(), None);
    assert_eq!(load(&file).unwrap(), vec![record("def", "http://y", "s", 5)]);
    assert!(remove(&file, &"abc".to_string()).unwrap().is_none());
    // a later add brings the record back
    append(&mut file, &record("abc", "http://z", "s", 5));
    assert_eq!(get(&file, &"abc".to_string()).unwrap(), Some(record("abc", "http://z", "s", 5)));
}

#[test]
fn wrong_header_is_refused() {
    let file = b"id,url\nabc,http://x\n";
    assert!(matches!(load(file), Err(SchedulerErrors::BadHeader)));
}

#[test]
fn malformed_row_is_refused() {
    let file = b"id,interval,script,url,chat_id,is_deleted\nabc,five,s,http://x,,false\n";
    assert!(matches!(load(file), Err(SchedulerErrors::BadRow)));
    let file = b"id,interval,script,url,chat_id,is_deleted\nabc,5,s,http://x,,maybe\n";
    assert!(matches!(get(file, &"abc".to_string()), Err(SchedulerErrors::BadRow)));
}

#[test]
fn unreadable_csv_is_refused() {
    let file = b"id,interval,script,url,chat_id,is_deleted\nabc,5\n";
    assert!(matches!(load(file), Err(SchedulerErrors::CSV(_))));
    let file: &[u8] = &[0xff, 0xfe, b'\n'];
    assert!(matches!(load(file), Err(SchedulerErrors::CSV(_))));
}

#[test]
fn fields_round_trip() {
    let mut r = record("abc", "http://x", "s", 604800);
    r.chat_id = Some("42".to_string());
    let fields = record_fields(&r);
    assert_eq!(fields, vec!["abc", "604800", "s", "http://x", "42", "false"]);
    assert_eq!(record_from_fields(&fields), Some(r));
    assert_eq!(record_from_fields(&vec!["abc".to_string()]), None);
}
