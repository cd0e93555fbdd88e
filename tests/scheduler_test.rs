use scheduler::messages::{Exchanges, Messages};
use scheduler::record::Record;
use scheduler::scheduler::{Action, Command, Scheduler};
use std::collections::HashMap;

/// A store kept in memory, for driving the actor as the service does.
struct MemoryStore {
    records: HashMap<String, Record>,
}

impl MemoryStore {
    fn new() -> Self {
        MemoryStore { records: HashMap::new() }
    }
}

/// Runs one command through the actor and its follow-up steps, returning
/// what would be published.
fn run(scheduler: &mut Scheduler, store: &mut MemoryStore, command: Command) -> Vec<(Exchanges, Messages)> {
    let mut published = Vec::new();
    match scheduler.handle(command) {
        Action::Nothing => {}
        Action::Persist(record) => {
            store.records.insert(record.id.clone(), record);
        }
        Action::Fetch { id, chat_id } => {
            let fetched = store.records.get(&id).cloned();
            if let Some(record) = Scheduler::activation(chat_id, fetched) {
                store.records.insert(record.id.clone(), record.clone());
                scheduler.activated(&record);
            }
        }
        Action::Dispatch(ids) => {
            for id in ids {
                let fetched = store.records.get(&id).cloned();
                if let Some(message) = Scheduler::dispatch(fetched) {
                    published.push(message);
                }
            }
        }
        Action::Remove(id) => {
            store.records.remove(&id);
        }
        Action::Collect { chat_id } => {
            let mut records: Vec<Record> = store.records.values().cloned().collect();
            records.sort_by(|a, b| a.id.cmp(&b.id));
            published.push(Scheduler::listing(chat_id, &records));
        }
    }
    published
}

fn create(id: &str, url: &str, script: &str, interval: u64) -> Messages {
    Messages::Create { id: id.to_string(), url: url.to_string(), script: script.to_string(), interval }
}

fn activate(id: &str, chat_id: &str) -> Messages {
    Messages::Activate { id: id.to_string(), chat_id: chat_id.to_string() }
}

fn send(scheduler: &mut Scheduler, store: &mut MemoryStore, message: Messages) -> Vec<(Exchanges, Messages)> {
    let command = Scheduler::receive(message).expect("message maps to a command");
    run(scheduler, store, command)
}

#[test]
fn countdown_dispatches_every_interval() {
    let mut scheduler = Scheduler::new(Vec::new());
    let mut store = MemoryStore::new();
    send(&mut scheduler, &mut store, create("abc", "http://x", "s", 5));
    send(&mut scheduler, &mut store, activate("abc", "42"));
    let expected = (
        Exchanges::Scraper,
        Messages::Scrape {
            id: "abc".to_string(),
            chat_id: Some("42".to_string()),
            url: "http://x".to_string(),
            script: "s".to_string(),
        },
    );
    for round in 0..2 {
        for tick in 1..=5 {
            let published = run(&mut scheduler, &mut store, Command::Tick);
            if tick < 5 {
                assert!(published.is_empty(), "round {} tick {}", round, tick);
            } else {
                assert_eq!(published, vec![expected.clone()]);
            }
        }
    }
}

#[test]
fn activation_twice_keeps_one_countdown() {
    let mut scheduler = Scheduler::new(Vec::new());
    let mut store = MemoryStore::new();
    send(&mut scheduler, &mut store, create("abc", "http://x", "s", 5));
    send(&mut scheduler, &mut store, activate("abc", "42"));
    run(&mut scheduler, &mut store, Command::Tick);
    run(&mut scheduler, &mut store, Command::Tick);
    let command = Scheduler::receive(activate("abc", "42")).unwrap();
    assert!(matches!(scheduler.handle(command), Action::Nothing));
    assert_eq!(scheduler.intervals().len(), 1);
    assert_eq!(scheduler.intervals().entry(&"abc".to_string()), Some((5, 3)));
}

#[test]
fn dormant_job_is_never_dispatched() {
    let mut scheduler = Scheduler::new(Vec::new());
    let mut store = MemoryStore::new();
    send(&mut scheduler, &mut store, create("abc", "http://x", "s", 5));
    assert_eq!(store.records.get("abc").unwrap().chat_id, None);
    for _ in 0..50 {
        assert!(run(&mut scheduler, &mut store, Command::Tick).is_empty());
    }
    assert_eq!(scheduler.intervals().len(), 0);
}

#[test]
fn startup_recovery_seeds_active_records_only() {
    let mut active = Record::new("a".to_string(), "http://a".to_string(), "s".to_string(), 10);
    active.chat_id = Some("7".to_string());
    let dormant = Record::new("b".to_string(), "http://b".to_string(), "s".to_string(), 15);
    let scheduler = Scheduler::new(vec![active, dormant]);
    assert_eq!(scheduler.intervals().len(), 1);
    assert_eq!(scheduler.intervals().entry(&"a".to_string()), Some((10, 10)));
    assert_eq!(scheduler.intervals().entry(&"b".to_string()), None);
}

#[test]
fn activate_of_missing_id_is_dropped() {
    let mut scheduler = Scheduler::new(Vec::new());
    let mut store = MemoryStore::new();
    let published = send(&mut scheduler, &mut store, activate("nonexistent", "1"));
    assert!(published.is_empty());
    assert_eq!(scheduler.intervals().len(), 0);
    assert!(store.records.is_empty());
    assert!(Scheduler::activation("1".to_string(), None).is_none());
}

#[test]
fn activation_persists_the_subscriber() {
    let mut scheduler = Scheduler::new(Vec::new());
    let mut store = MemoryStore::new();
    send(&mut scheduler, &mut store, create("abc", "http://x", "s", 5));
    let command = Scheduler::receive(activate("abc", "42")).unwrap();
    match scheduler.handle(command) {
        Action::Fetch { id, chat_id } => {
            assert_eq!(id, "abc");
            assert_eq!(chat_id, "42");
        }
        _ => panic!("activation of an inactive job must fetch its record"),
    }
    let stored = store.records.get("abc").cloned();
    let activated = Scheduler::activation("42".to_string(), stored).unwrap();
    assert_eq!(activated.chat_id, Some("42".to_string()));
    assert_eq!(activated.url, "http://x");
    // nothing counts down until the activated record is persisted
    assert_eq!(scheduler.intervals().len(), 0);
    scheduler.activated(&activated);
    assert_eq!(scheduler.intervals().entry(&"abc".to_string()), Some((5, 5)));
}

#[test]
fn delete_stops_the_countdown() {
    let mut scheduler = Scheduler::new(Vec::new());
    let mut store = MemoryStore::new();
    send(&mut scheduler, &mut store, create("abc", "http://x", "s", 5));
    send(&mut scheduler, &mut store, activate("abc", "42"));
    send(&mut scheduler, &mut store, Messages::Delete { id: "abc".to_string() });
    assert_eq!(scheduler.intervals().len(), 0);
    assert!(store.records.is_empty());
    for _ in 0..10 {
        assert!(run(&mut scheduler, &mut store, Command::Tick).is_empty());
    }
}

#[test]
fn missing_record_at_fire_time_skips_dispatch_and_resets() {
    let mut scheduler = Scheduler::new(Vec::new());
    let mut store = MemoryStore::new();
    send(&mut scheduler, &mut store, create("abc", "http://x", "s", 2));
    send(&mut scheduler, &mut store, activate("abc", "42"));
    store.records.clear();
    run(&mut scheduler, &mut store, Command::Tick);
    assert!(run(&mut scheduler, &mut store, Command::Tick).is_empty());
    assert_eq!(scheduler.intervals().entry(&"abc".to_string()), Some((2, 2)));
    assert!(Scheduler::dispatch(None).is_none());
}

#[test]
fn unmapped_messages_are_ignored() {
    let notify = Messages::Notify { id: "a".to_string(), chat_id: "1".to_string(), url: "u".to_string() };
    assert!(Scheduler::receive(notify).is_none());
    let scrape = Messages::Scrape { id: "a".to_string(), chat_id: None, url: "u".to_string(), script: "s".to_string() };
    assert!(Scheduler::receive(scrape).is_none());
}

#[test]
fn listing_reports_the_jobs_of_a_subscriber() {
    let mut scheduler = Scheduler::new(Vec::new());
    let mut store = MemoryStore::new();
    send(&mut scheduler, &mut store, create("a", "http://a", "s", 5));
    send(&mut scheduler, &mut store, create("b", "http://b", "s", 5));
    send(&mut scheduler, &mut store, create("c", "http://c", "s", 5));
    send(&mut scheduler, &mut store, activate("a", "7"));
    send(&mut scheduler, &mut store, activate("b", "8"));
    send(&mut scheduler, &mut store, activate("c", "7"));
    let published = send(&mut scheduler, &mut store, Messages::List { chat_id: "7".to_string() });
    assert_eq!(
        published,
        vec![(
            Exchanges::Bot,
            Messages::ListResponse {
                records: vec![
                    ("http://a".to_string(), "a".to_string()),
                    ("http://c".to_string(), "c".to_string()),
                ],
                chat_id: "7".to_string(),
            },
        )]
    );
}

#[test]
fn tick_reports_due_jobs_in_table_order() {
    let mut a = Record::new("a".to_string(), "u".to_string(), "s".to_string(), 1);
    a.chat_id = Some("1".to_string());
    let mut b = Record::new("b".to_string(), "u".to_string(), "s".to_string(), 3);
    b.chat_id = Some("1".to_string());
    let mut c = Record::new("c".to_string(), "u".to_string(), "s".to_string(), 1);
    c.chat_id = Some("1".to_string());
    let mut scheduler = Scheduler::new(vec![a, b, c]);
    match scheduler.handle(Command::Tick) {
        Action::Dispatch(ids) => assert_eq!(ids, vec!["a".to_string(), "c".to_string()]),
        _ => panic!("a tick dispatches"),
    }
    assert_eq!(scheduler.intervals().entry(&"b".to_string()), Some((3, 2)));
}

#[test]
fn exchange_names() {
    assert_eq!(Exchanges::Scheduler.name(), "scheduler");
    assert_eq!(Exchanges::Scraper.name(), "scraper");
    assert_eq!(Exchanges::Bot.name(), "bot");
}
