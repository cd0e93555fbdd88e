//! The remote backend: a hash per record and an `ids` index ordered by
//! expiry time.
//!
//! Every operation is a batch of commands that the caller sends over its
//! connection as one pipeline; replies come back here to be read. Adding a
//! record (re)sets its expiry to the time of the add plus the retention
//! period, and every load first purges the ids whose expiry has passed.
use vstd::prelude::*;
use crate::decimal::{decimal_text, format_u64, parse_u64, parsed_u64};
use crate::errors::SchedulerErrors;
use crate::fs_store::chat_text;
use crate::record::{records_view, text_field, Record, RecordView};

verus! {

/// How long a record is kept after its last add: thirty days, in seconds.
pub const RETENTION_SECONDS: u64 = 2_592_000;

/// Commands for one pipeline, each as its name followed by its arguments.
pub struct Batch {
    /// Whether the commands run as one transaction.
    pub atomic: bool,
    pub commands: Vec<Vec<String>>,
}

pub open spec fn hash_fields() -> Seq<Seq<char>> {
    seq!["id"@, "interval"@, "script"@, "url"@, "chat_id"@]
}

pub open spec fn add_commands(r: RecordView, now: nat) -> Seq<Seq<Seq<char>>> {
    seq![
        seq!["ZADD"@, "ids"@, decimal_text((now + RETENTION_SECONDS) as nat), r.id],
        seq![
            "HSET"@, r.id,
            "id"@, r.id,
            "url"@, r.url,
            "interval"@, decimal_text(r.interval as nat),
            "script"@, r.script,
            "chat_id"@, chat_text(r.chat_id),
        ],
        seq!["EXPIRE"@, r.id, decimal_text(RETENTION_SECONDS as nat)],
    ]
}

pub open spec fn load_commands(now: nat) -> Seq<Seq<Seq<char>>> {
    seq![
        seq!["ZREMRANGEBYSCORE"@, "ids"@, "-inf"@, decimal_text(now)],
        seq!["ZRANGEBYSCORE"@, "ids"@, "-inf"@, "+inf"@],
    ]
}

pub open spec fn update_commands(id: Seq<char>, chat_id: Seq<char>) -> Seq<Seq<Seq<char>>> {
    seq![seq!["HSET"@, id, "chat_id"@, chat_id]]
}

pub open spec fn delete_commands(id: Seq<char>) -> Seq<Seq<Seq<char>>> {
    seq![seq!["HDEL"@, id] + hash_fields(), seq!["ZREM"@, "ids"@, id]]
}

pub open spec fn fetch_command(id: Seq<char>) -> Seq<Seq<char>> {
    seq!["HMGET"@, id] + hash_fields()
}

/// The record that the values of a hash describe (`None` inside when the
/// hash does not exist), or `None` when they describe no record.
pub open spec fn decode_hash(v: Seq<Option<Seq<char>>>) -> Option<Option<RecordView>> {
    if v.len() != 5 {
        None
    } else if v[0] is None {
        Some(None)
    } else if v[1] is None || v[2] is None || v[3] is None || parsed_u64(v[1]->Some_0) is None {
        None
    } else {
        Some(
            Some(
                RecordView {
                    id: v[0]->Some_0,
                    interval: parsed_u64(v[1]->Some_0)->Some_0,
                    script: v[2]->Some_0,
                    url: v[3]->Some_0,
                    chat_id: match v[4] {
                        Some(c) => if c.len() == 0 {
                            None
                        } else {
                            Some(c)
                        },
                        None => None,
                    },
                    is_deleted: false,
                },
            ),
        )
    }
}

/// The records that a series of hashes describes, skipping hashes that no
/// longer exist, or `None` when one describes no record.
pub open spec fn decode_hashes(replies: Seq<Seq<Option<Seq<char>>>>) -> Option<Seq<RecordView>>
    decreases replies.len(),
{
    if replies.len() == 0 {
        Some(Seq::empty())
    } else {
        match (decode_hashes(replies.drop_last()), decode_hash(replies.last())) {
            (Some(before), Some(Some(r))) => Some(before.push(r)),
            (Some(before), Some(None)) => Some(before),
            _ => None,
        }
    }
}

fn hset_command(record: &Record) -> (r: Vec<String>)
    ensures
        r.deep_view() == add_commands(record@, 0)[1],
{
    let mut r: Vec<String> = Vec::new();
    r.push(text_field("HSET"));
    r.push(record.id.clone());
    r.push(text_field("id"));
    r.push(record.id.clone());
    r.push(text_field("url"));
    r.push(record.url.clone());
    r.push(text_field("interval"));
    r.push(format_u64(record.interval));
    r.push(text_field("script"));
    r.push(record.script.clone());
    r.push(text_field("chat_id"));
    match &record.chat_id {
        Some(c) => r.push(c.clone()),
        None => r.push(String::new()),
    }
    assert(r.deep_view() =~= add_commands(record@, 0)[1]);
    r
}

fn zadd_command(id: &String, score: u64) -> (r: Vec<String>)
    ensures
        r.deep_view() == seq!["ZADD"@, "ids"@, decimal_text(score as nat), id@],
{
    let mut r: Vec<String> = Vec::new();
    r.push(text_field("ZADD"));
    r.push(text_field("ids"));
    r.push(format_u64(score));
    r.push(id.clone());
    assert(r.deep_view() =~= seq!["ZADD"@, "ids"@, decimal_text(score as nat), id@]);
    r
}

fn expire_command(id: &String) -> (r: Vec<String>)
    ensures
        r.deep_view() == seq!["EXPIRE"@, id@, decimal_text(RETENTION_SECONDS as nat)],
{
    let mut r: Vec<String> = Vec::new();
    r.push(text_field("EXPIRE"));
    r.push(id.clone());
    r.push(format_u64(RETENTION_SECONDS));
    assert(r.deep_view() =~= seq!["EXPIRE"@, id@, decimal_text(RETENTION_SECONDS as nat)]);
    r
}

/// The batch that stores `record` and sets its expiry to `now` plus the
/// retention period.
pub fn add_batch(record: &Record, now: u64) -> (r: Batch)
    requires
        now + RETENTION_SECONDS <= u64::MAX,
    ensures
        r.atomic,
        r.commands.deep_view() == add_commands(record@, now as nat),
{
    let mut commands: Vec<Vec<String>> = Vec::new();
    commands.push(zadd_command(&record.id, now + RETENTION_SECONDS));
    commands.push(hset_command(record));
    commands.push(expire_command(&record.id));
    assert(commands.deep_view() =~= add_commands(record@, now as nat));
    Batch { atomic: true, commands }
}

fn hash_field_names() -> (r: Vec<String>)
    ensures
        r.deep_view() == hash_fields(),
{
    let mut r: Vec<String> = Vec::new();
    r.push(text_field("id"));
    r.push(text_field("interval"));
    r.push(text_field("script"));
    r.push(text_field("url"));
    r.push(text_field("chat_id"));
    assert(r.deep_view() =~= hash_fields());
    r
}

/// A command of two words followed by the names of the hash fields.
fn with_hash_fields(name: &str, id: &String) -> (r: Vec<String>)
    ensures
        r.deep_view() == seq![name@, id@] + hash_fields(),
{
    let mut r: Vec<String> = Vec::new();
    r.push(text_field(name));
    r.push(id.clone());
    let names = hash_field_names();
    let mut i: usize = 0;
    while i < names.len()
        invariant
            i <= names@.len(),
            names.deep_view() == hash_fields(),
            r.deep_view() == seq![name@, id@] + hash_fields().subrange(0, i as int),
        decreases names.len() - i,
    {
        let ghost before = r.deep_view();
        r.push(names[i].clone());
        assert(r.deep_view() =~= before.push(names@[i as int]@));
        assert(hash_fields().subrange(0, i + 1) =~= hash_fields().subrange(0, i as int).push(
            names.deep_view()[i as int],
        ));
        i = i + 1;
    }
    assert(hash_fields().subrange(0, 5) =~= hash_fields());
    r
}

/// The batch that gives the record `id` the subscriber `chat_id`.
pub fn update_batch(id: &String, chat_id: &String) -> (r: Batch)
    ensures
        r.atomic,
        r.commands.deep_view() == update_commands(id@, chat_id@),
{
    let mut hset: Vec<String> = Vec::new();
    hset.push(text_field("HSET"));
    hset.push(id.clone());
    hset.push(text_field("chat_id"));
    hset.push(chat_id.clone());
    assert(hset.deep_view() =~= update_commands(id@, chat_id@)[0]);
    let mut commands: Vec<Vec<String>> = Vec::new();
    commands.push(hset);
    assert(commands.deep_view() =~= update_commands(id@, chat_id@));
    Batch { atomic: true, commands }
}

/// The batch that removes the record `id` and its entry in the index.
pub fn delete_batch(id: &String) -> (r: Batch)
    ensures
        r.atomic,
        r.commands.deep_view() == delete_commands(id@),
{
    let mut zrem: Vec<String> = Vec::new();
    zrem.push(text_field("ZREM"));
    zrem.push(text_field("ids"));
    zrem.push(id.clone());
    assert(zrem.deep_view() =~= delete_commands(id@)[1]);
    let mut commands: Vec<Vec<String>> = Vec::new();
    commands.push(with_hash_fields("HDEL", id));
    commands.push(zrem);
    assert(commands.deep_view() =~= delete_commands(id@));
    Batch { atomic: true, commands }
}

/// The batch that a load at time `now` starts with: it purges every id
/// whose expiry is `now` or earlier, then lists the ids that remain. The
/// reply of its second command is the list of ids.
pub fn load_batch(now: u64) -> (r: Batch)
    ensures
        r.atomic,
        r.commands.deep_view() == load_commands(now as nat),
{
    let mut purge: Vec<String> = Vec::new();
    purge.push(text_field("ZREMRANGEBYSCORE"));
    purge.push(text_field("ids"));
    purge.push(text_field("-inf"));
    purge.push(format_u64(now));
    let mut list: Vec<String> = Vec::new();
    list.push(text_field("ZRANGEBYSCORE"));
    list.push(text_field("ids"));
    list.push(text_field("-inf"));
    list.push(text_field("+inf"));
    assert(purge.deep_view() =~= load_commands(now as nat)[0]);
    assert(list.deep_view() =~= load_commands(now as nat)[1]);
    let mut commands: Vec<Vec<String>> = Vec::new();
    commands.push(purge);
    commands.push(list);
    assert(commands.deep_view() =~= load_commands(now as nat));
    Batch { atomic: true, commands }
}

/// The batch that reads the hash of each id, in order: one reply per id.
pub fn fetch_batch(ids: &Vec<String>) -> (r: Batch)
    ensures
        !r.atomic,
        r.commands@.len() == ids@.len(),
        forall|k: int| 0 <= k < ids@.len() ==> #[trigger] r.commands.deep_view()[k] == fetch_command(ids@[k]@),
{
    let mut commands: Vec<Vec<String>> = Vec::new();
    let mut i: usize = 0;
    while i < ids.len()
        invariant
            i <= ids@.len(),
            commands@.len() == i,
            forall|k: int| 0 <= k < i ==> #[trigger] commands.deep_view()[k] == fetch_command(ids@[k]@),
        decreases ids.len() - i,
    {
        let ghost before = commands.deep_view();
        commands.push(with_hash_fields("HMGET", &ids[i]));
        assert(commands.deep_view() =~= before.push(fetch_command(ids@[i as int]@)));
        i = i + 1;
    }
    Batch { atomic: false, commands }
}

/// The record that the values of the hash fields describe: `Ok(None)` when
/// the hash does not exist.
pub fn record_from_hash(values: &Vec<Option<String>>) -> (r: Result<Option<Record>, SchedulerErrors>)
    ensures
        match r {
            Ok(Some(rec)) => decode_hash(values.deep_view()) == Some(Some(rec@)),
            Ok(None) => decode_hash(values.deep_view()) == Some(None::<RecordView>),
            Err(e) => e is BadHash && decode_hash(values.deep_view()) is None,
        },
{
    if values.len() != 5 {
        return Err(SchedulerErrors::BadHash);
    }
    let ghost v = values.deep_view();
    assert(forall|k: int| 0 <= k < 5 ==> #[trigger] v[k] == values@[k].deep_view());
    let id = match &values[0] {
        Some(t) => t.clone(),
        None => return Ok(None),
    };
    let (interval, script, url) = match (&values[1], &values[2], &values[3]) {
        (Some(i), Some(s), Some(u)) => match parse_u64(i.as_str()) {
            Some(n) => (n, s.clone(), u.clone()),
            None => return Err(SchedulerErrors::BadHash),
        },
        _ => return Err(SchedulerErrors::BadHash),
    };
    let chat_id = match &values[4] {
        Some(c) => if c.unicode_len() == 0 {
            None
        } else {
            Some(c.clone())
        },
        None => None,
    };
    Ok(Some(Record { id, interval, script, url, chat_id, is_deleted: false }))
}

/// The records that the replies of a fetch batch describe, in order,
/// skipping hashes that no longer exist.
pub fn records_from_hashes(replies: &Vec<Vec<Option<String>>>) -> (r: Result<Vec<Record>, SchedulerErrors>)
    ensures
        match r {
            Ok(v) => decode_hashes(replies.deep_view()) == Some(records_view(v@)),
            Err(e) => e is BadHash && decode_hashes(replies.deep_view()) is None,
        },
{
    let ghost all = replies.deep_view();
    let mut out: Vec<Record> = Vec::new();
    let mut i: usize = 0;
    assert(records_view(out@) =~= Seq::<RecordView>::empty());
    while i < replies.len()
        invariant
            i <= replies@.len(),
            all == replies.deep_view(),
            decode_hashes(all.subrange(0, i as int)) == Some(records_view(out@)),
        decreases replies.len() - i,
    {
        let ghost before = out@;
        assert(all.subrange(0, i + 1).drop_last() =~= all.subrange(0, i as int));
        assert(all[i as int] == replies@[i as int].deep_view());
        match record_from_hash(&replies[i]) {
            Ok(Some(rec)) => {
                out.push(rec);
                assert(records_view(out@) =~= records_view(before).push(out@[out@.len() - 1]@));
            },
            Ok(None) => {},
            Err(e) => {
                proof {
                    lemma_decode_hashes_prefix(all, i + 1);
                }
                return Err(e);
            },
        }
        i = i + 1;
    }
    assert(all.subrange(0, i as int) =~= all);
    Ok(out)
}

proof fn lemma_decode_hashes_prefix(replies: Seq<Seq<Option<Seq<char>>>>, n: int)
    requires
        0 <= n <= replies.len(),
        decode_hashes(replies.subrange(0, n)) is None,
    ensures
        decode_hashes(replies) is None,
    decreases replies.len() - n,
{
    if n < replies.len() {
        assert(replies.subrange(0, n + 1).drop_last() =~= replies.subrange(0, n));
        lemma_decode_hashes_prefix(replies, n + 1);
    } else {
        assert(replies.subrange(0, n) =~= replies);
    }
}

/// Retention: the purge of a load at time `now` reaches the index entry
/// that an add at time `added` wrote exactly when the retention period has
/// run out by `now`. The purge removes every id whose score is at most the
/// bound it names; the add names the score.
pub proof fn lemma_expiry(record: RecordView, added: nat, now: nat)
    requires
        added + RETENTION_SECONDS <= u64::MAX,
        now <= u64::MAX,
    ensures
        ({
            let score = parsed_u64(add_commands(record, added)[0][2]);
            let bound = parsed_u64(load_commands(now)[0][3]);
            &&& score == Some((added + RETENTION_SECONDS) as u64)
            &&& bound == Some(now as u64)
            &&& (score->Some_0 <= bound->Some_0 <==> added + RETENTION_SECONDS <= now)
        }),
{
    crate::decimal::lemma_parse_format((added + RETENTION_SECONDS) as u64);
    crate::decimal::lemma_parse_format(now as u64);
}

} // verus!
