//! The flat-file backend: one CSV row per stored version of a record.
//!
//! The file starts with a header row and is only ever appended to. Reading
//! scans every row; for each id the last row wins, and a last row that is
//! marked deleted leaves the id absent. The file itself is read and
//! written by the caller: these functions take its bytes and return the
//! bytes to append.
use vstd::prelude::*;
use crate::csv_text::{csv_line, csv_records, read_rows, write_row};
use crate::decimal::{decimal_text, format_u64, lemma_parse_format, parse_u64, parsed_u64};
use crate::errors::SchedulerErrors;
use crate::record::{distinct_ids, records_view, text_field, view_of, Record, RecordView};

verus! {

pub open spec fn header_row() -> Seq<Seq<char>> {
    seq!["id"@, "interval"@, "script"@, "url"@, "chat_id"@, "is_deleted"@]
}

pub open spec fn flag_text(b: bool) -> Seq<char> {
    if b {
        "true"@
    } else {
        "false"@
    }
}

/// An absent subscriber is written as an empty field.
pub open spec fn chat_text(c: Option<Seq<char>>) -> Seq<char> {
    match c {
        Some(t) => t,
        None => Seq::empty(),
    }
}

/// The row that stores a record.
pub open spec fn row_of(r: RecordView) -> Seq<Seq<char>> {
    seq![r.id, decimal_text(r.interval as nat), r.script, r.url, chat_text(r.chat_id), flag_text(r.is_deleted)]
}

/// The record that a row describes, if it describes one.
pub open spec fn decode_row(f: Seq<Seq<char>>) -> Option<RecordView> {
    if f.len() == 6 && parsed_u64(f[1]) is Some && (f[5] == "true"@ || f[5] == "false"@) {
        Some(
            RecordView {
                id: f[0],
                interval: parsed_u64(f[1])->Some_0,
                script: f[2],
                url: f[3],
                chat_id: if f[4].len() == 0 {
                    None
                } else {
                    Some(f[4])
                },
                is_deleted: f[5] == "true"@,
            },
        )
    } else {
        None
    }
}

pub open spec fn decode_rows(rows: Seq<Seq<Seq<char>>>) -> Option<Seq<RecordView>>
    decreases rows.len(),
{
    if rows.len() == 0 {
        Some(Seq::empty())
    } else {
        match (decode_rows(rows.drop_last()), decode_row(rows.last())) {
            (Some(before), Some(r)) => Some(before.push(r)),
            _ => None,
        }
    }
}

/// The records of a data file, in row order: nothing for an empty file,
/// and for any other one the rows after its header.
pub open spec fn file_records(rows: Seq<Seq<Seq<char>>>) -> Option<Seq<RecordView>> {
    if rows.len() == 0 {
        Some(Seq::empty())
    } else if rows[0] == header_row() {
        decode_rows(rows.drop_first())
    } else {
        None
    }
}

/// The last version of the record `id`.
pub open spec fn latest(records: Seq<RecordView>, id: Seq<char>) -> Option<RecordView>
    decreases records.len(),
{
    if records.len() == 0 {
        None
    } else if records.last().id == id {
        Some(records.last())
    } else {
        latest(records.drop_last(), id)
    }
}

/// The record `id` as the store holds it: its last version, unless that
/// one is marked deleted.
pub open spec fn stored(records: Seq<RecordView>, id: Seq<char>) -> Option<RecordView> {
    match latest(records, id) {
        Some(r) => if r.is_deleted {
            None
        } else {
            Some(r)
        },
        None => None,
    }
}

/// `live` holds, once each, exactly the records that the store holds.
pub open spec fn is_live_set(live: Seq<RecordView>, records: Seq<RecordView>) -> bool {
    &&& distinct_ids(live)
    &&& forall|k: int| 0 <= k < live.len() ==> stored(records, #[trigger] live[k].id) == Some(live[k])
    &&& forall|id: Seq<char>|
        stored(records, id) is Some ==> exists|k: int| 0 <= k < live.len() && #[trigger] live[k].id == id
}

fn header_fields() -> (r: Vec<String>)
    ensures
        r.deep_view() == header_row(),
{
    let mut r: Vec<String> = Vec::new();
    r.push(text_field("id"));
    r.push(text_field("interval"));
    r.push(text_field("script"));
    r.push(text_field("url"));
    r.push(text_field("chat_id"));
    r.push(text_field("is_deleted"));
    assert(r.deep_view() =~= header_row());
    r
}

/// The fields of the row that stores `record`.
pub fn record_fields(record: &Record) -> (r: Vec<String>)
    ensures
        r.deep_view() == row_of(record@),
{
    let mut r: Vec<String> = Vec::new();
    r.push(record.id.clone());
    r.push(format_u64(record.interval));
    r.push(record.script.clone());
    r.push(record.url.clone());
    match &record.chat_id {
        Some(c) => r.push(c.clone()),
        None => r.push(String::new()),
    }
    if record.is_deleted {
        r.push(text_field("true"));
    } else {
        r.push(text_field("false"));
    }
    assert(r.deep_view() =~= row_of(record@));
    r
}

fn same_fields(a: &Vec<String>, b: &Vec<String>) -> (r: bool)
    ensures
        r == (a.deep_view() == b.deep_view()),
{
    if a.len() != b.len() {
        assert(a.deep_view().len() != b.deep_view().len());
        return false;
    }
    let mut i: usize = 0;
    while i < a.len()
        invariant
            a@.len() == b@.len(),
            i <= a@.len(),
            forall|k: int| 0 <= k < i ==> #[trigger] a@[k]@ == b@[k]@,
        decreases a.len() - i,
    {
        if a[i] != b[i] {
            assert(a.deep_view()[i as int] != b.deep_view()[i as int]);
            return false;
        }
        i = i + 1;
    }
    assert(a.deep_view() =~= b.deep_view());
    true
}

/// The record that a row describes, or nothing when it describes none.
pub fn record_from_fields(fields: &Vec<String>) -> (r: Option<Record>)
    ensures
        view_of(r) == decode_row(fields.deep_view()),
{
    if fields.len() != 6 {
        return None;
    }
    let interval = match parse_u64(fields[1].as_str()) {
        Some(n) => n,
        None => return None,
    };
    let is_deleted = if fields[5] == text_field("true") {
        true
    } else if fields[5] == text_field("false") {
        false
    } else {
        return None;
    };
    let chat_id = if fields[4].unicode_len() == 0 {
        None
    } else {
        Some(fields[4].clone())
    };
    let r = Record {
        id: fields[0].clone(),
        interval,
        script: fields[2].clone(),
        url: fields[3].clone(),
        chat_id,
        is_deleted,
    };
    assert(fields.deep_view()[5] == fields@[5]@);
    Some(r)
}

/// The records of a data file, in row order.
pub fn records_from_rows(rows: &Vec<Vec<String>>) -> (r: Result<Vec<Record>, SchedulerErrors>)
    ensures
        match r {
            Ok(v) => file_records(rows.deep_view()) == Some(records_view(v@)),
            Err(e) => {
                &&& file_records(rows.deep_view()) is None
                &&& e is BadHeader <==> rows@.len() > 0 && rows.deep_view()[0] != header_row()
                &&& e is BadHeader || e is BadRow
            },
        },
{
    let mut out: Vec<Record> = Vec::new();
    if rows.len() == 0 {
        assert(records_view(out@) =~= Seq::<RecordView>::empty());
        return Ok(out);
    }
    if !same_fields(&rows[0], &header_fields()) {
        return Err(SchedulerErrors::BadHeader);
    }
    assert(rows.deep_view()[0] == header_row());
    let ghost body = rows.deep_view().drop_first();
    let mut i: usize = 1;
    assert(records_view(out@) =~= Seq::<RecordView>::empty());
    assert(body.subrange(0, 0) =~= Seq::<Seq<Seq<char>>>::empty());
    while i < rows.len()
        invariant
            1 <= i <= rows@.len(),
            body == rows.deep_view().drop_first(),
            rows.deep_view()[0] == header_row(),
            decode_rows(body.subrange(0, i - 1)) == Some(records_view(out@)),
        decreases rows.len() - i,
    {
        let ghost before = out@;
        assert(body.subrange(0, i as int).drop_last() =~= body.subrange(0, i - 1));
        assert(body[i - 1] == rows@[i as int].deep_view());
        match record_from_fields(&rows[i]) {
            Some(rec) => {
                out.push(rec);
                assert(records_view(out@) =~= records_view(before).push(out@[out@.len() - 1]@));
            },
            None => {
                proof {
                    assert(decode_row(body[i - 1]) is None);
                    assert(decode_rows(body.subrange(0, i as int)) is None);
                    lemma_decode_rows_prefix(body, i as int);
                    assert(rows.deep_view()[0] == header_row());
                }
                return Err(SchedulerErrors::BadRow);
            },
        }
        i = i + 1;
    }
    assert(body.subrange(0, i - 1) =~= body);
    Ok(out)
}

proof fn lemma_latest_push(s: Seq<RecordView>, r: RecordView, x: Seq<char>)
    ensures
        latest(s.push(r), x) == if r.id == x {
            Some(r)
        } else {
            latest(s, x)
        },
{
    assert(s.push(r).drop_last() =~= s);
}

fn find_record(records: &Vec<Record>, id: &String) -> (r: Option<usize>)
    ensures
        r matches Some(j) ==> j < records@.len() && records@[j as int]@.id == id@,
        r is None ==> forall|k: int| 0 <= k < records@.len() ==> #[trigger] records@[k]@.id != id@,
{
    let mut i: usize = 0;
    while i < records.len()
        invariant
            i <= records@.len(),
            forall|k: int| 0 <= k < i ==> #[trigger] records@[k]@.id != id@,
        decreases records.len() - i,
    {
        if records[i].id == *id {
            return Some(i);
        }
        i = i + 1;
    }
    None
}

/// The record `id` as held by a sequence of stored versions.
pub fn latest_stored(records: &Vec<Record>, id: &String) -> (r: Option<Record>)
    ensures
        view_of(r) == stored(records_view(records@), id@),
{
    let ghost all = records_view(records@);
    let mut found: Option<usize> = None;
    let mut i: usize = 0;
    while i < records.len()
        invariant
            i <= records@.len(),
            all == records_view(records@),
            found matches Some(k) ==> k < i && latest(all.subrange(0, i as int), id@) == Some(all[k as int]),
            found is None ==> latest(all.subrange(0, i as int), id@) is None,
        decreases records.len() - i,
    {
        proof {
            assert(all.subrange(0, i + 1) =~= all.subrange(0, i as int).push(all[i as int]));
            lemma_latest_push(all.subrange(0, i as int), all[i as int], id@);
        }
        if records[i].id == *id {
            found = Some(i);
        }
        i = i + 1;
    }
    assert(all.subrange(0, records@.len() as int) =~= all);
    match found {
        Some(k) => {
            if records[k].is_deleted {
                None
            } else {
                Some(records[k].duplicate())
            }
        },
        None => None,
    }
}

/// The records that a sequence of stored versions holds: for each id its
/// last version, unless that one is marked deleted.
pub fn live_records(records: &Vec<Record>) -> (r: Vec<Record>)
    ensures
        is_live_set(records_view(r@), records_view(records@)),
{
    let ghost all = records_view(records@);
    let mut live: Vec<Record> = Vec::new();
    let mut i: usize = 0;
    assert(records_view(live@) =~= Seq::<RecordView>::empty());
    while i < records.len()
        invariant
            i <= records@.len(),
            all == records_view(records@),
            is_live_set(records_view(live@), all.subrange(0, i as int)),
        decreases records.len() - i,
    {
        let ghost pre = all.subrange(0, i as int);
        let ghost old_live = records_view(live@);
        let ghost r = all[i as int];
        assert(all.subrange(0, i + 1) =~= pre.push(r));
        proof {
            assert forall|x: Seq<char>| #[trigger] latest(pre.push(r), x) == if r.id == x {
                Some(r)
            } else {
                latest(pre, x)
            } by {
                lemma_latest_push(pre, r, x);
            }
        }
        let rec = &records[i];
        match find_record(&live, &rec.id) {
            Some(j) => {
                if rec.is_deleted {
                    live.remove(j);
                    let ghost nl = records_view(live@);
                    assert(nl =~= old_live.remove(j as int));
                    assert forall|k: int| 0 <= k < nl.len() implies #[trigger] nl[k].id != r.id by {
                        if k < j {
                            assert(nl[k] == old_live[k]);
                        } else {
                            assert(nl[k] == old_live[k + 1]);
                        }
                    }
                    assert forall|id: Seq<char>| stored(pre.push(r), id) is Some implies exists|k: int|
                        0 <= k < nl.len() && #[trigger] nl[k].id == id by {
                        assert(latest(pre.push(r), id) == latest(pre, id));
                        assert(stored(pre, id) is Some);
                        let k = choose|k: int| 0 <= k < old_live.len() && #[trigger] old_live[k].id == id;
                        if k < j {
                            assert(nl[k] == old_live[k]);
                        } else {
                            assert(k != j);
                            assert(nl[k - 1] == old_live[k]);
                        }
                    }
                    assert forall|k: int| 0 <= k < nl.len() implies stored(pre.push(r), #[trigger] nl[k].id)
                        == Some(nl[k]) by {
                        if k < j {
                            assert(nl[k] == old_live[k]);
                        } else {
                            assert(nl[k] == old_live[k + 1]);
                        }
                    }
                    assert forall|a: int, b: int|
                        0 <= a < nl.len() && 0 <= b < nl.len() && a != b implies #[trigger] nl[a].id
                        != #[trigger] nl[b].id by {
                        let oa = if a < j { a } else { a + 1 };
                        let ob = if b < j { b } else { b + 1 };
                        assert(nl[a] == old_live[oa] && nl[b] == old_live[ob]);
                    }
                } else {
                    live.set(j, rec.duplicate());
                    let ghost nl = records_view(live@);
                    assert(nl =~= old_live.update(j as int, r));
                    assert forall|k: int| 0 <= k < nl.len() implies stored(pre.push(r), #[trigger] nl[k].id)
                        == Some(nl[k]) by {
                        if k != j {
                            assert(nl[k] == old_live[k]);
                            assert(old_live[k].id != old_live[j as int].id);
                        }
                    }
                    assert forall|id: Seq<char>| stored(pre.push(r), id) is Some implies exists|k: int|
                        0 <= k < nl.len() && #[trigger] nl[k].id == id by {
                        if id != r.id {
                            assert(latest(pre.push(r), id) == latest(pre, id));
                            assert(stored(pre, id) is Some);
                            let k = choose|k: int| 0 <= k < old_live.len() && #[trigger] old_live[k].id == id;
                            assert(nl[k].id == id);
                        } else {
                            assert(nl[j as int].id == id);
                        }
                    }
                    assert forall|a: int, b: int|
                        0 <= a < nl.len() && 0 <= b < nl.len() && a != b implies #[trigger] nl[a].id
                        != #[trigger] nl[b].id by {
                        assert(old_live[a].id != old_live[b].id);
                    }
                }
            },
            None => {
                if !rec.is_deleted {
                    live.push(rec.duplicate());
                    let ghost nl = records_view(live@);
                    assert(nl =~= old_live.push(r));
                    assert forall|k: int| 0 <= k < nl.len() implies stored(pre.push(r), #[trigger] nl[k].id)
                        == Some(nl[k]) by {
                        if k < old_live.len() {
                            assert(nl[k] == old_live[k]);
                        }
                    }
                    assert forall|id: Seq<char>| stored(pre.push(r), id) is Some implies exists|k: int|
                        0 <= k < nl.len() && #[trigger] nl[k].id == id by {
                        if id != r.id {
                            assert(latest(pre.push(r), id) == latest(pre, id));
                            assert(stored(pre, id) is Some);
                            let k = choose|k: int| 0 <= k < old_live.len() && #[trigger] old_live[k].id == id;
                            assert(nl[k].id == id);
                        } else {
                            assert(nl[old_live.len() as int].id == id);
                        }
                    }
                    assert forall|a: int, b: int|
                        0 <= a < nl.len() && 0 <= b < nl.len() && a != b implies #[trigger] nl[a].id
                        != #[trigger] nl[b].id by {
                        if a < old_live.len() && b < old_live.len() {
                            assert(old_live[a].id != old_live[b].id);
                        } else if a < old_live.len() {
                            assert(nl[a] == old_live[a]);
                        } else {
                            assert(nl[b] == old_live[b]);
                        }
                    }
                } else {
                    assert forall|id: Seq<char>| stored(pre.push(r), id) is Some implies exists|k: int|
                        0 <= k < old_live.len() && #[trigger] old_live[k].id == id by {
                        assert(id != r.id);
                        assert(latest(pre.push(r), id) == latest(pre, id));
                        assert(stored(pre, id) is Some);
                    }
                }
            },
        }
        i = i + 1;
    }
    assert(all.subrange(0, records@.len() as int) =~= all);
    live
}

/// The records of a data file as its bytes show them, when the bytes read
/// as a data file.
pub open spec fn file_contents(bytes: Seq<u8>) -> Option<Seq<RecordView>> {
    match csv_records(bytes) {
        Some(rows) => file_records(rows),
        None => None,
    }
}

/// The rows that `add` appends for a record: behind a header in an empty
/// file.
pub open spec fn added_rows(r: RecordView, empty: bool) -> Seq<Seq<Seq<char>>> {
    if empty {
        seq![header_row(), row_of(r)]
    } else {
        seq![row_of(r)]
    }
}

/// The bytes that `add` appends, when csv's writer writes them.
pub open spec fn added_bytes(r: RecordView, empty: bool) -> Option<Seq<u8>> {
    match (csv_line(header_row()), csv_line(row_of(r))) {
        (Some(h), Some(l)) => Some(if empty { h + l } else { l }),
        (None, Some(l)) => if empty { None } else { Some(l) },
        _ => None,
    }
}

fn read_file(contents: &[u8]) -> (r: Result<Vec<Record>, SchedulerErrors>)
    ensures
        match r {
            Ok(v) => file_contents(contents@) == Some(records_view(v@)),
            Err(e) => {
                &&& file_contents(contents@) is None
                &&& e is CSV <==> csv_records(contents@) is None
            },
        },
{
    match read_rows(contents) {
        Ok(rows) => records_from_rows(&rows),
        Err(e) => Err(SchedulerErrors::CSV(e)),
    }
}

/// Every record that the data file holds, once each.
pub fn load(contents: &[u8]) -> (r: Result<Vec<Record>, SchedulerErrors>)
    ensures
        r is Ok <==> file_contents(contents@) is Some,
        r matches Ok(v) ==> is_live_set(records_view(v@), file_contents(contents@)->Some_0),
        r matches Err(e) ==> (e is CSV <==> csv_records(contents@) is None),
{
    let versions = read_file(contents)?;
    Ok(live_records(&versions))
}

/// The record `id` as the data file holds it.
pub fn get(contents: &[u8], id: &String) -> (r: Result<Option<Record>, SchedulerErrors>)
    ensures
        r is Ok <==> file_contents(contents@) is Some,
        r matches Ok(o) ==> view_of(o) == stored(file_contents(contents@)->Some_0, id@),
        r matches Err(e) ==> (e is CSV <==> csv_records(contents@) is None),
{
    let versions = read_file(contents)?;
    Ok(latest_stored(&versions, id))
}

fn line_of(record: &Record) -> (r: Result<Vec<u8>, SchedulerErrors>)
    ensures
        r is Ok <==> csv_line(row_of(record@)) is Some,
        r matches Ok(b) ==> csv_line(row_of(record@)) == Some(b@),
        r matches Err(e) ==> e is CSV,
{
    match write_row(&record_fields(record)) {
        Ok(b) => Ok(b),
        Err(e) => Err(SchedulerErrors::CSV(e)),
    }
}

/// The bytes to append to a data file of `file_len` bytes to store
/// `record`, replacing any earlier version of it.
pub fn add(record: &Record, file_len: u64) -> (r: Result<Vec<u8>, SchedulerErrors>)
    ensures
        r is Ok <==> added_bytes(record@, file_len == 0) is Some,
        r matches Ok(b) ==> added_bytes(record@, file_len == 0) == Some(b@),
        r matches Err(e) ==> e is CSV,
{
    let line = line_of(record)?;
    if file_len == 0 {
        let mut bytes = match write_row(&header_fields()) {
            Ok(b) => b,
            Err(e) => return Err(SchedulerErrors::CSV(e)),
        };
        let ghost head = bytes@;
        let mut tail = line;
        bytes.append(&mut tail);
        assert(bytes@ =~= head + csv_line(row_of(record@))->Some_0);
        Ok(bytes)
    } else {
        Ok(line)
    }
}

/// The bytes to append to a data file to give the record `id` the
/// subscriber `chat_id`; nothing when the file holds no such record.
pub fn update(contents: &[u8], id: &String, chat_id: String) -> (r: Result<
    Option<Vec<u8>>,
    SchedulerErrors,
>)
    ensures
        match (r, file_contents(contents@)) {
            (Ok(None), Some(recs)) => stored(recs, id@) is None,
            (Ok(Some(b)), Some(recs)) => stored(recs, id@) matches Some(rec) && csv_line(
                row_of(RecordView { chat_id: Some(chat_id@), ..rec }),
            ) == Some(b@),
            (Err(e), Some(recs)) => e is CSV && (stored(recs, id@) matches Some(rec) && csv_line(
                row_of(RecordView { chat_id: Some(chat_id@), ..rec }),
            ) is None),
            (Err(e), None) => e is CSV <==> csv_records(contents@) is None,
            (Ok(_), None) => false,
        },
{
    match get(contents, id)? {
        Some(record) => Ok(Some(line_of(&record.with_chat_id(chat_id))?)),
        None => Ok(None),
    }
}

/// The bytes to append to a data file to mark the record `id` deleted;
/// nothing when the file holds no such record.
pub fn remove(contents: &[u8], id: &String) -> (r: Result<Option<Vec<u8>>, SchedulerErrors>)
    ensures
        match (r, file_contents(contents@)) {
            (Ok(None), Some(recs)) => stored(recs, id@) is None,
            (Ok(Some(b)), Some(recs)) => stored(recs, id@) matches Some(rec) && csv_line(
                row_of(RecordView { is_deleted: true, ..rec }),
            ) == Some(b@),
            (Err(e), Some(recs)) => e is CSV && (stored(recs, id@) matches Some(rec) && csv_line(
                row_of(RecordView { is_deleted: true, ..rec }),
            ) is None),
            (Err(e), None) => e is CSV <==> csv_records(contents@) is None,
            (Ok(_), None) => false,
        },
{
    match get(contents, id)? {
        Some(record) => {
            let tombstone = Record { is_deleted: true, ..record };
            Ok(Some(line_of(&tombstone)?))
        },
        None => Ok(None),
    }
}

/// A row written for a record reads back as that record, unless the record
/// has an empty subscriber, which reads back as none.
pub proof fn lemma_row_round_trip(r: RecordView)
    ensures
        r.chat_id != Some(Seq::<char>::empty()) ==> decode_row(row_of(r)) == Some(r),
{
    reveal_strlit("true");
    reveal_strlit("false");
    lemma_parse_format(r.interval);
    let f = row_of(r);
    assert(f[5] == flag_text(r.is_deleted));
    assert("true"@ != "false"@) by {
        assert("true"@.len() != "false"@.len());
    }
    if r.chat_id != Some(Seq::<char>::empty()) {
        if let Some(c) = r.chat_id {
            assert(c.len() != 0) by {
                if c.len() == 0 {
                    assert(c =~= Seq::<char>::empty());
                }
            }
        }
        assert(f.len() == 6);
        assert(parsed_u64(f[1]) == Some(r.interval));
        let d = decode_row(f)->Some_0;
        assert(d.is_deleted == r.is_deleted);
        assert(d.chat_id == r.chat_id);
        assert(d == r);
    }
}

/// Upsert, row by row: appending to a readable data file the rows that
/// `add` writes for a record (with a subscriber that is absent or not
/// empty) gives a file that reads as before followed by that record, and
/// under its id the store then holds exactly that record, whatever versions
/// came before.
pub proof fn lemma_upsert(rows: Seq<Seq<Seq<char>>>, r: RecordView)
    requires
        file_records(rows) is Some,
        r.chat_id != Some(Seq::<char>::empty()),
        !r.is_deleted,
    ensures
        file_records(rows + added_rows(r, rows.len() == 0)) == Some(file_records(rows)->Some_0.push(r)),
        stored(file_records(rows + added_rows(r, rows.len() == 0))->Some_0, r.id) == Some(r),
{
    lemma_row_round_trip(r);
    let grown = rows + added_rows(r, rows.len() == 0);
    if rows.len() == 0 {
        assert(grown =~= seq![header_row(), row_of(r)]);
        assert(grown.drop_first() =~= seq![row_of(r)]);
        assert(grown.drop_first().drop_last() =~= Seq::<Seq<Seq<char>>>::empty());
        assert(file_records(rows)->Some_0 =~= Seq::<RecordView>::empty());
        assert(decode_rows(Seq::<Seq<Seq<char>>>::empty()) == Some(Seq::<RecordView>::empty()));
        assert(decode_rows(grown.drop_first()) == Some(Seq::<RecordView>::empty().push(r)));
    } else {
        assert(grown =~= rows.push(row_of(r)));
        assert(grown[0] == rows[0]);
        assert(grown.drop_first().drop_last() =~= rows.drop_first());
        assert(grown.drop_first().last() == row_of(r));
    }
    let recs = file_records(grown)->Some_0;
    assert(recs.drop_last() =~= file_records(rows)->Some_0);
}

proof fn lemma_decode_rows_prefix(rows: Seq<Seq<Seq<char>>>, n: int)
    requires
        0 <= n <= rows.len(),
        decode_rows(rows.subrange(0, n)) is None,
    ensures
        decode_rows(rows) is None,
    decreases rows.len() - n,
{
    if n < rows.len() {
        assert(rows.subrange(0, n + 1).drop_last() =~= rows.subrange(0, n));
        lemma_decode_rows_prefix(rows, n + 1);
    } else {
        assert(rows.subrange(0, n) =~= rows);
    }
}

} // verus!
