//! The scrape job definition that the stores persist.
use vstd::prelude::*;

verus! {

/// A scrape job: what to run, where, how often, and who is subscribed.
///
/// `chat_id` is absent while the job is dormant and present once a
/// subscriber has activated it. `is_deleted` marks a record that a store
/// keeps only as a tombstone.
#[derive(Debug, Clone, PartialEq, Eq)]
pub struct Record {
    pub id: String,
    pub interval: u64,
    pub script: String,
    pub url: String,
    pub chat_id: Option<String>,
    pub is_deleted: bool,
}

/// The mathematical value of a [`Record`].
pub struct RecordView {
    pub id: Seq<char>,
    pub interval: u64,
    pub script: Seq<char>,
    pub url: Seq<char>,
    pub chat_id: Option<Seq<char>>,
    pub is_deleted: bool,
}

impl View for Record {
    type V = RecordView;

    open spec fn view(&self) -> RecordView {
        RecordView {
            id: self.id@,
            interval: self.interval,
            script: self.script@,
            url: self.url@,
            chat_id: self.chat_id.deep_view(),
            is_deleted: self.is_deleted,
        }
    }
}

pub open spec fn records_view(records: Seq<Record>) -> Seq<RecordView> {
    records.map_values(|r: Record| r@)
}

pub open spec fn view_of(r: Option<Record>) -> Option<RecordView> {
    match r {
        Some(rec) => Some(rec@),
        None => None,
    }
}

/// No two records share an id.
pub open spec fn distinct_ids(s: Seq<RecordView>) -> bool {
    forall|i: int, j: int|
        0 <= i < s.len() && 0 <= j < s.len() && i != j ==> #[trigger] s[i].id != #[trigger] s[j].id
}

pub(crate) fn text_field(s: &str) -> (r: String)
    ensures
        r@ == s@,
{
    String::from_str(s)
}

pub(crate) fn clone_text(s: &Option<String>) -> (r: Option<String>)
    ensures
        r.deep_view() == s.deep_view(),
{
    match s {
        Some(text) => Some(text.clone()),
        None => None,
    }
}

impl Record {
    /// A dormant job, as the intake layer creates it.
    pub fn new(id: String, url: String, script: String, interval: u64) -> (r: Record)
        ensures
            r@ == (RecordView {
                id: id@,
                interval,
                script: script@,
                url: url@,
                chat_id: None,
                is_deleted: false,
            }),
    {
        Record { id, interval, script, url, chat_id: None, is_deleted: false }
    }

    /// A field-by-field copy.
    pub fn duplicate(&self) -> (r: Record)
        ensures
            r@ == self@,
    {
        Record {
            id: self.id.clone(),
            interval: self.interval,
            script: self.script.clone(),
            url: self.url.clone(),
            chat_id: clone_text(&self.chat_id),
            is_deleted: self.is_deleted,
        }
    }

    /// The same record with `chat_id` as its subscriber.
    pub fn with_chat_id(&self, chat_id: String) -> (r: Record)
        ensures
            r@ == (RecordView { chat_id: Some(chat_id@), ..self@ }),
    {
        Record {
            id: self.id.clone(),
            interval: self.interval,
            script: self.script.clone(),
            url: self.url.clone(),
            chat_id: Some(chat_id),
            is_deleted: self.is_deleted,
        }
    }
}

} // verus!
