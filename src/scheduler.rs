//! The command actor: the one owner of the interval table.
//!
//! Commands are handled one at a time. Where a command needs the store or
//! the broker, the actor answers with an [`Action`]; whoever runs the actor
//! performs it and hands the outcome back through [`Scheduler::activation`],
//! [`Scheduler::activated`] or [`Scheduler::dispatch`].
use vstd::prelude::*;
use crate::intervals::{
    activated, due_ids, has_entry, tick_all, unique_ids, without, EntryView, IntervalTable,
};
use crate::messages::{Exchanges, Messages};
use crate::record::{clone_text, records_view, Record, RecordView};

verus! {

/// The commands that the actor serialises.
pub enum Command {
    /// Persist a new or changed job.
    Add(Record),
    /// Attach a subscriber to a job and start its countdown.
    Activate { id: String, chat_id: String },
    /// One second has passed.
    Tick,
    /// Drop a job and its countdown.
    Delete { id: String },
    /// Report the jobs of a subscriber.
    List { chat_id: String },
}

/// The outside work that a command leaves to be done.
pub enum Action {
    Nothing,
    /// Store the record (an upsert).
    Persist(Record),
    /// Read the record of `id` from the store and pass it to
    /// [`Scheduler::activation`]; store what that returns and, once it is
    /// stored, pass it to [`Scheduler::activated`].
    Fetch { id: String, chat_id: String },
    /// Read the record of each id from the store and pass it to
    /// [`Scheduler::dispatch`].
    Dispatch(Vec<String>),
    /// Remove the record of this id from the store.
    Remove(String),
    /// Load every record from the store and pass them to
    /// [`Scheduler::listing`].
    Collect { chat_id: String },
}

/// The table that startup recovery builds: a fresh countdown for every
/// record with a subscriber, in the order of the records.
pub open spec fn seeded(records: Seq<RecordView>) -> Seq<EntryView>
    decreases records.len(),
{
    if records.len() == 0 {
        Seq::empty()
    } else {
        let before = seeded(records.drop_last());
        let r = records.last();
        if r.chat_id is Some {
            activated(before, r.id, r.interval)
        } else {
            before
        }
    }
}

/// The jobs of the subscriber `chat_id`, in the order of the records, each
/// as its url and id.
pub open spec fn subscriptions(records: Seq<RecordView>, chat_id: Seq<char>) -> Seq<(Seq<char>, Seq<char>)>
    decreases records.len(),
{
    if records.len() == 0 {
        Seq::empty()
    } else {
        let before = subscriptions(records.drop_last(), chat_id);
        let r = records.last();
        if r.chat_id == Some(chat_id) {
            before.push((r.url, r.id))
        } else {
            before
        }
    }
}

/// The scrape message that a due job sends, built from its stored record.
pub open spec fn scrape_of(r: RecordView, m: Messages) -> bool {
    match m {
        Messages::Scrape { id, chat_id, url, script } => {
            &&& id@ == r.id
            &&& chat_id.deep_view() == r.chat_id
            &&& url@ == r.url
            &&& script@ == r.script
        },
        _ => false,
    }
}

proof fn lemma_activated_keeps(s: Seq<EntryView>, id: Seq<char>, interval: u64, other: Seq<char>)
    requires
        unique_ids(s),
    ensures
        unique_ids(activated(s, id, interval)),
        has_entry(activated(s, id, interval), other) <==> (has_entry(s, other) || other == id),
        forall|i: int| 0 <= i < s.len() ==> #[trigger] activated(s, id, interval)[i] == s[i],
{
    let t = activated(s, id, interval);
    if !has_entry(s, id) {
        assert(t[s.len() as int].id == id);
        assert forall|i: int, j: int|
            0 <= i < t.len() && 0 <= j < t.len() && i != j implies #[trigger] t[i].id != #[trigger] t[j].id by {
            if i < s.len() && j < s.len() {
                assert(t[i] == s[i] && t[j] == s[j]);
            } else if i < s.len() {
                assert(t[i] == s[i]);
            } else {
                assert(t[j] == s[j]);
            }
        }
        if has_entry(t, other) {
            let i = choose|i: int| 0 <= i < t.len() && #[trigger] t[i].id == other;
            if i < s.len() {
                assert(s[i].id == other);
            }
        }
        if has_entry(s, other) {
            let i = choose|i: int| 0 <= i < s.len() && #[trigger] s[i].id == other;
            assert(t[i].id == other);
        }
    }
}

/// Startup recovery yields a table without duplicate ids, in which exactly
/// the ids of the records with a subscriber count down, each from its full
/// period.
pub proof fn lemma_seeded(records: Seq<RecordView>)
    ensures
        unique_ids(seeded(records)),
        forall|id: Seq<char>|
            has_entry(seeded(records), id) <==> exists|i: int|
                0 <= i < records.len() && #[trigger] records[i].id == id && records[i].chat_id is Some,
        forall|i: int|
            0 <= i < seeded(records).len() ==> #[trigger] seeded(records)[i].remaining
                == seeded(records)[i].total,
    decreases records.len(),
{
    if records.len() > 0 {
        let rest = records.drop_last();
        lemma_seeded(rest);
        let before = seeded(rest);
        let r = records.last();
        assert forall|id: Seq<char>|
            has_entry(seeded(records), id) <==> exists|i: int|
                0 <= i < records.len() && #[trigger] records[i].id == id && records[i].chat_id is Some by {
            if r.chat_id is Some {
                lemma_activated_keeps(before, r.id, r.interval, id);
            }
            if has_entry(before, id) {
                let i = choose|i: int|
                    0 <= i < rest.len() && #[trigger] rest[i].id == id && rest[i].chat_id is Some;
                assert(records[i] == rest[i]);
            }
            if exists|i: int| 0 <= i < records.len() && #[trigger] records[i].id == id && records[i].chat_id is Some {
                let i = choose|i: int|
                    0 <= i < records.len() && #[trigger] records[i].id == id && records[i].chat_id is Some;
                if i < rest.len() {
                    assert(rest[i] == records[i]);
                }
            }
        }
        if r.chat_id is Some {
            lemma_activated_keeps(before, r.id, r.interval, r.id);
        }
    }
}

/// The command actor. It owns the countdowns of the active jobs.
pub struct Scheduler {
    intervals: IntervalTable,
}

impl View for Scheduler {
    type V = Seq<EntryView>;

    closed spec fn view(&self) -> Seq<EntryView> {
        self.intervals@
    }
}

impl Scheduler {
    pub closed spec fn wf(&self) -> bool {
        self.intervals.wf()
    }

    /// Startup recovery from the records that the store loaded: every record
    /// with a subscriber gets a fresh countdown of its full interval.
    pub fn new(records: Vec<Record>) -> (r: Scheduler)
        ensures
            r.wf(),
            r@ == seeded(records_view(records@)),
            unique_ids(r@),
            forall|id: Seq<char>|
                has_entry(r@, id) <==> exists|i: int|
                    0 <= i < records@.len() && #[trigger] records@[i]@.id == id
                        && records@[i].chat_id is Some,
    {
        let mut intervals = IntervalTable::new();
        let mut i: usize = 0;
        while i < records.len()
            invariant
                i <= records@.len(),
                intervals.wf(),
                intervals@ == seeded(records_view(records@.subrange(0, i as int))),
            decreases records.len() - i,
        {
            let r = &records[i];
            assert(records_view(records@.subrange(0, i + 1)).drop_last() =~= records_view(
                records@.subrange(0, i as int),
            ));
            if r.chat_id.is_some() {
                intervals.activate(r.id.clone(), r.interval);
            }
            i = i + 1;
        }
        assert(records@.subrange(0, records@.len() as int) =~= records@);
        let r = Scheduler { intervals };
        proof {
            let rv = records_view(records@);
            lemma_seeded(rv);
            assert forall|id: Seq<char>|
                has_entry(r@, id) <==> exists|i: int|
                    0 <= i < records@.len() && #[trigger] records@[i]@.id == id
                        && records@[i].chat_id is Some by {
                if has_entry(r@, id) {
                    let k = choose|k: int| 0 <= k < rv.len() && #[trigger] rv[k].id == id && rv[k].chat_id is Some;
                    assert(records@[k]@.id == id);
                }
                if exists|i: int|
                    0 <= i < records@.len() && #[trigger] records@[i]@.id == id
                        && records@[i].chat_id is Some {
                    let k = choose|k: int|
                        0 <= k < records@.len() && #[trigger] records@[k]@.id == id
                            && records@[k].chat_id is Some;
                    assert(rv[k].id == id);
                }
            }
        }
        r
    }

    /// The countdowns, for inspection.
    pub fn intervals(&self) -> (r: &IntervalTable)
        ensures
            r@ == self@,
            r.wf() == self.wf(),
    {
        &self.intervals
    }

    /// The command that an inbound message asks for; other messages ask for
    /// none.
    pub fn receive(message: Messages) -> (r: Option<Command>)
        ensures
            match message {
                Messages::Create { id, url, script, interval } => r matches Some(Command::Add(rec)) && rec@
                    == (RecordView {
                    id: id@,
                    interval,
                    script: script@,
                    url: url@,
                    chat_id: None,
                    is_deleted: false,
                }),
                Messages::Activate { id, chat_id } => r matches Some(Command::Activate { id: i, chat_id: c })
                    && i@ == id@ && c@ == chat_id@,
                Messages::Delete { id } => r matches Some(Command::Delete { id: i }) && i@ == id@,
                Messages::List { chat_id } => r matches Some(Command::List { chat_id: c }) && c@ == chat_id@,
                _ => r is None,
            },
    {
        match message {
            Messages::Create { id, url, script, interval } => Some(
                Command::Add(Record::new(id, url, script, interval)),
            ),
            Messages::Activate { id, chat_id } => Some(Command::Activate { id, chat_id }),
            Messages::Delete { id } => Some(Command::Delete { id }),
            Messages::List { chat_id } => Some(Command::List { chat_id }),
            _ => None,
        }
    }

    /// Handles one command: updates the countdowns and says what is left to
    /// do outside.
    pub fn handle(&mut self, command: Command) -> (action: Action)
        requires
            old(self).wf(),
        ensures
            final(self).wf(),
            match command {
                Command::Add(rec) => {
                    &&& final(self)@ == old(self)@
                    &&& (action matches Action::Persist(p) && p@ == rec@)
                },
                Command::Activate { id, chat_id } => {
                    &&& final(self)@ == old(self)@
                    &&& has_entry(old(self)@, id@) ==> action is Nothing
                    &&& !has_entry(old(self)@, id@) ==> (action matches Action::Fetch { id: i, chat_id: c }
                        && i@ == id@ && c@ == chat_id@)
                },
                Command::Tick => {
                    &&& final(self)@ == tick_all(old(self)@)
                    &&& (action matches Action::Dispatch(ids) && ids.deep_view() == due_ids(old(self)@))
                },
                Command::Delete { id } => {
                    &&& final(self)@ == without(old(self)@, id@)
                    &&& (action matches Action::Remove(i) && i@ == id@)
                },
                Command::List { chat_id } => {
                    &&& final(self)@ == old(self)@
                    &&& (action matches Action::Collect { chat_id: c } && c@ == chat_id@)
                },
            },
    {
        match command {
            Command::Add(record) => Action::Persist(record),
            Command::Activate { id, chat_id } => {
                if self.intervals.contains(&id) {
                    Action::Nothing
                } else {
                    Action::Fetch { id, chat_id }
                }
            },
            Command::Tick => Action::Dispatch(self.intervals.tick()),
            Command::Delete { id } => {
                self.intervals.remove(&id);
                Action::Remove(id)
            },
            Command::List { chat_id } => Action::Collect { chat_id },
        }
    }

    /// The record to persist for an activation, given what the store held
    /// for the job: the stored record with the subscriber attached, or
    /// nothing when the store had no such job.
    pub fn activation(chat_id: String, fetched: Option<Record>) -> (r: Option<Record>)
        ensures
            fetched is None ==> r is None,
            fetched matches Some(f) ==> r matches Some(a) && a@ == (RecordView {
                chat_id: Some(chat_id@),
                ..f@
            }),
    {
        match fetched {
            Some(record) => Some(record.with_chat_id(chat_id)),
            None => None,
        }
    }

    /// The activated record was persisted: its countdown starts at its full
    /// interval, unless it already runs.
    pub fn activated(&mut self, record: &Record)
        requires
            old(self).wf(),
        ensures
            final(self).wf(),
            final(self)@ == activated(old(self)@, record@.id, record.interval),
    {
        self.intervals.activate(record.id.clone(), record.interval);
    }

    /// The reply to a listing request: the jobs of the subscriber among the
    /// stored records, for the bot.
    pub fn listing(chat_id: String, records: &Vec<Record>) -> (r: (Exchanges, Messages))
        ensures
            r.0 == Exchanges::Bot,
            r.1 matches Messages::ListResponse { records: found, chat_id: c } && c@ == chat_id@
                && found.deep_view() == subscriptions(records_view(records@), chat_id@),
    {
        let ghost all = records_view(records@);
        let mut found: Vec<(String, String)> = Vec::new();
        let mut i: usize = 0;
        while i < records.len()
            invariant
                i <= records@.len(),
                all == records_view(records@),
                found.deep_view() == subscriptions(all.subrange(0, i as int), chat_id@),
            decreases records.len() - i,
        {
            let ghost before = found.deep_view();
            let r = &records[i];
            assert(all.subrange(0, i + 1).drop_last() =~= all.subrange(0, i as int));
            let mine = match &r.chat_id {
                Some(c) => *c == chat_id,
                None => false,
            };
            if mine {
                found.push((r.url.clone(), r.id.clone()));
                assert(found.deep_view() =~= before.push((r.url@, r.id@)));
            }
            i = i + 1;
        }
        assert(all.subrange(0, records@.len() as int) =~= all);
        (Exchanges::Bot, Messages::ListResponse { records: found, chat_id })
    }

    /// The message to publish for a due job, given what the store holds for
    /// it: a scrape for the scraper, or nothing when the job is gone.
    pub fn dispatch(fetched: Option<Record>) -> (r: Option<(Exchanges, Messages)>)
        ensures
            fetched is None ==> r is None,
            fetched matches Some(f) ==> r matches Some((e, m)) && e == Exchanges::Scraper && scrape_of(
                f@,
                m,
            ),
    {
        match fetched {
            Some(record) => {
                let chat_id = clone_text(&record.chat_id);
                Some(
                    (
                        Exchanges::Scraper,
                        Messages::Scrape { id: record.id, chat_id, url: record.url, script: record.script },
                    ),
                )
            },
            None => None,
        }
    }
}

} // verus!
