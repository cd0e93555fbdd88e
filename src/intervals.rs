//! The interval table: one countdown per active job, held in memory only.
use vstd::prelude::*;

verus! {

/// The countdown of one active job, in seconds: the full period and what is
/// left of the current one.
pub struct IntervalEntry {
    pub id: String,
    pub total: u64,
    pub remaining: u64,
}

pub struct EntryView {
    pub id: Seq<char>,
    pub total: u64,
    pub remaining: u64,
}

impl View for IntervalEntry {
    type V = EntryView;

    open spec fn view(&self) -> EntryView {
        EntryView { id: self.id@, total: self.total, remaining: self.remaining }
    }
}

pub open spec fn has_entry(s: Seq<EntryView>, id: Seq<char>) -> bool {
    exists|i: int| 0 <= i < s.len() && #[trigger] s[i].id == id
}

/// No job has two countdowns.
pub open spec fn unique_ids(s: Seq<EntryView>) -> bool {
    forall|i: int, j: int|
        0 <= i < s.len() && 0 <= j < s.len() && i != j ==> #[trigger] s[i].id != #[trigger] s[j].id
}

/// Activation: a job that already counts down keeps its countdown; any
/// other starts a fresh one at the end of the table.
pub open spec fn activated(s: Seq<EntryView>, id: Seq<char>, interval: u64) -> Seq<EntryView> {
    if has_entry(s, id) {
        s
    } else {
        s.push(EntryView { id, total: interval, remaining: interval })
    }
}

/// The table with the countdown of `id` removed, the rest in order.
pub open spec fn without(s: Seq<EntryView>, id: Seq<char>) -> Seq<EntryView>
    decreases s.len(),
{
    if s.len() == 0 {
        s
    } else if s.last().id == id {
        without(s.drop_last(), id)
    } else {
        without(s.drop_last(), id).push(s.last())
    }
}

/// A countdown that reaches zero on this tick: its job is due.
pub open spec fn fires(e: EntryView) -> bool {
    e.remaining <= 1
}

/// One second passes: the countdown goes down by one, and one that reaches
/// zero starts over at its full period.
pub open spec fn ticked(e: EntryView) -> EntryView {
    if fires(e) {
        EntryView { remaining: e.total, ..e }
    } else {
        EntryView { remaining: (e.remaining - 1) as u64, ..e }
    }
}

pub open spec fn tick_all(s: Seq<EntryView>) -> Seq<EntryView> {
    s.map_values(|e: EntryView| ticked(e))
}

/// The ids of the jobs that a tick makes due, in table order.
pub open spec fn due_ids(s: Seq<EntryView>) -> Seq<Seq<char>>
    decreases s.len(),
{
    if s.len() == 0 {
        Seq::empty()
    } else if fires(s.last()) {
        due_ids(s.drop_last()).push(s.last().id)
    } else {
        due_ids(s.drop_last())
    }
}

pub proof fn lemma_without_subset(s: Seq<EntryView>, id: Seq<char>, other: Seq<char>)
    ensures
        has_entry(without(s, id), other) ==> has_entry(s, other) && other != id,
    decreases s.len(),
{
    if s.len() > 0 {
        let rest = without(s.drop_last(), id);
        lemma_without_subset(s.drop_last(), id, other);
        if has_entry(without(s, id), other) {
            let i = choose|i: int| 0 <= i < without(s, id).len() && #[trigger] without(s, id)[i].id == other;
            if s.last().id != id && i == rest.len() {
                assert(s[s.len() - 1].id == other);
            } else {
                assert(rest[i].id == other);
                let j = choose|j: int| 0 <= j < s.drop_last().len() && #[trigger] s.drop_last()[j].id == other;
                assert(s[j].id == other);
            }
        }
    }
}

pub proof fn lemma_without_unique(s: Seq<EntryView>, id: Seq<char>)
    requires
        unique_ids(s),
    ensures
        unique_ids(without(s, id)),
        !has_entry(without(s, id), id),
    decreases s.len(),
{
    if s.len() > 0 {
        let t = s.drop_last();
        assert(unique_ids(t)) by {
            assert forall|i: int, j: int|
                0 <= i < t.len() && 0 <= j < t.len() && i != j implies #[trigger] t[i].id != #[trigger] t[j].id by {
                assert(t[i] == s[i] && t[j] == s[j]);
            }
        }
        lemma_without_unique(t, id);
        lemma_without_subset(t, id, s.last().id);
        if s.last().id != id {
            let w = without(s, id);
            let rest = without(t, id);
            assert(!has_entry(t, s.last().id)) by {
                if has_entry(t, s.last().id) {
                    let j = choose|j: int| 0 <= j < t.len() && #[trigger] t[j].id == s.last().id;
                    assert(s[j].id == s[s.len() - 1].id);
                }
            }
            assert forall|i: int, j: int|
                0 <= i < w.len() && 0 <= j < w.len() && i != j implies #[trigger] w[i].id != #[trigger] w[j].id by {
                if i == rest.len() {
                    assert(rest[j].id == w[j].id);
                } else if j == rest.len() {
                    assert(rest[i].id == w[i].id);
                } else {
                    assert(rest[i] == w[i] && rest[j] == w[j]);
                }
            }
            assert(!has_entry(w, id)) by {
                if has_entry(w, id) {
                    let i = choose|i: int| 0 <= i < w.len() && #[trigger] w[i].id == id;
                    if i < rest.len() {
                        assert(rest[i].id == id);
                    }
                }
            }
        }
    }
}

/// The countdowns of all active jobs.
pub struct IntervalTable {
    entries: Vec<IntervalEntry>,
}

impl View for IntervalTable {
    type V = Seq<EntryView>;

    closed spec fn view(&self) -> Seq<EntryView> {
        self.entries@.map_values(|e: IntervalEntry| e@)
    }
}

impl IntervalTable {
    pub open spec fn wf(&self) -> bool {
        unique_ids(self@)
    }

    /// A table without countdowns.
    pub fn new() -> (r: IntervalTable)
        ensures
            r@ == Seq::<EntryView>::empty(),
            r.wf(),
    {
        let r = IntervalTable { entries: Vec::new() };
        assert(r@ =~= Seq::<EntryView>::empty());
        r
    }

    pub fn len(&self) -> (r: usize)
        ensures
            r == self@.len(),
    {
        self.entries.len()
    }

    /// Whether `id` has a countdown.
    pub fn contains(&self, id: &String) -> (r: bool)
        ensures
            r == has_entry(self@, id@),
    {
        let mut i: usize = 0;
        while i < self.entries.len()
            invariant
                i <= self@.len(),
                self@.len() == self.entries@.len(),
                forall|k: int| 0 <= k < i ==> #[trigger] self@[k].id != id@,
            decreases self.entries.len() - i,
        {
            if self.entries[i].id == *id {
                assert(self@[i as int].id == id@);
                return true;
            }
            i = i + 1;
        }
        false
    }

    /// The full period and the time left of the countdown of `id`.
    pub fn entry(&self, id: &String) -> (r: Option<(u64, u64)>)
        requires
            self.wf(),
        ensures
            r is None <==> !has_entry(self@, id@),
            forall|i: int|
                0 <= i < self@.len() && #[trigger] self@[i].id == id@ ==> r == Some(
                    (self@[i].total, self@[i].remaining),
                ),
    {
        let mut i: usize = 0;
        while i < self.entries.len()
            invariant
                i <= self@.len(),
                self@.len() == self.entries@.len(),
                unique_ids(self@),
                forall|k: int| 0 <= k < i ==> #[trigger] self@[k].id != id@,
            decreases self.entries.len() - i,
        {
            if self.entries[i].id == *id {
                assert(self@[i as int].id == id@);
                assert forall|j: int| 0 <= j < self@.len() && #[trigger] self@[j].id == id@ implies j == i by {
                    if j != i {
                        assert(self@[j].id != self@[i as int].id);
                    }
                }
                return Some((self.entries[i].total, self.entries[i].remaining));
            }
            i = i + 1;
        }
        None
    }

    /// Starts a countdown of `interval` seconds for `id`, unless `id` has one.
    pub fn activate(&mut self, id: String, interval: u64)
        requires
            old(self).wf(),
        ensures
            final(self)@ == activated(old(self)@, id@, interval),
            final(self).wf(),
    {
        if !self.contains(&id) {
            let ghost before = self@;
            self.entries.push(IntervalEntry { id, total: interval, remaining: interval });
            assert(self@ =~= before.push(EntryView { id: id@, total: interval, remaining: interval }));
        }
    }

    /// Drops the countdown of `id`, if there is one.
    pub fn remove(&mut self, id: &String)
        requires
            old(self).wf(),
        ensures
            final(self)@ == without(old(self)@, id@),
            final(self).wf(),
            !has_entry(final(self)@, id@),
    {
        let ghost before = self@;
        let mut kept: Vec<IntervalEntry> = Vec::new();
        let mut i: usize = 0;
        while i < self.entries.len()
            invariant
                i <= before.len(),
                before == self@,
                before.len() == self.entries@.len(),
                kept@.map_values(|e: IntervalEntry| e@) == without(before.subrange(0, i as int), id@),
            decreases self.entries.len() - i,
        {
            let e = &self.entries[i];
            let ghost kept_before = kept@.map_values(|e: IntervalEntry| e@);
            assert(before.subrange(0, i + 1).drop_last() =~= before.subrange(0, i as int));
            if e.id != *id {
                kept.push(IntervalEntry { id: e.id.clone(), total: e.total, remaining: e.remaining });
                assert(kept@.map_values(|e: IntervalEntry| e@) =~= kept_before.push(before[i as int]));
            }
            i = i + 1;
        }
        assert(before.subrange(0, before.len() as int) =~= before);
        self.entries = kept;
        proof {
            lemma_without_unique(before, id@);
        }
    }

    /// One second passes for every countdown. Returns the ids of the jobs
    /// that became due, in table order; their countdowns start over.
    pub fn tick(&mut self) -> (due: Vec<String>)
        requires
            old(self).wf(),
        ensures
            final(self)@ == tick_all(old(self)@),
            due.deep_view() == due_ids(old(self)@),
            final(self).wf(),
    {
        let ghost before = self@;
        let mut next: Vec<IntervalEntry> = Vec::new();
        let mut due: Vec<String> = Vec::new();
        let mut i: usize = 0;
        while i < self.entries.len()
            invariant
                i <= before.len(),
                before == self@,
                before.len() == self.entries@.len(),
                next@.len() == i,
                forall|k: int| 0 <= k < i ==> #[trigger] next@[k]@ == ticked(before[k]),
                due.deep_view() == due_ids(before.subrange(0, i as int)),
            decreases self.entries.len() - i,
        {
            let e = &self.entries[i];
            let ghost due_before = due.deep_view();
            assert(before.subrange(0, i + 1).drop_last() =~= before.subrange(0, i as int));
            if e.remaining <= 1 {
                next.push(IntervalEntry { id: e.id.clone(), total: e.total, remaining: e.total });
                due.push(e.id.clone());
                assert(due.deep_view() =~= due_before.push(before[i as int].id));
            } else {
                next.push(IntervalEntry { id: e.id.clone(), total: e.total, remaining: e.remaining - 1 });
            }
            i = i + 1;
        }
        assert(before.subrange(0, before.len() as int) =~= before);
        self.entries = next;
        assert(self@ =~= tick_all(before));
        due
    }
}

} // verus!
