//! What holds of the countdowns over many commands and ticks.
use vstd::prelude::*;
use crate::intervals::{
    activated, due_ids, fires, has_entry, lemma_without_subset, tick_all, ticked, unique_ids, without,
    EntryView,
};

verus! {

/// The table after `n` ticks.
pub open spec fn after_ticks(s: Seq<EntryView>, n: nat) -> Seq<EntryView>
    decreases n,
{
    if n == 0 {
        s
    } else {
        tick_all(after_ticks(s, (n - 1) as nat))
    }
}

/// One countdown after `n` ticks.
pub open spec fn entry_after(e: EntryView, n: nat) -> EntryView
    decreases n,
{
    if n == 0 {
        e
    } else {
        ticked(entry_after(e, (n - 1) as nat))
    }
}

proof fn lemma_after_ticks_pointwise(s: Seq<EntryView>, n: nat)
    ensures
        after_ticks(s, n) == s.map_values(|e: EntryView| entry_after(e, n)),
    decreases n,
{
    if n > 0 {
        lemma_after_ticks_pointwise(s, (n - 1) as nat);
    }
    assert(after_ticks(s, n) =~= s.map_values(|e: EntryView| entry_after(e, n)));
}

proof fn lemma_due_ids_members(s: Seq<EntryView>, id: Seq<char>)
    ensures
        due_ids(s).contains(id) <==> exists|i: int| 0 <= i < s.len() && #[trigger] s[i].id == id && fires(s[i]),
    decreases s.len(),
{
    if s.len() > 0 {
        let t = s.drop_last();
        let last = s.last();
        lemma_due_ids_members(t, id);
        let in_t = exists|i: int| 0 <= i < t.len() && #[trigger] t[i].id == id && fires(t[i]);
        let in_s = exists|i: int| 0 <= i < s.len() && #[trigger] s[i].id == id && fires(s[i]);
        if in_t {
            let i = choose|i: int| 0 <= i < t.len() && #[trigger] t[i].id == id && fires(t[i]);
            assert(s[i] == t[i]);
        }
        if in_s {
            let i = choose|i: int| 0 <= i < s.len() && #[trigger] s[i].id == id && fires(s[i]);
            if i < t.len() {
                assert(t[i] == s[i]);
            }
        }
        assert(in_s <==> in_t || (last.id == id && fires(last))) by {
            if in_s && !in_t {
                let i = choose|i: int| 0 <= i < s.len() && #[trigger] s[i].id == id && fires(s[i]);
                if i < t.len() {
                    assert(t[i] == s[i]);
                }
            }
            if last.id == id && fires(last) {
                assert(s[s.len() - 1].id == id);
            }
        }
        if fires(last) {
            let d = due_ids(t).push(last.id);
            assert(due_ids(s) == d);
            assert(d.contains(id) <==> due_ids(t).contains(id) || last.id == id) by {
                if d.contains(id) && !due_ids(t).contains(id) {
                    let k = choose|k: int| 0 <= k < d.len() && d[k] == id;
                    if k < due_ids(t).len() {
                        assert(due_ids(t)[k] == id);
                    }
                }
                if due_ids(t).contains(id) {
                    let k = choose|k: int| 0 <= k < due_ids(t).len() && due_ids(t)[k] == id;
                    assert(d[k] == id);
                }
                if last.id == id {
                    assert(d[due_ids(t).len() as int] == id);
                }
            }
        } else {
            assert(due_ids(s) == due_ids(t));
        }
    }
}

/// Activating a job twice leaves exactly one countdown for it: the second
/// activation adds none and does not restart the one already running.
pub proof fn lemma_activation_idempotent(s: Seq<EntryView>, id: Seq<char>, first: u64, second: u64)
    requires
        unique_ids(s),
    ensures
        has_entry(activated(s, id, first), id),
        unique_ids(activated(s, id, first)),
        activated(activated(s, id, first), id, second) == activated(s, id, first),
{
    let t = activated(s, id, first);
    if !has_entry(s, id) {
        assert(t[s.len() as int].id == id);
        assert forall|i: int, j: int|
            0 <= i < t.len() && 0 <= j < t.len() && i != j implies #[trigger] t[i].id != #[trigger] t[j].id by {
            if i < s.len() && j < s.len() {
                assert(t[i] == s[i] && t[j] == s[j]);
            } else if i < s.len() {
                assert(t[i] == s[i]);
            } else {
                assert(t[j] == s[j]);
            }
        }
    }
}

/// A change of the table, as the actor makes them: a tick (`handle` of a
/// tick command), a removal (`handle` of a delete command) or an activation
/// (`activated`). Adding a record and asking to activate one leave the
/// table as it is.
pub enum TableEvent {
    Tick,
    Activated { id: Seq<char>, interval: u64 },
    Removed { id: Seq<char> },
}

pub open spec fn apply(s: Seq<EntryView>, e: TableEvent) -> Seq<EntryView> {
    match e {
        TableEvent::Tick => tick_all(s),
        TableEvent::Activated { id, interval } => activated(s, id, interval),
        TableEvent::Removed { id } => without(s, id),
    }
}

/// The table after a series of events.
pub open spec fn replay(s: Seq<EntryView>, events: Seq<TableEvent>) -> Seq<EntryView>
    decreases events.len(),
{
    if events.len() == 0 {
        s
    } else {
        apply(replay(s, events.drop_last()), events.last())
    }
}

pub open spec fn activates(e: TableEvent, id: Seq<char>) -> bool {
    e matches TableEvent::Activated { id: a, .. } && a == id
}

proof fn lemma_apply_keeps_absent(s: Seq<EntryView>, e: TableEvent, id: Seq<char>)
    requires
        !has_entry(s, id),
        !activates(e, id),
    ensures
        !has_entry(apply(s, e), id),
{
    match e {
        TableEvent::Tick => {
            if has_entry(tick_all(s), id) {
                let i = choose|i: int| 0 <= i < tick_all(s).len() && #[trigger] tick_all(s)[i].id == id;
                assert(s[i].id == id);
            }
        },
        TableEvent::Activated { id: a, interval } => {
            if !has_entry(s, a) {
                let t = s.push(EntryView { id: a, total: interval, remaining: interval });
                if has_entry(t, id) {
                    let i = choose|i: int| 0 <= i < t.len() && #[trigger] t[i].id == id;
                    if i < s.len() {
                        assert(s[i].id == id);
                    }
                }
            }
        },
        TableEvent::Removed { id: r } => {
            lemma_without_subset(s, r, id);
        },
    }
}

/// A job without a countdown, as one that was added but never activated,
/// gets none and is never due, whatever ticks, removals and activations of
/// other jobs follow: every tick in the series leaves its id out of the
/// due ids.
pub proof fn lemma_dormant_never_due(s: Seq<EntryView>, events: Seq<TableEvent>, id: Seq<char>)
    requires
        !has_entry(s, id),
        forall|k: int| 0 <= k < events.len() ==> !activates(#[trigger] events[k], id),
    ensures
        !has_entry(replay(s, events), id),
        forall|k: int|
            0 <= k <= events.len() ==> !due_ids(#[trigger] replay(s, events.subrange(0, k))).contains(id),
    decreases events.len(),
{
    if events.len() > 0 {
        let before = events.drop_last();
        assert forall|k: int| 0 <= k < before.len() implies !activates(#[trigger] before[k], id) by {
            assert(before[k] == events[k]);
        }
        lemma_dormant_never_due(s, before, id);
        lemma_apply_keeps_absent(replay(s, before), events.last(), id);
        assert forall|k: int|
            0 <= k <= events.len() implies !due_ids(#[trigger] replay(s, events.subrange(0, k))).contains(id) by {
            if k < events.len() {
                assert(events.subrange(0, k) =~= before.subrange(0, k));
            } else {
                assert(events.subrange(0, k) =~= events);
            }
            lemma_due_ids_members(replay(s, events.subrange(0, k)), id);
            if k == events.len() {
                assert(!has_entry(replay(s, events), id));
            } else {
                assert(!has_entry(replay(s, before.subrange(0, k)), id)) by {
                    lemma_dormant_prefix(s, before, id, k);
                }
            }
        }
    } else {
        assert(events.subrange(0, 0) =~= events);
        lemma_due_ids_members(s, id);
    }
}

proof fn lemma_dormant_prefix(s: Seq<EntryView>, events: Seq<TableEvent>, id: Seq<char>, k: int)
    requires
        !has_entry(s, id),
        forall|j: int| 0 <= j < events.len() ==> !activates(#[trigger] events[j], id),
        0 <= k <= events.len(),
    ensures
        !has_entry(replay(s, events.subrange(0, k)), id),
    decreases k,
{
    if k > 0 {
        let p = events.subrange(0, k);
        assert(p.drop_last() =~= events.subrange(0, k - 1));
        lemma_dormant_prefix(s, events, id, k - 1);
        lemma_apply_keeps_absent(replay(s, events.subrange(0, k - 1)), p.last(), id);
    } else {
        assert(events.subrange(0, 0) =~= Seq::<TableEvent>::empty());
    }
}

proof fn lemma_entry_after_keeps(e: EntryView, n: nat)
    ensures
        entry_after(e, n).id == e.id,
        entry_after(e, n).total == e.total,
    decreases n,
{
    if n > 0 {
        lemma_entry_after_keeps(e, (n - 1) as nat);
    }
}

/// A countdown that starts at its full period `total` counts down by one
/// per tick and is due on the ticks whose number is a multiple of `total`,
/// and on no other: after `n` ticks, the next tick makes it due exactly when
/// `n + 1` is such a multiple.
pub proof fn lemma_countdown_period(e: EntryView, n: nat)
    requires
        e.total >= 1,
        e.remaining == e.total,
    ensures
        entry_after(e, n).id == e.id,
        entry_after(e, n).total == e.total,
        entry_after(e, n).remaining == e.total - n % (e.total as nat),
        fires(entry_after(e, n)) <==> (n + 1) % (e.total as nat) == 0,
    decreases n,
{
    let t = e.total as int;
    lemma_entry_after_keeps(e, n);
    if n > 0 {
        lemma_countdown_period(e, (n - 1) as nat);
    }
    let q = n as int / t;
    let r = n as int % t;
    vstd::arithmetic::div_mod::lemma_fundamental_div_mod(n as int, t);
    vstd::arithmetic::div_mod::lemma_mod_pos_bound(n as int, t);
    assert(n as int == q * t + r) by (nonlinear_arith)
        requires
            n as int == t * q + r,
    ;
    if r == t - 1 {
        assert(n as int + 1 == (q + 1) * t + 0) by (nonlinear_arith)
            requires
                n as int == q * t + r,
                r == t - 1,
        ;
        vstd::arithmetic::div_mod::lemma_fundamental_div_mod_converse(n as int + 1, t, q + 1, 0);
    } else {
        vstd::arithmetic::div_mod::lemma_fundamental_div_mod_converse(n as int + 1, t, q, r + 1);
    }
    if n > 0 {
        let m = (n - 1) as nat;
        let rm = m as int % t;
        let qm = m as int / t;
        vstd::arithmetic::div_mod::lemma_fundamental_div_mod(m as int, t);
        vstd::arithmetic::div_mod::lemma_mod_pos_bound(m as int, t);
        assert(m as int == qm * t + rm) by (nonlinear_arith)
            requires
                m as int == t * qm + rm,
        ;
        if rm == t - 1 {
            assert(m as int + 1 == (qm + 1) * t + 0) by (nonlinear_arith)
                requires
                    m as int == qm * t + rm,
                    rm == t - 1,
            ;
            vstd::arithmetic::div_mod::lemma_fundamental_div_mod_converse(m as int + 1, t, qm + 1, 0);
        } else {
            vstd::arithmetic::div_mod::lemma_fundamental_div_mod_converse(m as int + 1, t, qm, rm + 1);
        }
    } else {
        vstd::arithmetic::div_mod::lemma_fundamental_div_mod_converse(0, t, 0, 0);
    }
}

/// In a table without duplicate ids, a job whose countdown starts at its
/// full period is due on tick `n + 1` exactly when `n + 1` is a multiple of
/// its period.
pub proof fn lemma_due_every_period(s: Seq<EntryView>, i: int, n: nat)
    requires
        unique_ids(s),
        0 <= i < s.len(),
        s[i].total >= 1,
        s[i].remaining == s[i].total,
    ensures
        due_ids(after_ticks(s, n)).contains(s[i].id) <==> (n + 1) % (s[i].total as nat) == 0,
{
    lemma_after_ticks_pointwise(s, n);
    let t = after_ticks(s, n);
    lemma_due_ids_members(t, s[i].id);
    lemma_countdown_period(s[i], n);
    assert(t[i] == entry_after(s[i], n));
    if due_ids(t).contains(s[i].id) {
        let j = choose|j: int| 0 <= j < t.len() && #[trigger] t[j].id == s[i].id && fires(t[j]);
        lemma_entry_after_keeps(s[j], n);
        assert(t[j] == entry_after(s[j], n));
        if j != i {
            assert(s[j].id != s[i].id);
        }
    }
}

} // verus!
