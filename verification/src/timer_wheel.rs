//! Coarse periodic scheduler for the control context.
//!
//! The wheel drives idle graph maintenance, garbage collection and per-plugin
//! timer callbacks; it is polled only by the control context and never sits
//! on the per-sample audio path. Instants and periods are milliseconds.

use vstd::prelude::*;

verus! {

/// Default period of the idle maintenance timer, in milliseconds.
pub const DEFAULT_IDLE_INTERVAL_MS: u32 = 16;

/// Default period of the garbage collection timer, in milliseconds.
pub const DEFAULT_GARBAGE_COLLECT_INTERVAL_MS: u32 = 3000;

/// Longest accepted period (about 49 days): keeps rescheduling overflow-free.
pub const MAX_TIMER_PERIOD: u64 = 0x1_0000_0000;

/// Horizon for instants the wheel works with; far beyond any process
/// lifetime, and small enough that `due + period` never overflows.
pub const MAX_TIMER_INSTANT: u64 = 0x4000_0000_0000_0000;

/// What a timer entry drives.
#[derive(Clone, Copy, PartialEq, Eq, Debug, Structural)]
pub enum TimerEntryKey {
    /// Periodic idle maintenance of the active graph.
    MainIdleTimer,
    /// Periodic collection pass over deferred garbage.
    GarbageCollectTimer,
    /// A timer a plugin instance registered for itself.
    PluginRegisteredTimer { plugin_unique_id: u64, timer_id: u32 },
}

/// One registered timer.
#[derive(Clone, Copy, PartialEq, Eq, Debug, Structural)]
pub struct TimerEntry {
    pub key: TimerEntryKey,
    /// Period in milliseconds; never zero.
    pub period: u64,
    /// The instant the entry next fires, in milliseconds.
    pub next_due: u64,
}

/// An entry's bounds are sane.
pub open spec fn entry_wf(e: TimerEntry) -> bool {
    &&& 1 <= e.period <= MAX_TIMER_PERIOD
    &&& e.next_due < MAX_TIMER_INSTANT
}

/// An entry after one advance pass at `now`: a due entry is rescheduled to
/// its old due instant plus its own period, any other entry is untouched.
pub open spec fn advanced_entry(e: TimerEntry, now: u64) -> TimerEntry {
    if e.next_due <= now {
        TimerEntry { key: e.key, period: e.period, next_due: (e.next_due + e.period) as u64 }
    } else {
        e
    }
}

/// The entries due at `now`, in registration order, each exactly once.
pub open spec fn fired_entries(entries: Seq<TimerEntry>, now: u64) -> Seq<TimerEntry>
    decreases entries.len(),
{
    if entries.len() == 0 {
        Seq::<TimerEntry>::empty()
    } else {
        let rest = fired_entries(entries.drop_last(), now);
        if entries.last().next_due <= now {
            rest.push(entries.last())
        } else {
            rest
        }
    }
}

/// Entries that survive removal of `key`, in order.
pub open spec fn entries_without_key(entries: Seq<TimerEntry>, key: TimerEntryKey) -> Seq<
    TimerEntry,
>
    decreases entries.len(),
{
    if entries.len() == 0 {
        Seq::<TimerEntry>::empty()
    } else {
        let rest = entries_without_key(entries.drop_last(), key);
        if entries.last().key == key {
            rest
        } else {
            rest.push(entries.last())
        }
    }
}

/// Entries that survive removal of all per-plugin timers, in order.
pub open spec fn engine_entries_only(entries: Seq<TimerEntry>) -> Seq<TimerEntry>
    decreases entries.len(),
{
    if entries.len() == 0 {
        Seq::<TimerEntry>::empty()
    } else {
        let rest = engine_entries_only(entries.drop_last());
        if entries.last().key is PluginRegisteredTimer {
            rest
        } else {
            rest.push(entries.last())
        }
    }
}

/// The single-threaded timer wheel the engine polls.
pub struct EngineTimerWheel {
    pub entries: Vec<TimerEntry>,
}

impl EngineTimerWheel {
    /// Every entry is sane and no key is registered twice.
    pub open spec fn wf(&self) -> bool {
        &&& forall|i: int| 0 <= i < self.entries@.len() ==> entry_wf(#[trigger] self.entries@[i])
        &&& forall|i: int, j: int|
            0 <= i < j < self.entries@.len() ==> (#[trigger] self.entries@[i]).key != (
            #[trigger] self.entries@[j]).key
    }

    pub open spec fn has_key(&self, key: TimerEntryKey) -> bool {
        exists|i: int| 0 <= i < self.entries@.len() && (#[trigger] self.entries@[i]).key == key
    }

    /// A fresh wheel carrying the engine's two timers, first due one period
    /// from `now`.
    pub fn new(main_idle_interval_ms: u32, garbage_collect_interval_ms: u32, now: u64) -> (r: Self)
        requires
            main_idle_interval_ms >= 1,
            garbage_collect_interval_ms >= 1,
            now < MAX_TIMER_INSTANT - MAX_TIMER_PERIOD,
        ensures
            r.wf(),
            r.entries@.len() == 2,
            r.entries@[0] == (TimerEntry {
                key: TimerEntryKey::MainIdleTimer,
                period: main_idle_interval_ms as u64,
                next_due: (now + main_idle_interval_ms) as u64,
            }),
            r.entries@[1] == (TimerEntry {
                key: TimerEntryKey::GarbageCollectTimer,
                period: garbage_collect_interval_ms as u64,
                next_due: (now + garbage_collect_interval_ms) as u64,
            }),
    {
        let mut entries: Vec<TimerEntry> = Vec::new();
        entries.push(
            TimerEntry {
                key: TimerEntryKey::MainIdleTimer,
                period: main_idle_interval_ms as u64,
                next_due: now + main_idle_interval_ms as u64,
            },
        );
        entries.push(
            TimerEntry {
                key: TimerEntryKey::GarbageCollectTimer,
                period: garbage_collect_interval_ms as u64,
                next_due: now + garbage_collect_interval_ms as u64,
            },
        );
        EngineTimerWheel { entries }
    }

    /// Registers a timer, first due one period from `now`.
    pub fn register_entry(&mut self, key: TimerEntryKey, period: u64, now: u64)
        requires
            old(self).wf(),
            !old(self).has_key(key),
            1 <= period <= MAX_TIMER_PERIOD,
            now < MAX_TIMER_INSTANT - MAX_TIMER_PERIOD,
        ensures
            final(self).wf(),
            final(self).entries@ == old(self).entries@.push(
                TimerEntry { key, period, next_due: (now + period) as u64 },
            ),
    {
        self.entries.push(TimerEntry { key, period, next_due: now + period });
    }

    /// Removes the timer registered under `key`, if any.
    pub fn remove_entry(&mut self, key: TimerEntryKey)
        requires
            old(self).wf(),
        ensures
            final(self).wf(),
            final(self).entries@ == entries_without_key(old(self).entries@, key),
    {
        let n = self.entries.len();
        let mut kept: Vec<TimerEntry> = Vec::new();
        let mut i: usize = 0;
        while i < n
            invariant
                i <= n,
                n == old(self).entries@.len(),
                self.entries@ == old(self).entries@,
                kept@ == entries_without_key(old(self).entries@.subrange(0, i as int), key),
            decreases n - i,
        {
            let e = self.entries[i];
            proof {
                assert(old(self).entries@.subrange(0, i + 1).drop_last() =~= old(
                    self,
                ).entries@.subrange(0, i as int));
                assert(old(self).entries@.subrange(0, i + 1).last() == e);
            }
            if !(e.key == key) {
                kept.push(e);
            }
            i = i + 1;
        }
        proof {
            assert(old(self).entries@.subrange(0, n as int) =~= old(self).entries@);
            lemma_without_key_wf(old(self).entries@, key);
        }
        self.entries = kept;
    }

    /// Removes every per-plugin timer; the engine's own timers stay.
    pub fn reset(&mut self)
        requires
            old(self).wf(),
        ensures
            final(self).wf(),
            final(self).entries@ == engine_entries_only(old(self).entries@),
    {
        let n = self.entries.len();
        let mut kept: Vec<TimerEntry> = Vec::new();
        let mut i: usize = 0;
        while i < n
            invariant
                i <= n,
                n == old(self).entries@.len(),
                self.entries@ == old(self).entries@,
                kept@ == engine_entries_only(old(self).entries@.subrange(0, i as int)),
            decreases n - i,
        {
            let e = self.entries[i];
            proof {
                assert(old(self).entries@.subrange(0, i + 1).drop_last() =~= old(
                    self,
                ).entries@.subrange(0, i as int));
                assert(old(self).entries@.subrange(0, i + 1).last() == e);
            }
            let keep = match e.key {
                TimerEntryKey::PluginRegisteredTimer { .. } => false,
                _ => true,
            };
            if keep {
                kept.push(e);
            }
            i = i + 1;
        }
        proof {
            assert(old(self).entries@.subrange(0, n as int) =~= old(self).entries@);
            lemma_engine_only_wf(old(self).entries@);
        }
        self.entries = kept;
    }

    /// Collects every entry due at `now` — each exactly once, in registration
    /// order — into `elapsed`, rescheduling each to its old due instant plus
    /// its own period.
    pub fn advance(&mut self, now: u64, elapsed: &mut Vec<TimerEntry>)
        requires
            old(self).wf(),
            now < MAX_TIMER_INSTANT - MAX_TIMER_PERIOD,
        ensures
            final(self).wf(),
            final(self).entries@.len() == old(self).entries@.len(),
            forall|i: int|
                0 <= i < old(self).entries@.len() ==> final(self).entries@[i] == advanced_entry(
                    #[trigger] old(self).entries@[i],
                    now,
                ),
            final(elapsed)@ == old(elapsed)@ + fired_entries(old(self).entries@, now),
    {
        let n = self.entries.len();
        let mut i: usize = 0;
        while i < n
            invariant
                i <= n,
                n == old(self).entries@.len(),
                self.entries@.len() == n,
                now < MAX_TIMER_INSTANT - MAX_TIMER_PERIOD,
                forall|k: int| 0 <= k < n ==> entry_wf(#[trigger] old(self).entries@[k]),
                forall|k: int|
                    0 <= k < i ==> self.entries@[k] == advanced_entry(
                        #[trigger] old(self).entries@[k],
                        now,
                    ),
                forall|k: int| i <= k < n ==> self.entries@[k] == old(self).entries@[k],
                elapsed@ == old(elapsed)@ + fired_entries(
                    old(self).entries@.subrange(0, i as int),
                    now,
                ),
            decreases n - i,
        {
            let e = self.entries[i];
            proof {
                assert(old(self).entries@.subrange(0, i + 1).drop_last() =~= old(
                    self,
                ).entries@.subrange(0, i as int));
                assert(old(self).entries@.subrange(0, i + 1).last() == e);
            }
            if e.next_due <= now {
                elapsed.push(e);
                self.entries.set(
                    i,
                    TimerEntry { key: e.key, period: e.period, next_due: e.next_due + e.period },
                );
            }
            i = i + 1;
        }
        proof {
            assert(old(self).entries@.subrange(0, n as int) =~= old(self).entries@);
            assert forall|i2: int, j2: int|
                0 <= i2 < j2 < self.entries@.len() implies (#[trigger] self.entries@[i2]).key != (
            #[trigger] self.entries@[j2]).key by {
                assert(self.entries@[i2].key == old(self).entries@[i2].key);
                assert(self.entries@[j2].key == old(self).entries@[j2].key);
            }
            assert forall|k: int| 0 <= k < self.entries@.len() implies entry_wf(
                #[trigger] self.entries@[k],
            ) by {
                assert(self.entries@[k] == advanced_entry(old(self).entries@[k], now));
                assert(entry_wf(old(self).entries@[k]));
            }
        }
    }

    /// The earliest instant any entry fires next: when the caller must poll
    /// again.
    pub fn next_expected_tick_instant(&self) -> (r: u64)
        requires
            self.entries@.len() >= 1,
        ensures
            exists|i: int| 0 <= i < self.entries@.len() && r == (#[trigger] self.entries@[i]).next_due,
            forall|i: int| 0 <= i < self.entries@.len() ==> r <= (#[trigger] self.entries@[i]).next_due,
    {
        let n = self.entries.len();
        let mut best = self.entries[0].next_due;
        let mut i: usize = 1;
        while i < n
            invariant
                1 <= i <= n,
                n == self.entries@.len(),
                exists|k: int| 0 <= k < i && best == (#[trigger] self.entries@[k]).next_due,
                forall|k: int| 0 <= k < i ==> best <= (#[trigger] self.entries@[k]).next_due,
            decreases n - i,
        {
            let due = self.entries[i].next_due;
            if due < best {
                best = due;
            }
            i = i + 1;
        }
        best
    }
}

/// Every record the filter keeps was among the originals.
proof fn lemma_without_key_elems(entries: Seq<TimerEntry>, key: TimerEntryKey)
    ensures
        forall|a: int|
            0 <= a < entries_without_key(entries, key).len() ==> exists|i: int|
                0 <= i < entries.len() && #[trigger] entries_without_key(entries, key)[a]
                    == entries[i],
    decreases entries.len(),
{
    if entries.len() > 0 {
        lemma_without_key_elems(entries.drop_last(), key);
        let fe = entries_without_key(entries, key);
        let fr = entries_without_key(entries.drop_last(), key);
        assert forall|a: int| 0 <= a < fe.len() implies exists|i: int|
            0 <= i < entries.len() && #[trigger] fe[a] == entries[i] by {
            if entries.last().key == key || a < fe.len() - 1 {
                assert(fe[a] == fr[a]);
                let i = choose|i: int|
                    0 <= i < entries.drop_last().len() && fr[a] == entries.drop_last()[i];
                assert(fe[a] == entries[i]);
            } else {
                assert(fe[a] == entries[entries.len() - 1]);
            }
        }
    }
}

/// Removing a key keeps the remaining entries sane and their keys distinct,
/// and leaves no entry under the removed key.
proof fn lemma_without_key_wf(entries: Seq<TimerEntry>, key: TimerEntryKey)
    requires
        forall|i: int| 0 <= i < entries.len() ==> entry_wf(#[trigger] entries[i]),
        forall|i: int, j: int|
            0 <= i < j < entries.len() ==> (#[trigger] entries[i]).key != (
            #[trigger] entries[j]).key,
    ensures
        forall|a: int|
            0 <= a < entries_without_key(entries, key).len() ==> entry_wf(
                #[trigger] entries_without_key(entries, key)[a],
            ),
        forall|a: int, b: int|
            0 <= a < b < entries_without_key(entries, key).len()
                ==> (#[trigger] entries_without_key(entries, key)[a]).key != (
                #[trigger] entries_without_key(entries, key)[b]).key,
        forall|a: int|
            0 <= a < entries_without_key(entries, key).len()
                ==> (#[trigger] entries_without_key(entries, key)[a]).key != key,
    decreases entries.len(),
{
    lemma_without_key_elems(entries, key);
    let fe = entries_without_key(entries, key);
    assert forall|a: int| 0 <= a < fe.len() implies entry_wf(#[trigger] fe[a]) by {
        let i = choose|i: int| 0 <= i < entries.len() && fe[a] == entries[i];
    }
    if entries.len() > 0 {
        lemma_without_key_wf(entries.drop_last(), key);
        let fr = entries_without_key(entries.drop_last(), key);
        lemma_without_key_elems(entries.drop_last(), key);
        assert forall|a: int, b: int| 0 <= a < b < fe.len() implies (#[trigger] fe[a]).key != (
        #[trigger] fe[b]).key by {
            if entries.last().key == key || b < fe.len() - 1 {
                assert(fe[a] == fr[a] && fe[b] == fr[b]);
            } else {
                assert(fe[a] == fr[a] && fe[b] == entries[entries.len() - 1]);
                let i = choose|i: int|
                    0 <= i < entries.drop_last().len() && fr[a] == entries.drop_last()[i];
                assert(entries[i].key != entries[entries.len() - 1].key);
            }
        }
    }
}

/// Every record the plugin-timer filter keeps was among the originals.
proof fn lemma_engine_only_elems(entries: Seq<TimerEntry>)
    ensures
        forall|a: int|
            0 <= a < engine_entries_only(entries).len() ==> exists|i: int|
                0 <= i < entries.len() && #[trigger] engine_entries_only(entries)[a]
                    == entries[i],
    decreases entries.len(),
{
    if entries.len() > 0 {
        lemma_engine_only_elems(entries.drop_last());
        let fe = engine_entries_only(entries);
        let fr = engine_entries_only(entries.drop_last());
        assert forall|a: int| 0 <= a < fe.len() implies exists|i: int|
            0 <= i < entries.len() && #[trigger] fe[a] == entries[i] by {
            if entries.last().key is PluginRegisteredTimer || a < fe.len() - 1 {
                assert(fe[a] == fr[a]);
                let i = choose|i: int|
                    0 <= i < entries.drop_last().len() && fr[a] == entries.drop_last()[i];
                assert(fe[a] == entries[i]);
            } else {
                assert(fe[a] == entries[entries.len() - 1]);
            }
        }
    }
}

/// Removing the per-plugin timers keeps the engine's entries sane and their
/// keys distinct.
proof fn lemma_engine_only_wf(entries: Seq<TimerEntry>)
    requires
        forall|i: int| 0 <= i < entries.len() ==> entry_wf(#[trigger] entries[i]),
        forall|i: int, j: int|
            0 <= i < j < entries.len() ==> (#[trigger] entries[i]).key != (
            #[trigger] entries[j]).key,
    ensures
        forall|a: int|
            0 <= a < engine_entries_only(entries).len() ==> entry_wf(
                #[trigger] engine_entries_only(entries)[a],
            ),
        forall|a: int, b: int|
            0 <= a < b < engine_entries_only(entries).len()
                ==> (#[trigger] engine_entries_only(entries)[a]).key != (
                #[trigger] engine_entries_only(entries)[b]).key,
    decreases entries.len(),
{
    lemma_engine_only_elems(entries);
    let fe = engine_entries_only(entries);
    assert forall|a: int| 0 <= a < fe.len() implies entry_wf(#[trigger] fe[a]) by {
        let i = choose|i: int| 0 <= i < entries.len() && fe[a] == entries[i];
    }
    if entries.len() > 0 {
        lemma_engine_only_wf(entries.drop_last());
        let fr = engine_entries_only(entries.drop_last());
        lemma_engine_only_elems(entries.drop_last());
        assert forall|a: int, b: int| 0 <= a < b < fe.len() implies (#[trigger] fe[a]).key != (
        #[trigger] fe[b]).key by {
            if entries.last().key is PluginRegisteredTimer || b < fe.len() - 1 {
                assert(fe[a] == fr[a] && fe[b] == fr[b]);
            } else {
                assert(fe[a] == fr[a] && fe[b] == entries[entries.len() - 1]);
                let i = choose|i: int|
                    0 <= i < entries.drop_last().len() && fr[a] == entries.drop_last()[i];
                assert(entries[i].key != entries[entries.len() - 1].key);
            }
        }
    }
}

/// Removing the per-plugin timers keeps every engine timer registered.
pub proof fn lemma_engine_only_has_key(entries: Seq<TimerEntry>, key: TimerEntryKey)
    requires
        !(key is PluginRegisteredTimer),
        exists|i: int| 0 <= i < entries.len() && (#[trigger] entries[i]).key == key,
    ensures
        exists|a: int|
            0 <= a < engine_entries_only(entries).len() && (#[trigger] engine_entries_only(
                entries,
            )[a]).key == key,
    decreases entries.len(),
{
    let i = choose|i: int| 0 <= i < entries.len() && (#[trigger] entries[i]).key == key;
    let fe = engine_entries_only(entries);
    if i == entries.len() - 1 {
        assert(fe[fe.len() - 1].key == key);
    } else {
        assert(exists|i2: int|
            0 <= i2 < entries.drop_last().len() && (#[trigger] entries.drop_last()[i2]).key
                == key) by {
            assert(entries.drop_last()[i].key == key);
        }
        lemma_engine_only_has_key(entries.drop_last(), key);
        let fr = engine_entries_only(entries.drop_last());
        let a = choose|a: int| 0 <= a < fr.len() && (#[trigger] fr[a]).key == key;
        assert(fe[a].key == key);
    }
}

/// With `now` at or past every entry's due instant, one advance pass fires
/// every entry — each exactly once, in registration order — and every entry
/// is rescheduled to its due instant plus its own period; advancing again at
/// any instant past all the new due instants therefore fires them all again,
/// giving a periodic stream with nothing missed and nothing duplicated.
pub proof fn lemma_advance_fires_all(entries: Seq<TimerEntry>, now: u64)
    requires
        forall|i: int| 0 <= i < entries.len() ==> (#[trigger] entries[i]).next_due <= now,
    ensures
        fired_entries(entries, now) == entries,
        forall|i: int|
            0 <= i < entries.len() ==> advanced_entry(#[trigger] entries[i], now) == (TimerEntry {
                key: entries[i].key,
                period: entries[i].period,
                next_due: (entries[i].next_due + entries[i].period) as u64,
            }),
    decreases entries.len(),
{
    if entries.len() > 0 {
        lemma_advance_fires_all(entries.drop_last(), now);
        assert(fired_entries(entries, now) =~= entries);
    } else {
        assert(fired_entries(entries, now) =~= entries);
    }
}

/// Polled at its cadence, the wheel is periodic: when every entry was due at
/// the first poll and every rescheduled entry is due again by the second,
/// both advance passes fire the whole set, each entry exactly once per pass.
pub proof fn lemma_repeated_advance_is_periodic(entries: Seq<TimerEntry>, now1: u64, now2: u64)
    requires
        forall|i: int| 0 <= i < entries.len() ==> (#[trigger] entries[i]).next_due <= now1,
        forall|i: int|
            0 <= i < entries.len() ==> (#[trigger] entries[i]).next_due + entries[i].period
                <= now2,
    ensures
        fired_entries(entries, now1) == entries,
        fired_entries(
            entries.map_values(|e: TimerEntry| advanced_entry(e, now1)),
            now2,
        ) == entries.map_values(|e: TimerEntry| advanced_entry(e, now1)),
{
    lemma_advance_fires_all(entries, now1);
    let adv = entries.map_values(|e: TimerEntry| advanced_entry(e, now1));
    assert forall|i: int| 0 <= i < adv.len() implies (#[trigger] adv[i]).next_due <= now2 by {
        assert(adv[i] == advanced_entry(entries[i], now1));
    }
    lemma_advance_fires_all(adv, now2);
}

} // verus!
