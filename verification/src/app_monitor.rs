//! Change-detecting watchers. An [`AppMonitor`] owns one watch target (an
//! application name and a polling interval) together with the last status
//! value it has seen, and turns each freshly polled value into at most one
//! update event: an event is emitted if and only if the value differs from
//! the last one seen. A [`MonitorManager`] owns the set of watchers.

use vstd::prelude::*;

verus! {

/// An event delivered to the display layer: the application's name and its
/// freshly observed status value.
pub enum CustomEvent {
    UpdateCount(String, String),
}

/// The application name carried by an event.
pub open spec fn event_app(e: CustomEvent) -> Seq<char> {
    match e {
        CustomEvent::UpdateCount(n, _) => n@,
    }
}

/// The status value carried by an event.
pub open spec fn event_value(e: CustomEvent) -> Seq<char> {
    match e {
        CustomEvent::UpdateCount(_, v) => v@,
    }
}

/// The views of a sequence of probed values.
pub open spec fn seq_views(counts: Seq<String>) -> Seq<Seq<char>> {
    Seq::new(counts.len(), |i: int| counts[i]@)
}

/// The last value seen by a watcher that started with `last0` after it has
/// been fed `probes` in order.
pub open spec fn last_after(last0: Seq<char>, probes: Seq<Seq<char>>) -> Seq<char> {
    if probes.len() == 0 {
        last0
    } else {
        probes.last()
    }
}

/// The values a watcher emits, in order, when fed `probes` starting with
/// `last0` as its last-seen value: each probed value that differs from the
/// one before it (from `last0` for the first).
pub open spec fn emitted_values(last0: Seq<char>, probes: Seq<Seq<char>>) -> Seq<Seq<char>>
    decreases probes.len(),
{
    if probes.len() == 0 {
        Seq::empty()
    } else {
        let before = emitted_values(last0, probes.drop_last());
        if probes.last() == last_after(last0, probes.drop_last()) {
            before
        } else {
            before.push(probes.last())
        }
    }
}

/// Position `i` of `probes` is a change: its value differs from the previous
/// one (`last0` before position 0).
pub open spec fn is_change(last0: Seq<char>, probes: Seq<Seq<char>>, i: int) -> bool {
    0 <= i < probes.len() && probes[i] != (if i == 0 {
        last0
    } else {
        probes[i - 1]
    })
}

/// How many positions of `probes` are changes.
pub open spec fn change_count(last0: Seq<char>, probes: Seq<Seq<char>>) -> nat
    decreases probes.len(),
{
    if probes.len() == 0 {
        0
    } else {
        change_count(last0, probes.drop_last()) + (if is_change(
            last0,
            probes,
            probes.len() - 1,
        ) {
            1nat
        } else {
            0nat
        })
    }
}

/// One watcher emits exactly one event per change in the probed values: the
/// number of emitted events equals the number of positions whose value
/// differs from the one before it.
pub proof fn lemma_emission_count(last0: Seq<char>, probes: Seq<Seq<char>>)
    ensures
        emitted_values(last0, probes).len() == change_count(last0, probes),
    decreases probes.len(),
{
    if probes.len() > 0 {
        lemma_emission_count(last0, probes.drop_last());
    }
}

/// Repeating one value indefinitely emits exactly once: the first transition
/// into the value produces an event, every repetition after it none.
pub proof fn lemma_idempotent(last0: Seq<char>, probes: Seq<Seq<char>>, v: Seq<char>)
    requires
        probes.len() > 0,
        forall|i: int| 0 <= i < probes.len() ==> probes[i] == v,
        last0 != v,
    ensures
        emitted_values(last0, probes) =~= seq![v],
    decreases probes.len(),
{
    if probes.len() == 1 {
        assert(probes[0] == v);
        assert(probes.drop_last().len() == 0);
        assert(emitted_values(last0, probes.drop_last()) =~= Seq::<Seq<char>>::empty());
        assert(emitted_values(last0, probes) =~= Seq::<Seq<char>>::empty().push(v));
    } else {
        lemma_idempotent(last0, probes.drop_last(), v);
        assert(probes.drop_last().last() == probes[probes.len() - 2]);
        assert(probes[probes.len() - 2] == v);
        assert(probes.last() == probes[probes.len() - 1]);
        assert(probes[probes.len() - 1] == v);
        assert(last_after(last0, probes.drop_last()) == v);
    }
}

/// Probed values that keep matching the current last-seen value never emit;
/// in particular a probe that keeps degrading to the sentinel while the
/// sentinel is already the last-seen value causes no false transition.
pub proof fn lemma_no_false_transition(last0: Seq<char>, probes: Seq<Seq<char>>)
    requires
        forall|i: int| 0 <= i < probes.len() ==> probes[i] == last0,
    ensures
        emitted_values(last0, probes) =~= Seq::<Seq<char>>::empty(),
    decreases probes.len(),
{
    if probes.len() > 0 {
        lemma_no_false_transition(last0, probes.drop_last());
    }
}

/// One watch target plus the last status value seen for it. The polling loop
/// around it feeds each probed value to [`AppMonitor::observe`] and forwards
/// the returned event, if any, to the display layer.
pub struct AppMonitor {
    name: String,
    interval_secs: u64,
    last_count: String,
}

impl AppMonitor {
    /// The application name this watcher is bound to.
    pub closed spec fn name_spec(&self) -> Seq<char> {
        self.name@
    }

    /// The polling interval, in seconds.
    pub closed spec fn interval_spec(&self) -> u64 {
        self.interval_secs
    }

    /// The last status value seen; the empty string until the first probe.
    pub closed spec fn last_spec(&self) -> Seq<char> {
        self.last_count@
    }

    /// A fresh watcher starts with the empty string as its "unknown" value,
    /// so the first probed value always produces an event.
    pub fn new(name: String, interval_secs: u64) -> (m: Self)
        requires
            interval_secs >= 1,
        ensures
            m.name_spec() == name@,
            m.interval_spec() == interval_secs,
            m.last_spec() == Seq::<char>::empty(),
    {
        AppMonitor { name, interval_secs, last_count: String::new() }
    }

    /// The polling interval, for the loop that schedules the next probe.
    pub fn interval_secs(&self) -> (r: u64)
        ensures
            r == self.interval_spec(),
    {
        self.interval_secs
    }

    /// The compare-and-update step of the polling loop: record the freshly
    /// probed value and emit an event exactly when it differs from the last
    /// value seen.
    pub fn observe(&mut self, count: String) -> (ev: Option<CustomEvent>)
        ensures
            final(self).name_spec() == old(self).name_spec(),
            final(self).interval_spec() == old(self).interval_spec(),
            final(self).last_spec() == count@,
            (ev is None) <==> old(self).last_spec() == count@,
            ev matches Some(e) ==> event_app(e) == old(self).name_spec() && event_value(e)
                == count@,
    {
        if self.last_count == count {
            None
        } else {
            self.last_count = count.clone();
            Some(CustomEvent::UpdateCount(self.name.clone(), count))
        }
    }

    /// Feed a whole sequence of probed values in order and collect the
    /// emitted events: the body of the polling loop, without the sleeps.
    /// The events carry this watcher's name and exactly the changed values,
    /// in detection order.
    pub fn observe_all(&mut self, counts: Vec<String>) -> (events: Vec<CustomEvent>)
        ensures
            final(self).name_spec() == old(self).name_spec(),
            final(self).interval_spec() == old(self).interval_spec(),
            final(self).last_spec() == last_after(old(self).last_spec(), seq_views(counts@)),
            events@.len() == emitted_values(old(self).last_spec(), seq_views(counts@)).len(),
            forall|k: int|
                0 <= k < events@.len() ==> event_value(#[trigger] events@[k]) == emitted_values(
                    old(self).last_spec(),
                    seq_views(counts@),
                )[k],
            forall|k: int|
                0 <= k < events@.len() ==> event_app(#[trigger] events@[k])
                    == old(self).name_spec(),
    {
        let ghost last0 = self.last_spec();
        let ghost name0 = self.name_spec();
        let ghost pviews = seq_views(counts@);
        let mut events: Vec<CustomEvent> = Vec::new();
        let mut idx: usize = 0;
        while idx < counts.len()
            invariant
                idx <= counts.len(),
                pviews == seq_views(counts@),
                pviews.len() == counts@.len(),
                last0 == old(self).last_spec(),
                name0 == old(self).name_spec(),
                self.name_spec() == old(self).name_spec(),
                self.interval_spec() == old(self).interval_spec(),
                self.last_spec() == last_after(last0, pviews.take(idx as int)),
                events@.len() == emitted_values(last0, pviews.take(idx as int)).len(),
                forall|k: int|
                    0 <= k < events@.len() ==> event_value(#[trigger] events@[k])
                        == emitted_values(last0, pviews.take(idx as int))[k],
                forall|k: int|
                    0 <= k < events@.len() ==> event_app(#[trigger] events@[k]) == name0,
            decreases counts@.len() - idx,
        {
            let c = counts[idx].clone();
            proof {
                assert(pviews.take(idx as int + 1).drop_last() =~= pviews.take(idx as int));
                assert(pviews.take(idx as int + 1).last() == c@);
            }
            let ev = self.observe(c);
            match ev {
                Some(e) => events.push(e),
                None => {},
            }
            idx += 1;
        }
        proof {
            assert(pviews.take(counts@.len() as int) =~= pviews);
        }
        events
    }
}

/// The registry: owns one watcher per configured application. Watchers are
/// only ever added; each runs for the lifetime of the process.
pub struct MonitorManager {
    monitors: Vec<AppMonitor>,
}

impl MonitorManager {
    /// The watchers owned so far, in the order they were added.
    pub closed spec fn monitors_spec(&self) -> Seq<AppMonitor> {
        self.monitors@
    }

    /// An empty registry.
    pub fn new() -> (m: Self)
        ensures
            m.monitors_spec().len() == 0,
    {
        MonitorManager { monitors: Vec::new() }
    }

    /// How many watchers the registry owns.
    pub fn monitor_count(&self) -> (n: usize)
        ensures
            n == self.monitors_spec().len(),
    {
        self.monitors.len()
    }

    /// Add a fresh watcher for one target. Existing watchers are untouched,
    /// so targets added earlier keep their state.
    pub fn add_monitor(&mut self, name: String, interval_secs: u64)
        requires
            interval_secs >= 1,
        ensures
            final(self).monitors_spec().len() == old(self).monitors_spec().len() + 1,
            forall|i: int|
                0 <= i < old(self).monitors_spec().len() ==> final(self).monitors_spec()[i]
                    == old(self).monitors_spec()[i],
            final(self).monitors_spec().last().name_spec() == name@,
            final(self).monitors_spec().last().interval_spec() == interval_secs,
            final(self).monitors_spec().last().last_spec() == Seq::<char>::empty(),
    {
        let monitor = AppMonitor::new(name, interval_secs);
        self.monitors.push(monitor);
    }

    /// Route one probed value to the watcher at `idx`: only that watcher's
    /// last-seen value changes, and an event comes back exactly when the
    /// value differs from it, carrying that watcher's own name.
    pub fn observe_at(&mut self, idx: usize, count: String) -> (ev: Option<CustomEvent>)
        requires
            idx < old(self).monitors_spec().len(),
        ensures
            final(self).monitors_spec().len() == old(self).monitors_spec().len(),
            forall|i: int|
                0 <= i < old(self).monitors_spec().len() && i != idx
                    ==> final(self).monitors_spec()[i] == old(self).monitors_spec()[i],
            final(self).monitors_spec()[idx as int].name_spec()
                == old(self).monitors_spec()[idx as int].name_spec(),
            final(self).monitors_spec()[idx as int].interval_spec()
                == old(self).monitors_spec()[idx as int].interval_spec(),
            final(self).monitors_spec()[idx as int].last_spec() == count@,
            (ev is None) <==> old(self).monitors_spec()[idx as int].last_spec() == count@,
            ev matches Some(e) ==> event_app(e) == old(self).monitors_spec()[
                idx as int].name_spec() && event_value(e) == count@,
    {
        let ghost before = self.monitors@;
        let mut m = self.monitors.remove(idx);
        let ev = m.observe(count);
        self.monitors.insert(idx, m);
        proof {
            assert(self.monitors@ =~= before.update(idx as int, m));
        }
        ev
    }
}

} // verus!
