//! Sliding-window alert store and the four-state alert lifecycle.
//!
//! `AlertWindow` keeps the timestamps of all records seen within the trailing
//! TTL seconds of a reference time; eviction from the front is the only
//! removal mode, which is correct because the stream's timestamps are
//! non-decreasing. The window's occupancy is the sole signal the alert logic
//! consumes: the average rate over the window is at or above the configured
//! threshold exactly when `len >= threshold * ttl`, an integer comparison
//! equivalent to `len / ttl >= threshold` for a positive TTL.
//!
//! The lifecycle is `Inactive -> Onset -> Sustained -> Recovering ->
//! Inactive`, carried as an `Option<Alert>`: `None` is inactive,
//! `Status::Start` is the onset, `Status::InProgress` the sustained phase,
//! and `Status::End` the one-tick recovery grace state.

use std::collections::VecDeque;
use vstd::prelude::*;

use crate::Date;

verus! {

/// Phase of one high-traffic alert episode. `Start` and `End` carry the
/// reference time of the record that triggered the edge.
#[derive(Debug, Clone, Copy, PartialEq, Eq, Structural)]
pub enum Status {
    Start(Date),
    InProgress,
    End(Date),
}

/// An alert condition being reported. High traffic is the only kind.
#[derive(Debug, Clone, Copy, PartialEq, Eq, Structural)]
pub enum Alert {
    HighTraffic(Status),
}

/// True when the sequence never decreases; the window relies on the stream
/// delivering timestamps in this order.
pub open spec fn non_decreasing(s: Seq<Date>) -> bool {
    forall|i: int, j: int| 0 <= i <= j < s.len() ==> s[i] <= s[j]
}

/// The window contents after evicting every leading timestamp older than
/// `cutoff`. Eviction stops at the first fresh-enough entry, which removes
/// every stale one when the sequence is non-decreasing.
pub open spec fn evict_spec(s: Seq<Date>, cutoff: int) -> Seq<Date>
    decreases s.len(),
{
    if s.len() == 0 {
        s
    } else if s[0] < cutoff {
        evict_spec(s.subrange(1, s.len() as int), cutoff)
    } else {
        s
    }
}

/// The average request rate over the trailing window is at or above the
/// threshold: `window_len / ttl >= threshold`, stated without division.
pub open spec fn rate_is_high(window_len: nat, threshold: i64, ttl: i64) -> bool {
    threshold * ttl <= window_len
}

/// One step of the alert lifecycle, driven solely by the current state and
/// whether the rate is at or above the threshold; the reference time enters
/// only the payload of the state produced.
pub open spec fn spec_transition(current: Option<Alert>, high: bool, reference_time: Date) -> Option<
    Alert,
> {
    if high {
        match current {
            Some(Alert::HighTraffic(Status::Start(_))) => Some(
                Alert::HighTraffic(Status::InProgress),
            ),
            Some(Alert::HighTraffic(Status::InProgress)) => Some(
                Alert::HighTraffic(Status::InProgress),
            ),
            Some(Alert::HighTraffic(Status::End(_))) => Some(
                Alert::HighTraffic(Status::Start(reference_time)),
            ),
            None => Some(Alert::HighTraffic(Status::Start(reference_time))),
        }
    } else {
        match current {
            Some(Alert::HighTraffic(Status::Start(_))) => Some(
                Alert::HighTraffic(Status::End(reference_time)),
            ),
            Some(Alert::HighTraffic(Status::InProgress)) => Some(
                Alert::HighTraffic(Status::End(reference_time)),
            ),
            Some(Alert::HighTraffic(Status::End(_))) => None,
            None => None,
        }
    }
}

pub open spec fn is_inactive(a: Option<Alert>) -> bool {
    a is None
}

pub open spec fn is_onset(a: Option<Alert>) -> bool {
    a matches Some(Alert::HighTraffic(Status::Start(_)))
}

pub open spec fn is_sustained(a: Option<Alert>) -> bool {
    a matches Some(Alert::HighTraffic(Status::InProgress))
}

pub open spec fn is_recovering(a: Option<Alert>) -> bool {
    a matches Some(Alert::HighTraffic(Status::End(_)))
}

/// The two states compare as the same lifecycle phase, payloads aside.
pub open spec fn same_phase(a: Option<Alert>, b: Option<Alert>) -> bool {
    &&& (is_inactive(a) <==> is_inactive(b))
    &&& (is_onset(a) <==> is_onset(b))
    &&& (is_sustained(a) <==> is_sustained(b))
    &&& (is_recovering(a) <==> is_recovering(b))
}

/// Law: the state machine is total and deterministic. From any state exactly
/// one row of the transition table applies, chosen by the pair (current
/// phase, rate at or above threshold) alone; the reference time influences
/// only the timestamp payload carried by the state produced.
pub proof fn lemma_transition_total(current: Option<Alert>, high: bool, t1: Date, t2: Date)
    ensures
        is_inactive(current) && high ==> spec_transition(current, high, t1) == Some(
            Alert::HighTraffic(Status::Start(t1)),
        ),
        is_inactive(current) && !high ==> is_inactive(spec_transition(current, high, t1)),
        is_onset(current) && high ==> spec_transition(current, high, t1) == Some(
            Alert::HighTraffic(Status::InProgress),
        ),
        is_onset(current) && !high ==> spec_transition(current, high, t1) == Some(
            Alert::HighTraffic(Status::End(t1)),
        ),
        is_sustained(current) && high ==> spec_transition(current, high, t1) == Some(
            Alert::HighTraffic(Status::InProgress),
        ),
        is_sustained(current) && !high ==> spec_transition(current, high, t1) == Some(
            Alert::HighTraffic(Status::End(t1)),
        ),
        is_recovering(current) && high ==> spec_transition(current, high, t1) == Some(
            Alert::HighTraffic(Status::Start(t1)),
        ),
        is_recovering(current) && !high ==> is_inactive(spec_transition(current, high, t1)),
        same_phase(spec_transition(current, high, t1), spec_transition(current, high, t2)),
{
}

/// Law: each phase can only be entered from the phases its table row allows.
/// In particular an onset never follows an onset and a recovery tick never
/// follows a recovery tick, so the raised and cleared edges each appear at
/// most once per episode.
pub proof fn lemma_episode_edges(current: Option<Alert>, high: bool, t: Date)
    ensures
        is_onset(spec_transition(current, high, t)) ==> high && (is_inactive(current)
            || is_recovering(current)),
        is_sustained(spec_transition(current, high, t)) ==> high && (is_onset(current)
            || is_sustained(current)),
        is_recovering(spec_transition(current, high, t)) ==> !high && (is_onset(current)
            || is_sustained(current)),
        is_inactive(spec_transition(current, high, t)) ==> !high && (is_inactive(current)
            || is_recovering(current)),
{
}

/// The state reached by folding the transition over parallel runs of rate
/// flags and reference times, one step per record.
pub open spec fn run_transitions(start: Option<Alert>, highs: Seq<bool>, times: Seq<Date>) -> Option<
    Alert,
>
    decreases highs.len(),
{
    if highs.len() == 0 || times.len() == 0 {
        start
    } else {
        run_transitions(
            spec_transition(start, highs[0], times[0]),
            highs.subrange(1, highs.len() as int),
            times.subrange(1, times.len() as int),
        )
    }
}

/// The state reached from `start` after the first `k` steps of the run.
pub open spec fn state_after(
    start: Option<Alert>,
    highs: Seq<bool>,
    times: Seq<Date>,
    k: int,
) -> Option<Alert> {
    run_transitions(start, highs.take(k), times.take(k))
}

/// Dropping the first step of a run shifts the step index by one.
proof fn lemma_state_after_shift(start: Option<Alert>, highs: Seq<bool>, times: Seq<Date>, j: int)
    requires
        highs.len() == times.len(),
        1 <= j <= highs.len(),
    ensures
        state_after(start, highs, times, j) == state_after(
            spec_transition(start, highs[0], times[0]),
            highs.subrange(1, highs.len() as int),
            times.subrange(1, times.len() as int),
            j - 1,
        ),
{
    assert(highs.take(j).subrange(1, j) =~= highs.subrange(1, highs.len() as int).take(j - 1));
    assert(times.take(j).subrange(1, j) =~= times.subrange(1, times.len() as int).take(j - 1));
    assert(highs.take(j)[0] == highs[0]);
    assert(times.take(j)[0] == times[0]);
}

/// The state after `k + 1` steps is one transition applied to the state
/// after `k` steps.
proof fn lemma_state_after_snoc(start: Option<Alert>, highs: Seq<bool>, times: Seq<Date>, k: int)
    requires
        highs.len() == times.len(),
        0 <= k < highs.len(),
    ensures
        state_after(start, highs, times, k + 1) == spec_transition(
            state_after(start, highs, times, k),
            highs[k],
            times[k],
        ),
    decreases k,
{
    if k == 0 {
        assert(highs.take(0) =~= Seq::<bool>::empty());
        assert(times.take(0) =~= Seq::<Date>::empty());
        lemma_state_after_shift(start, highs, times, 1);
        let hs = highs.subrange(1, highs.len() as int);
        let ts = times.subrange(1, times.len() as int);
        assert(hs.take(0) =~= Seq::<bool>::empty());
        assert(ts.take(0) =~= Seq::<Date>::empty());
    } else {
        let s1 = spec_transition(start, highs[0], times[0]);
        let hs = highs.subrange(1, highs.len() as int);
        let ts = times.subrange(1, times.len() as int);
        lemma_state_after_snoc(s1, hs, ts, k - 1);
        lemma_state_after_shift(start, highs, times, k);
        lemma_state_after_shift(start, highs, times, k + 1);
        assert(hs[k - 1] == highs[k]);
        assert(ts[k - 1] == times[k]);
    }
}

/// From inactive, a stretch of `k` high-rate steps raises the alert on the
/// first step and sustains it thereafter.
proof fn lemma_high_stretch(highs: Seq<bool>, times: Seq<Date>, k: int)
    requires
        highs.len() == times.len(),
        1 <= k <= highs.len(),
        forall|i: int| 0 <= i < k ==> highs[i],
    ensures
        k == 1 ==> state_after(None, highs, times, k) == Some(
            Alert::HighTraffic(Status::Start(times[0])),
        ),
        k >= 2 ==> state_after(None, highs, times, k) == Some(
            Alert::HighTraffic(Status::InProgress),
        ),
    decreases k,
{
    if k == 1 {
        assert(highs.take(0) =~= Seq::<bool>::empty());
        assert(times.take(0) =~= Seq::<Date>::empty());
        lemma_state_after_snoc(None, highs, times, 0);
    } else {
        lemma_high_stretch(highs, times, k - 1);
        lemma_state_after_snoc(None, highs, times, k - 1);
    }
}

/// Law: one alert per episode. Across a run whose rate rises to or above
/// the threshold for `n` consecutive records and then falls below it, the
/// emitted states are exactly one onset, sustained for every further high
/// record, one recovery tick, and inactive again — the onset and the
/// recovery each appear exactly once.
pub proof fn lemma_single_alert_per_episode(highs: Seq<bool>, times: Seq<Date>, n: int)
    requires
        highs.len() == times.len(),
        1 <= n,
        n + 2 <= highs.len(),
        forall|i: int| 0 <= i < n ==> highs[i],
        !highs[n],
        !highs[n + 1],
    ensures
        state_after(None, highs, times, 1) == Some(Alert::HighTraffic(Status::Start(times[0]))),
        forall|k: int|
            2 <= k <= n ==> state_after(None, highs, times, k) == Some(
                Alert::HighTraffic(Status::InProgress),
            ),
        state_after(None, highs, times, n + 1) == Some(Alert::HighTraffic(Status::End(times[n]))),
        is_inactive(state_after(None, highs, times, n + 2)),
{
    lemma_high_stretch(highs, times, 1);
    assert forall|k: int| 2 <= k <= n implies state_after(None, highs, times, k) == Some(
        Alert::HighTraffic(Status::InProgress),
    ) by {
        lemma_high_stretch(highs, times, k);
    }
    lemma_high_stretch(highs, times, n);
    lemma_state_after_snoc(None, highs, times, n);
    lemma_state_after_snoc(None, highs, times, n + 1);
}

/// Sliding time-window store of record timestamps, oldest first.
pub struct AlertWindow {
    buffer: VecDeque<Date>,
}

impl View for AlertWindow {
    type V = Seq<Date>;

    closed spec fn view(&self) -> Seq<Date> {
        self.buffer@
    }
}

impl AlertWindow {
    /// The stored timestamps never decrease from front to back.
    pub open spec fn wf(&self) -> bool {
        non_decreasing(self@)
    }

    pub fn new() -> (w: AlertWindow)
        ensures
            w@ == Seq::<Date>::empty(),
            w.wf(),
    {
        AlertWindow { buffer: VecDeque::new() }
    }

    /// Current occupancy: the count of records within the trailing window as
    /// of the last eviction.
    pub fn len(&self) -> (n: usize)
        ensures
            n == self@.len(),
    {
        self.buffer.len()
    }

    /// Appends a timestamp; the stream hands timestamps over in
    /// non-decreasing order, so the newcomer may not precede the last entry.
    /// Window length grows by exactly one: adding never decreases it.
    pub fn push(&mut self, timestamp: Date)
        requires
            old(self).wf(),
            old(self)@.len() > 0 ==> old(self)@.last() <= timestamp,
        ensures
            final(self).wf(),
            final(self)@ == old(self)@.push(timestamp),
            final(self)@.len() == old(self)@.len() + 1,
    {
        self.buffer.push_back(timestamp);
    }

    /// Removes from the front every timestamp older than `now - ttl`. Every
    /// kept timestamp is within the window, every removed one was outside it,
    /// and the length never grows.
    pub fn evict(&mut self, now: Date, ttl: i64)
        requires
            old(self).wf(),
            ttl >= 1,
            i64::MIN + ttl <= now,
        ensures
            final(self).wf(),
            final(self)@ == evict_spec(old(self)@, now - ttl),
            final(self)@.len() <= old(self)@.len(),
            final(self)@ == old(self)@.subrange(
                old(self)@.len() - final(self)@.len(),
                old(self)@.len() as int,
            ),
            forall|i: int| 0 <= i < final(self)@.len() ==> now - ttl <= final(self)@[i],
            forall|i: int|
                0 <= i < old(self)@.len() - final(self)@.len() ==> old(self)@[i] < now - ttl,
    {
        let ghost s0 = self.buffer@;
        let cutoff = now - ttl;
        loop
            invariant
                non_decreasing(s0),
                cutoff == now - ttl,
                self.buffer@.len() <= s0.len(),
                self.buffer@ == s0.subrange(s0.len() - self.buffer@.len(), s0.len() as int),
                forall|i: int| 0 <= i < s0.len() - self.buffer@.len() ==> s0[i] < cutoff,
            ensures
                self.buffer@.len() == 0 || cutoff <= self.buffer@[0],
                self.buffer@.len() <= s0.len(),
                self.buffer@ == s0.subrange(s0.len() - self.buffer@.len(), s0.len() as int),
                forall|i: int| 0 <= i < s0.len() - self.buffer@.len() ==> s0[i] < cutoff,
            decreases self.buffer@.len(),
        {
            if self.buffer.len() == 0 {
                break ;
            }
            let date = self.buffer[0];
            if date >= cutoff {
                break ;
            }
            proof {
                let dropped = s0.len() - self.buffer@.len();
                assert(s0[dropped] == self.buffer@[0]);
            }
            self.buffer.pop_front();
            proof {
                assert(self.buffer@ =~= s0.subrange(s0.len() - self.buffer@.len(), s0.len() as int));
            }
        }
        proof {
            lemma_evict_spec_characterize(s0, self.buffer@, cutoff as int);
            assert forall|i: int| 0 <= i < self.buffer@.len() implies cutoff <= self.buffer@[i] by {
                assert(self.buffer@[0] <= self.buffer@[i]);
            }
        }
    }
}

/// A front-evicted suffix whose head is fresh enough is exactly what
/// `evict_spec` produces.
proof fn lemma_evict_spec_characterize(s: Seq<Date>, t: Seq<Date>, cutoff: int)
    requires
        t.len() <= s.len(),
        t == s.subrange(s.len() - t.len(), s.len() as int),
        forall|i: int| 0 <= i < s.len() - t.len() ==> s[i] < cutoff,
        t.len() > 0 ==> cutoff <= t[0],
    ensures
        evict_spec(s, cutoff) == t,
    decreases s.len(),
{
    if s.len() == t.len() {
        assert(s =~= t);
    } else {
        assert(s[0] < cutoff);
        let s1 = s.subrange(1, s.len() as int);
        assert(t =~= s1.subrange(s1.len() - t.len(), s1.len() as int));
        lemma_evict_spec_characterize(s1, t, cutoff);
    }
}

/// Owner of one stream's alert state: the sliding window, the current alert
/// lifecycle state, and the configured threshold and TTL.
pub struct AlertHandler {
    pub window: AlertWindow,
    pub current_alert: Option<Alert>,
    pub high_alert_threshold: i64,
    pub alert_ttl: i64,
}

impl AlertHandler {
    /// Positive configuration and an ordered window; established by the
    /// constructor and preserved by every method.
    pub open spec fn wf(&self) -> bool {
        &&& self.window.wf()
        &&& self.alert_ttl >= 1
        &&& self.high_alert_threshold >= 1
    }

    /// A fresh handler: empty window, no alert. TTL and threshold are
    /// positive by configuration contract; zero values are a startup error.
    pub fn new(alert_ttl: i64, high_alert_threshold: i64) -> (h: AlertHandler)
        requires
            alert_ttl >= 1,
            high_alert_threshold >= 1,
        ensures
            h.wf(),
            h.window@ == Seq::<Date>::empty(),
            h.current_alert is None,
            h.alert_ttl == alert_ttl,
            h.high_alert_threshold == high_alert_threshold,
    {
        AlertHandler {
            window: AlertWindow::new(),
            current_alert: None,
            high_alert_threshold,
            alert_ttl,
        }
    }

    /// Evicts every window entry older than `now - ttl`; the alert state and
    /// the configuration are untouched.
    pub fn remove_records_by_ttl(&mut self, now: Date, ttl: i64)
        requires
            old(self).wf(),
            ttl >= 1,
            i64::MIN + ttl <= now,
        ensures
            final(self).wf(),
            final(self).window@ == evict_spec(old(self).window@, now - ttl),
            final(self).window@.len() <= old(self).window@.len(),
            final(self).window@ == old(self).window@.subrange(
                old(self).window@.len() - final(self).window@.len(),
                old(self).window@.len() as int,
            ),
            forall|i: int|
                0 <= i < final(self).window@.len() ==> now - ttl <= final(self).window@[i],
            final(self).current_alert == old(self).current_alert,
            final(self).high_alert_threshold == old(self).high_alert_threshold,
            final(self).alert_ttl == old(self).alert_ttl,
    {
        self.window.evict(now, ttl);
    }

    /// Admits one record with timestamp `date`: evicts the window relative to
    /// `date`, advances the alert state from the occupancy seen *before* the
    /// record itself is admitted, then appends `date` to the window. This
    /// ordering is load-bearing for the alert-boundary semantics.
    pub fn new_record(&mut self, date: Date)
        requires
            old(self).wf(),
            i64::MIN + old(self).alert_ttl <= date,
            old(self).window@.len() > 0 ==> old(self).window@.last() <= date,
        ensures
            final(self).wf(),
            final(self).high_alert_threshold == old(self).high_alert_threshold,
            final(self).alert_ttl == old(self).alert_ttl,
            final(self).window@ == evict_spec(old(self).window@, date - old(self).alert_ttl).push(date),
            final(self).current_alert == spec_transition(
                old(self).current_alert,
                rate_is_high(
                    evict_spec(old(self).window@, date - old(self).alert_ttl).len(),
                    old(self).high_alert_threshold,
                    old(self).alert_ttl,
                ),
                date,
            ),
    {
        let ttl = self.alert_ttl;
        self.remove_records_by_ttl(date, ttl);
        let len = self.window.len();
        let high = rate_at_or_above(len, self.high_alert_threshold, ttl);
        if high {
            match self.current_alert {
                Some(Alert::HighTraffic(Status::Start(_))) => {
                    self.current_alert = Some(Alert::HighTraffic(Status::InProgress));
                },
                Some(Alert::HighTraffic(Status::InProgress)) => {},
                Some(Alert::HighTraffic(Status::End(_))) => {
                    self.current_alert = Some(Alert::HighTraffic(Status::Start(date)));
                },
                None => {
                    self.current_alert = Some(Alert::HighTraffic(Status::Start(date)));
                },
            }
        } else {
            match self.current_alert {
                Some(Alert::HighTraffic(Status::Start(_))) => {
                    self.current_alert = Some(Alert::HighTraffic(Status::End(date)));
                },
                Some(Alert::HighTraffic(Status::InProgress)) => {
                    self.current_alert = Some(Alert::HighTraffic(Status::End(date)));
                },
                Some(Alert::HighTraffic(Status::End(_))) => {
                    self.current_alert = None;
                },
                None => {},
            }
        }
        proof {
            if self.window@.len() > 0 {
                assert(self.window@.last() == old(self).window@.last());
            }
        }
        self.window.push(date);
    }
}

/// Exact executable form of `rate_is_high`: the threshold comparison without
/// division, widened so the product cannot overflow.
fn rate_at_or_above(window_len: usize, threshold: i64, ttl: i64) -> (r: bool)
    requires
        threshold >= 1,
        ttl >= 1,
    ensures
        r == rate_is_high(window_len as nat, threshold, ttl),
{
    proof {
        assert((threshold as u128) * (ttl as u128) == (threshold as int) * (ttl as int)
            && (threshold as int) * (ttl as int) <= u128::MAX) by (nonlinear_arith)
            requires
                1 <= threshold <= i64::MAX,
                1 <= ttl <= i64::MAX,
        ;
    }
    let need: u128 = (threshold as u128) * (ttl as u128);
    (window_len as u128) >= need
}

} // verus!
