//! Restart the agent when its on-disk executable is replaced.
//!
//! An app update swaps the bundle on disk while the old agent keeps running.
//! Watching the agent's own executable and replacing the process image once it
//! changes keeps "the running agent is the installed binary" true within a few
//! ticks.

use vstd::prelude::*;

verus! {

/// How often the executable is looked at, in seconds.
pub const PERIOD_SECS: u64 = 10;

/// What "the binary changed" means: a different size or modification time at
/// the same path. The time counts nanoseconds from the Unix epoch.
pub type Fingerprint = (u64, i128);

/// The meaning of a fingerprint: the candidate to carry to the next tick, and
/// whether to restart now. A vanished file and the file the agent runs from are
/// no candidates; a candidate that was already one at the last tick has settled.
pub open spec fn verdict(
    baseline: Fingerprint,
    pending: Option<Fingerprint>,
    now: Option<Fingerprint>,
) -> (Option<Fingerprint>, bool) {
    match now {
        Some(f) if f != baseline => (now, pending == now),
        _ => (None, false),
    }
}

fn same(a: Fingerprint, b: Fingerprint) -> (r: bool)
    ensures
        r == (a == b),
{
    a.0 == b.0 && a.1 == b.1
}

/// One watch tick: what the new fingerprint means, given what the last tick saw.
///
/// A change must hold still for two consecutive ticks before it triggers a
/// restart: a replacement that is not atomic is observable mid-write, and a
/// half-written image would kill the agent instead of updating it. `pending`
/// carries the candidate between ticks.
pub fn assess(
    baseline: Fingerprint,
    pending: Option<Fingerprint>,
    now: Option<Fingerprint>,
) -> (r: (Option<Fingerprint>, bool))
    ensures
        r == verdict(baseline, pending, now),
{
    match now {
        // A vanished file is no change: mid-replace the old file is unlinked
        // before the new one lands, so wait for a readable replacement before
        // even arming.
        None => (None, false),
        Some(f) => if same(f, baseline) {
            (None, false)
        } else {
            let settled: bool = match pending {
                Some(p) => same(p, f),
                None => false,
            };
            // Seen twice in a row, the write has settled; otherwise arm and
            // look again at the next tick.
            (Some(f), settled)
        },
    }
}

/// Why the executable is not watched.
#[derive(Clone, Copy, Debug, PartialEq, Eq, Structural)]
pub enum WatchDisabled {
    /// The path of the own executable is unknown.
    NoPath,
    /// The executable could not be looked at.
    NoFingerprint,
}

/// The watch over the agent's own executable.
#[derive(Clone, Copy, Debug)]
pub struct BinaryWatch {
    baseline: Fingerprint,
    pending: Option<Fingerprint>,
}

impl BinaryWatch {
    /// The fingerprint of the file the agent runs from.
    pub closed spec fn baseline(&self) -> Fingerprint {
        self.baseline
    }

    /// The replacement seen at the last tick, if it may be one.
    pub closed spec fn pending(&self) -> Option<Fingerprint> {
        self.pending
    }

    /// Begin to watch. The path and the baseline fingerprint are resolved once,
    /// up front; if either fails the watch is disabled rather than guessing.
    pub fn spawn(path_known: bool, baseline: Option<Fingerprint>) -> (watch: Result<
        BinaryWatch,
        WatchDisabled,
    >)
        ensures
            match watch {
                Ok(w) => path_known && baseline == Some(w.baseline()) && w.pending() is None,
                Err(WatchDisabled::NoPath) => !path_known,
                Err(WatchDisabled::NoFingerprint) => path_known && baseline is None,
            },
    {
        if !path_known {
            return Err(WatchDisabled::NoPath);
        }
        match baseline {
            Some(baseline) => Ok(BinaryWatch { baseline, pending: None }),
            None => Err(WatchDisabled::NoFingerprint),
        }
    }

    /// One tick: whether to restart now.
    pub fn tick(&mut self, now: Option<Fingerprint>) -> (restart: bool)
        ensures
            final(self).baseline() == old(self).baseline(),
            (final(self).pending(), restart) == verdict(
                old(self).baseline(),
                old(self).pending(),
                now,
            ),
    {
        let (pending, restart) = assess(self.baseline, self.pending, now);
        self.pending = pending;
        restart
    }

    /// The restart failed and the old image still runs: the retry needs a fresh
    /// settle.
    pub fn restart_failed(&mut self)
        ensures
            final(self).baseline() == old(self).baseline(),
            final(self).pending() is None,
    {
        self.pending = None;
    }
}

/// The candidate carried after a run of ticks, each restart of which failed.
pub open spec fn carried(baseline: Fingerprint, seen: Seq<Option<Fingerprint>>) -> Option<
    Fingerprint,
>
    decreases seen.len(),
{
    if seen.len() == 0 {
        None
    } else {
        let (pending, restart) = verdict(
            baseline,
            carried(baseline, seen.drop_last()),
            seen.last(),
        );
        if restart {
            None
        } else {
            pending
        }
    }
}

/// Whether the last tick of a run restarts.
pub open spec fn restarts(baseline: Fingerprint, seen: Seq<Option<Fingerprint>>) -> bool {
    seen.len() > 0 && verdict(
        baseline,
        carried(baseline, seen.drop_last()),
        seen.last(),
    ).1
}

/// A restart happens only for a replacement that held still: the last two
/// sightings are the same readable file, and it is not the one the agent runs
/// from.
pub proof fn law_restarts_only_on_a_settled_change(
    baseline: Fingerprint,
    seen: Seq<Option<Fingerprint>>,
)
    requires
        restarts(baseline, seen),
    ensures
        seen.len() >= 2,
        seen.last() is Some,
        seen.last() != Some(baseline),
        seen[seen.len() - 2] == seen.last(),
{
    let before = seen.drop_last();
    assert(carried(baseline, before) is Some);
    assert(before.last() == seen[seen.len() - 2]);
}

/// A replacement that settles is taken: where the last two sightings are the
/// same file and it is not the one the agent runs from, the last tick restarts,
/// unless the one before it just did.
pub proof fn law_a_settled_change_restarts(baseline: Fingerprint, seen: Seq<Option<Fingerprint>>)
    requires
        seen.len() >= 2,
        seen.last() is Some,
        seen.last() != Some(baseline),
        seen[seen.len() - 2] == seen.last(),
    ensures
        restarts(baseline, seen) || restarts(baseline, seen.drop_last()),
{
    let before = seen.drop_last();
    assert(before.last() == seen.last());
}

/// A failed restart is not tried again at the very next tick.
pub proof fn law_a_failed_restart_needs_a_fresh_settle(
    baseline: Fingerprint,
    seen: Seq<Option<Fingerprint>>,
    next: Option<Fingerprint>,
)
    requires
        restarts(baseline, seen),
    ensures
        !restarts(baseline, seen.push(next)),
{
    assert(seen.push(next).drop_last() =~= seen);
    assert(carried(baseline, seen) is None);
}

/// One tick by itself: the candidate carried on is what is seen, where that is a
/// readable file that differs in size or in time from the one the agent runs
/// from; and the tick restarts exactly where that candidate was carried already.
pub proof fn law_a_tick_carries_what_differs(
    baseline: Fingerprint,
    pending: Option<Fingerprint>,
    now: Option<Fingerprint>,
)
    ensures
        now is None ==> verdict(baseline, pending, now) == (None::<Fingerprint>, false),
        now == Some(baseline) ==> verdict(baseline, pending, now) == (None::<Fingerprint>, false),
        now matches Some(f) && (f.0 != baseline.0 || f.1 != baseline.1) ==> verdict(
            baseline,
            pending,
            now,
        ).0 == now && (verdict(baseline, pending, now).1 <==> pending == now),
{
}

/// A change is looked for every ten seconds.
pub proof fn law_the_executable_is_looked_at_every_ten_seconds()
    ensures
        PERIOD_SECS == 10,
{
}

/// The watch begins exactly where both the path and the file are known, with that
/// file as its baseline and no candidate.
pub proof fn law_watching_takes_a_path_and_a_file(
    path_known: bool,
    baseline: Option<Fingerprint>,
    watch: Result<BinaryWatch, WatchDisabled>,
)
    requires
        call_ensures(BinaryWatch::spawn, (path_known, baseline), watch),
    ensures
        watch is Ok <==> path_known && baseline is Some,
        watch matches Ok(w) ==> w.baseline() == baseline->0 && w.pending() is None,
        watch matches Err(e) ==> (e is NoPath <==> !path_known),
{
}

/// Two ticks in a row that see the same replacement restart the agent at the
/// second; a restart that failed takes two more.
pub proof fn law_two_equal_sightings_restart(
    first: &mut BinaryWatch,
    second: &mut BinaryWatch,
    failed: &mut BinaryWatch,
    third: &mut BinaryWatch,
    seen: Fingerprint,
    restarts: (bool, bool, bool),
)
    requires
        call_ensures(BinaryWatch::tick, (first, Some(seen)), restarts.0),
        *old(second) == *final(first),
        call_ensures(BinaryWatch::tick, (second, Some(seen)), restarts.1),
        *old(failed) == *final(second),
        call_ensures(BinaryWatch::restart_failed, (failed,), ()),
        *old(third) == *final(failed),
        call_ensures(BinaryWatch::tick, (third, Some(seen)), restarts.2),
    ensures
        restarts.1 <==> seen.0 != old(first).baseline().0 || seen.1 != old(first).baseline().1,
        restarts.0 <==> restarts.1 && old(first).pending() == Some(seen),
        !restarts.2,
        final(third).baseline() == old(first).baseline(),
{
    law_a_tick_carries_what_differs(old(first).baseline(), old(first).pending(), Some(seen));
    law_a_tick_carries_what_differs(old(second).baseline(), old(second).pending(), Some(seen));
    law_a_tick_carries_what_differs(old(third).baseline(), old(third).pending(), Some(seen));
}

/// A file that cannot be read, and the file the agent runs from, restart nothing
/// and are no candidates.
pub proof fn law_no_change_is_no_candidate(
    watch: &mut BinaryWatch,
    now: Option<Fingerprint>,
    restart: bool,
    baseline: Fingerprint,
    pending: Option<Fingerprint>,
    r: (Option<Fingerprint>, bool),
)
    requires
        call_ensures(BinaryWatch::tick, (watch, now), restart),
        call_ensures(assess, (baseline, pending, now), r),
    ensures
        now is None ==> !restart && final(watch).pending() is None,
        now == Some(old(watch).baseline()) ==> !restart && final(watch).pending() is None,
        now is None || now == Some(baseline) ==> r.0 is None && !r.1,
        now is Some && now != Some(baseline) ==> r.0 == now && (r.1 <==> pending == now),
{
}

} // verus!
