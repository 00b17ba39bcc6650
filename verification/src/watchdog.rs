//! The watchdog's sweep: which seedlings are stopped, started or looked at again.

use crate::docker::ContainerPresence;
use crate::executor::{describe_failed, failed_words, only_reason};
use crate::names::Name;
use crate::seedling::DesiredRunStatus;
use crate::sequences::lemma_push_contains;
use crate::text::cat3;
use vstd::prelude::*;

verus! {

/// Why a sweep failed.
#[derive(Debug, PartialEq, Eq)]
pub enum WatchdogError {
    FailedBoostrap(Vec<String>),
}

impl WatchdogError {
    /// The error for a plan that could not be carried out for a reason.
    pub fn failed(reason: String) -> (r: Self)
        ensures
            r matches WatchdogError::FailedBoostrap(reasons) && reasons@ == seq![reason],
    {
        WatchdogError::FailedBoostrap(only_reason(reason))
    }

    /// The error in words.
    pub fn describe(&self) -> (r: String)
        ensures
            self matches WatchdogError::FailedBoostrap(reasons) && r@ == failed_words(reasons@),
    {
        match self {
            WatchdogError::FailedBoostrap(reasons) => describe_failed(reasons),
        }
    }
}

/// What a sweep does about a seedling.
#[derive(Debug, Clone, Copy, PartialEq, Eq, Structural)]
pub enum Verdict {
    Stop,
    Start,
    RecheckHealth,
    LeaveAlone,
}

/// What a sweep does about a seedling: one that runs is stopped where it should not run or has
/// failed too often, and is looked at again otherwise; one that does not run is started where it
/// should run and has not failed too often.
pub open spec fn verdict_on(
    is_running: bool,
    desired: DesiredRunStatus,
    reached_max_fail_count: bool,
) -> Verdict {
    if is_running {
        if reached_max_fail_count || desired == DesiredRunStatus::Stopped {
            Verdict::Stop
        } else {
            Verdict::RecheckHealth
        }
    } else if !reached_max_fail_count && desired == DesiredRunStatus::Running {
        Verdict::Start
    } else {
        Verdict::LeaveAlone
    }
}

/// What a sweep does about a seedling.
pub fn judge(is_running: bool, desired: DesiredRunStatus, reached_max_fail_count: bool) -> (r:
    Verdict)
    ensures
        r == verdict_on(is_running, desired, reached_max_fail_count),
{
    if is_running {
        if reached_max_fail_count || desired == DesiredRunStatus::Stopped {
            Verdict::Stop
        } else {
            Verdict::RecheckHealth
        }
    } else if !reached_max_fail_count && desired == DesiredRunStatus::Running {
        Verdict::Start
    } else {
        Verdict::LeaveAlone
    }
}

/// A seedling that has failed too often is never started by the watchdog.
pub proof fn law_failing_seedlings_are_not_restarted(is_running: bool, desired: DesiredRunStatus)
    ensures
        verdict_on(is_running, desired, true) != Verdict::Start,
{
}

/// Once a seedling that is to be started runs, or one that is to be stopped does not, the next
/// sweep asks for neither again, as long as nothing else has changed.
pub proof fn law_sweeps_settle(
    is_running: bool,
    desired: DesiredRunStatus,
    reached_max_fail_count: bool,
)
    ensures
        verdict_on(is_running, desired, reached_max_fail_count) == Verdict::Start ==> verdict_on(
            true,
            desired,
            reached_max_fail_count,
        ) == Verdict::RecheckHealth,
        verdict_on(is_running, desired, reached_max_fail_count) == Verdict::Stop ==> verdict_on(
            false,
            desired,
            reached_max_fail_count,
        ) == Verdict::LeaveAlone,
{
}

/// What a sweep sees of a seedling. A seedling without a health log has not failed.
#[derive(Debug, PartialEq, Eq)]
pub struct Sight<'a> {
    pub name: &'a Name,
    pub container: ContainerPresence,
    pub desired: DesiredRunStatus,
    pub reached_max_fail_count: Option<bool>,
}

impl<'a> Sight<'a> {
    /// What the sweep does about the seedling.
    pub open spec fn verdict(self) -> Verdict {
        verdict_on(
            self.container == ContainerPresence::Present(crate::docker::Status::Running),
            self.desired,
            self.reached_max_fail_count == Some(true),
        )
    }
}

/// What a sweep has found.
#[derive(Debug, PartialEq, Eq)]
pub struct State<'a> {
    pub needing_start: Vec<&'a Name>,
    pub needing_stop: Vec<&'a Name>,
    pub needing_health_recheck: Vec<&'a Name>,
}

impl<'a> Default for State<'a> {
    fn default() -> (r: Self)
        ensures
            r.needing_start@.len() == 0,
            r.needing_stop@.len() == 0,
            r.needing_health_recheck@.len() == 0,
    {
        State {
            needing_start: Vec::new(),
            needing_stop: Vec::new(),
            needing_health_recheck: Vec::new(),
        }
    }
}

/// The seedlings about which a sweep does one thing, in the order in which it saw them.
pub open spec fn judged<'a>(sights: Seq<Sight<'a>>, verdict: Verdict) -> Seq<&'a Name>
    decreases sights.len(),
{
    if sights.len() == 0 {
        Seq::empty()
    } else if sights.last().verdict() == verdict {
        judged(sights.drop_last(), verdict).push(sights.last().name)
    } else {
        judged(sights.drop_last(), verdict)
    }
}

/// What a sweep has found.
pub fn discover<'a>(sights: &Vec<Sight<'a>>) -> (r: State<'a>)
    ensures
        r.needing_start@ == judged(sights@, Verdict::Start),
        r.needing_stop@ == judged(sights@, Verdict::Stop),
        r.needing_health_recheck@ == judged(sights@, Verdict::RecheckHealth),
{
    let mut needing_start: Vec<&'a Name> = Vec::new();
    let mut needing_stop: Vec<&'a Name> = Vec::new();
    let mut needing_health_recheck: Vec<&'a Name> = Vec::new();
    let mut i: usize = 0;
    assert(sights@.take(0) =~= Seq::<Sight<'a>>::empty());
    while i < sights.len()
        invariant
            i <= sights@.len(),
            needing_start@ == judged(sights@.take(i as int), Verdict::Start),
            needing_stop@ == judged(sights@.take(i as int), Verdict::Stop),
            needing_health_recheck@ == judged(sights@.take(i as int), Verdict::RecheckHealth),
        decreases sights@.len() - i,
    {
        assert(sights@.take(i as int + 1).drop_last() =~= sights@.take(i as int));
        let sight: &Sight<'a> = &sights[i];
        let failed: bool = match sight.reached_max_fail_count {
            Some(reached) => reached,
            None => false,
        };
        match judge(sight.container.is_running(), sight.desired, failed) {
            Verdict::Start => needing_start.push(sight.name),
            Verdict::Stop => needing_stop.push(sight.name),
            Verdict::RecheckHealth => needing_health_recheck.push(sight.name),
            Verdict::LeaveAlone => {},
        }
        i += 1;
    }
    assert(sights@.take(sights@.len() as int) =~= sights@);
    State { needing_start, needing_stop, needing_health_recheck }
}

/// One step of a sweep.
#[derive(Debug, PartialEq, Eq)]
pub enum Step<'a> {
    StopSeedling { seedling_name: &'a Name },
    ReconcileSeedling { seedling_name: &'a Name },
    StartSeedling { seedling_name: &'a Name },
    RecheckSeedlingHealth { seedling_name: &'a Name },
}

impl<'a> Step<'a> {
    /// What the step does, in words.
    pub fn describe(&self) -> (r: String)
        ensures
            r@ == (match self {
                Step::StopSeedling { seedling_name } => "Stop seedling '"@ + seedling_name@ + "' "@,
                Step::ReconcileSeedling { seedling_name } => "Reconcile seedling '"@
                    + seedling_name@ + "' "@,
                Step::StartSeedling { seedling_name } => "Start seedling '"@ + seedling_name@
                    + "' "@,
                Step::RecheckSeedlingHealth { seedling_name } =>
                    "Rechecking health for seedling '"@ + seedling_name@ + "' "@,
            }),
    {
        match self {
            Step::StopSeedling { seedling_name } => cat3(
                "Stop seedling '",
                seedling_name.as_str(),
                "' ",
            ),
            Step::ReconcileSeedling { seedling_name } => cat3(
                "Reconcile seedling '",
                seedling_name.as_str(),
                "' ",
            ),
            Step::StartSeedling { seedling_name } => cat3(
                "Start seedling '",
                seedling_name.as_str(),
                "' ",
            ),
            Step::RecheckSeedlingHealth { seedling_name } => cat3(
                "Rechecking health for seedling '",
                seedling_name.as_str(),
                "' ",
            ),
        }
    }

    /// The step's name.
    pub fn name(&self) -> (r: String)
        ensures
            r@ == (match self {
                Step::StopSeedling { .. } => "Stop seedling"@,
                Step::ReconcileSeedling { .. } => "Reconcile seedling"@,
                Step::StartSeedling { .. } => "Start seedling"@,
                Step::RecheckSeedlingHealth { .. } => "Rechecking seedling health"@,
            }),
    {
        match self {
            Step::StopSeedling { .. } => "Stop seedling".to_owned(),
            Step::ReconcileSeedling { .. } => "Reconcile seedling".to_owned(),
            Step::StartSeedling { .. } => "Start seedling".to_owned(),
            Step::RecheckSeedlingHealth { .. } => "Rechecking seedling health".to_owned(),
        }
    }
}

/// The steps that stop seedlings.
pub open spec fn stops<'a>(names: Seq<&'a Name>) -> Seq<Step<'a>> {
    names.map_values(|name: &'a Name| Step::StopSeedling { seedling_name: name })
}

/// The steps that start seedlings, each reconciled first.
pub open spec fn starts<'a>(names: Seq<&'a Name>) -> Seq<Step<'a>> {
    Seq::new(
        2 * names.len(),
        |i: int|
            if i % 2 == 0 {
                Step::ReconcileSeedling { seedling_name: names[i / 2] }
            } else {
                Step::StartSeedling { seedling_name: names[i / 2] }
            },
    )
}

/// The steps that look at seedlings again.
pub open spec fn rechecks<'a>(names: Seq<&'a Name>) -> Seq<Step<'a>> {
    names.map_values(|name: &'a Name| Step::RecheckSeedlingHealth { seedling_name: name })
}

/// The steps of a sweep: first what must stop is stopped, then what must run is started, then what
/// runs is looked at again.
pub open spec fn planned<'a>(state: State<'a>) -> Seq<Step<'a>> {
    stops(state.needing_stop@) + starts(state.needing_start@) + rechecks(
        state.needing_health_recheck@,
    )
}

/// Plans a sweep.
pub fn create_plan<'a>(state: State<'a>) -> (r: Vec<Step<'a>>)
    ensures
        r@ == planned(state),
{
    let mut steps: Vec<Step<'a>> = Vec::new();
    let mut i: usize = 0;
    while i < state.needing_stop.len()
        invariant
            i <= state.needing_stop@.len(),
            steps@ =~= stops(state.needing_stop@.take(i as int)),
        decreases state.needing_stop@.len() - i,
    {
        steps.push(Step::StopSeedling { seedling_name: state.needing_stop[i] });
        i += 1;
    }
    assert(state.needing_stop@.take(i as int) =~= state.needing_stop@);
    let ghost stopped = stops(state.needing_stop@);
    let mut j: usize = 0;
    while j < state.needing_start.len()
        invariant
            j <= state.needing_start@.len(),
            steps@ =~= stopped + starts(state.needing_start@.take(j as int)),
        decreases state.needing_start@.len() - j,
    {
        steps.push(Step::ReconcileSeedling { seedling_name: state.needing_start[j] });
        steps.push(Step::StartSeedling { seedling_name: state.needing_start[j] });
        j += 1;
    }
    assert(state.needing_start@.take(j as int) =~= state.needing_start@);
    let ghost started = stopped + starts(state.needing_start@);
    let mut k: usize = 0;
    while k < state.needing_health_recheck.len()
        invariant
            k <= state.needing_health_recheck@.len(),
            steps@ =~= started + rechecks(state.needing_health_recheck@.take(k as int)),
        decreases state.needing_health_recheck@.len() - k,
    {
        steps.push(
            Step::RecheckSeedlingHealth { seedling_name: state.needing_health_recheck[k] },
        );
        k += 1;
    }
    assert(state.needing_health_recheck@.take(k as int) =~= state.needing_health_recheck@);
    steps
}

/// The watchdog starts no seedling that it has not reconciled right before.
pub proof fn law_starts_follow_reconciliation<'a>(state: State<'a>, i: int)
    requires
        0 <= i < planned(state).len(),
        planned(state)[i] is StartSeedling,
    ensures
        i > 0,
        planned(state)[i - 1] == (Step::ReconcileSeedling {
            seedling_name: planned(state)[i]->StartSeedling_seedling_name,
        }),
{
    let n = state.needing_stop@.len();
    let names = state.needing_start@;
    assert(n <= i < n + 2 * names.len());
    let at = i - n;
    assert(starts(names)[at] == planned(state)[i]);
    assert(at % 2 == 1);
    assert((at - 1) / 2 == at / 2);
    assert(starts(names)[at - 1] == planned(state)[i - 1]);
}

/// What follows when a running seedling's health was looked at again.
#[derive(Debug, Clone, Copy, PartialEq, Eq, Structural)]
pub enum AfterRecheck {
    ResetHealthLog,
    RecordFailure,
}

/// What follows when a running seedling's health was looked at again: past failures of a healthy
/// one are forgotten, a failure is recorded.
pub fn after_recheck(is_healthy: bool) -> (r: AfterRecheck)
    ensures
        r == (if is_healthy {
            AfterRecheck::ResetHealthLog
        } else {
            AfterRecheck::RecordFailure
        }),
{
    if is_healthy {
        AfterRecheck::ResetHealthLog
    } else {
        AfterRecheck::RecordFailure
    }
}

/// A sweep judges every seedling by three things: whether it runs, whether it should, and whether
/// it has failed too often. What runs and should not, or fails, is stopped; what should run, does
/// not and has not failed too often is started; what runs and should is looked at again.
pub proof fn law_verdicts_follow_from_what_was_seen<'a>(sight: Sight<'a>)
    ensures
        ({
            let runs = sight.container == ContainerPresence::Present(
                crate::docker::Status::Running,
            );
            let failed = sight.reached_max_fail_count == Some(true);
            let wanted = sight.desired == DesiredRunStatus::Running;
            &&& sight.verdict() == Verdict::Stop <==> runs && (failed || !wanted)
            &&& sight.verdict() == Verdict::Start <==> !runs && wanted && !failed
            &&& sight.verdict() == Verdict::RecheckHealth <==> runs && wanted && !failed
            &&& sight.verdict() == Verdict::LeaveAlone <==> !runs && (failed || !wanted)
        }),
{
}

/// What a sweep finds is what it judged: a seedling is among those with a verdict exactly where it
/// was seen and the verdict on it was this one.
pub proof fn law_sweeps_pass_over_nobody<'a>(
    sights: Seq<Sight<'a>>,
    verdict: Verdict,
    name: &'a Name,
)
    ensures
        judged(sights, verdict).contains(name) == exists|i: int|
            0 <= i < sights.len() && (#[trigger] sights[i]).name == name && sights[i].verdict()
                == verdict,
    decreases sights.len(),
{
    if sights.len() > 0 {
        let rest = sights.drop_last();
        law_sweeps_pass_over_nobody(rest, verdict, name);
        lemma_push_contains(judged(rest, verdict), sights.last().name, name);
        if judged(rest, verdict).contains(name) {
            let i = choose|i: int|
                0 <= i < rest.len() && (#[trigger] rest[i]).name == name && rest[i].verdict()
                    == verdict;
            assert(sights[i] == rest[i]);
        }
        if sights.last().name == name && sights.last().verdict() == verdict {
            assert(sights[sights.len() - 1] == sights.last());
        }
        if exists|i: int|
            0 <= i < sights.len() && (#[trigger] sights[i]).name == name && sights[i].verdict()
                == verdict {
            let i = choose|i: int|
                0 <= i < sights.len() && (#[trigger] sights[i]).name == name
                    && sights[i].verdict() == verdict;
            if i < rest.len() {
                assert(sights[i] == rest[i]);
            }
        }
    }
}

/// Of two lists seen one after the other, what is found of the first comes first.
pub proof fn law_sweeps_keep_the_order<'a>(
    first: Seq<Sight<'a>>,
    second: Seq<Sight<'a>>,
    verdict: Verdict,
)
    ensures
        judged(first + second, verdict) == judged(first, verdict) + judged(second, verdict),
    decreases second.len(),
{
    if second.len() == 0 {
        assert(first + second =~= first);
        assert(judged(first, verdict) + judged(second, verdict) =~= judged(first, verdict));
    } else {
        let rest = second.drop_last();
        law_sweeps_keep_the_order(first, rest, verdict);
        assert((first + second).drop_last() =~= first + rest);
        assert((first + second).last() == second.last());
    }
}

/// A sweep does for every seedling what it found it to need, in the order of finding: all stops
/// first, then each start with its reconciliation, then all health checks, and nothing else.
pub proof fn law_sweeps_do_what_they_found<'a>(state: State<'a>, i: int)
    ensures
        ({
            let plan = planned(state);
            let stops = state.needing_stop@.len() as int;
            let starts = state.needing_start@.len() as int;
            &&& plan.len() == stops + 2 * starts + state.needing_health_recheck@.len()
            &&& 0 <= i < stops ==> plan[i] == (Step::StopSeedling {
                seedling_name: state.needing_stop@[i],
            })
            &&& 0 <= i < starts ==> plan[stops + 2 * i] == (Step::ReconcileSeedling {
                seedling_name: state.needing_start@[i],
            })
            &&& 0 <= i < starts ==> plan[stops + 2 * i + 1] == (Step::StartSeedling {
                seedling_name: state.needing_start@[i],
            })
            &&& 0 <= i < state.needing_health_recheck@.len() ==> plan[stops + 2 * starts + i] == (
            Step::RecheckSeedlingHealth { seedling_name: state.needing_health_recheck@[i] })
        }),
{
    let starting = starts(state.needing_start@);
    assert(0 <= i < state.needing_start@.len() ==> starting[2 * i] == (Step::ReconcileSeedling {
        seedling_name: state.needing_start@[i],
    }));
    assert(0 <= i < state.needing_start@.len() ==> starting[2 * i + 1] == (Step::StartSeedling {
        seedling_name: state.needing_start@[i],
    }));
}

} // verus!
