use douglas::docker::{ContainerPresence, Status};
use douglas::names::Name;
use douglas::seedling::DesiredRunStatus;
use douglas::watchdog::{
    after_recheck, create_plan, discover, judge, AfterRecheck, Sight, State, Step, Verdict,
};

fn name() -> Name {
    Name::parse("always-fails").expect("valid name")
}

fn descriptions(steps: &[Step<'_>]) -> Vec<String> {
    steps.iter().map(Step::describe).collect()
}

#[test]
fn test_create_plan_should_recheck_health_for_a_running_seedling_below_the_fail_threshold() {
    let name = name();
    let steps = create_plan(State {
        needing_health_recheck: vec![&name],
        ..State::default()
    });

    assert_eq!(
        descriptions(&steps),
        vec!["Rechecking health for seedling 'always-fails' "]
    );
}

#[test]
fn test_create_plan_should_stop_before_starting_before_rechecking() {
    let name = name();
    let steps = create_plan(State {
        needing_stop: vec![&name],
        needing_start: vec![&name],
        needing_health_recheck: vec![&name],
    });

    assert_eq!(
        descriptions(&steps),
        vec![
            "Stop seedling 'always-fails' ",
            "Reconcile seedling 'always-fails' ",
            "Start seedling 'always-fails' ",
            "Rechecking health for seedling 'always-fails' ",
        ]
    );
}

#[test]
fn test_verdicts_follow_what_should_run_and_what_fails() {
    let running = DesiredRunStatus::Running;
    let stopped = DesiredRunStatus::Stopped;
    assert_eq!(judge(true, running, false), Verdict::RecheckHealth);
    assert_eq!(judge(true, running, true), Verdict::Stop);
    assert_eq!(judge(true, stopped, false), Verdict::Stop);
    assert_eq!(judge(true, stopped, true), Verdict::Stop);
    assert_eq!(judge(false, running, false), Verdict::Start);
    assert_eq!(judge(false, running, true), Verdict::LeaveAlone);
    assert_eq!(judge(false, stopped, false), Verdict::LeaveAlone);
    assert_eq!(judge(false, stopped, true), Verdict::LeaveAlone);
}

#[test]
fn test_a_sweep_sorts_seedlings_by_verdict() {
    let well = Name::parse("well").expect("valid name");
    let fallen = Name::parse("fallen").expect("valid name");
    let unwanted = Name::parse("unwanted").expect("valid name");
    let paused = Name::parse("paused").expect("valid name");
    let sights = vec![
        Sight {
            name: &well,
            container: ContainerPresence::Present(Status::Running),
            desired: DesiredRunStatus::Running,
            reached_max_fail_count: Some(false),
        },
        Sight {
            name: &fallen,
            container: ContainerPresence::Absent,
            desired: DesiredRunStatus::Running,
            reached_max_fail_count: None,
        },
        Sight {
            name: &unwanted,
            container: ContainerPresence::Present(Status::Running),
            desired: DesiredRunStatus::Stopped,
            reached_max_fail_count: None,
        },
        Sight {
            name: &paused,
            container: ContainerPresence::Present(Status::Paused),
            desired: DesiredRunStatus::Running,
            reached_max_fail_count: Some(true),
        },
    ];

    assert_eq!(
        discover(&sights),
        State {
            needing_start: vec![&fallen],
            needing_stop: vec![&unwanted],
            needing_health_recheck: vec![&well],
        }
    );
}

#[test]
fn test_a_recheck_forgets_or_records_failures() {
    assert_eq!(after_recheck(true), AfterRecheck::ResetHealthLog);
    assert_eq!(after_recheck(false), AfterRecheck::RecordFailure);
}

#[test]
fn test_steps_have_names() {
    let name = name();
    let steps = create_plan(State {
        needing_start: vec![&name],
        ..State::default()
    });

    assert_eq!(steps[0].name(), "Reconcile seedling");
    assert_eq!(steps[1].name(), "Start seedling");
}
