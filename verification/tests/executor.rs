use douglas::executor::{
    execute_plan, outcome_of, resolve_plan, Command, CommandError, CommandExecutor,
    ExecutionResult, JournalingExecutor,
};

/// A step that writes down what becomes of it.
struct Noting {
    name: &'static str,
    skips: bool,
    fails: bool,
    stays: bool,
}

impl Command<Vec<String>> for Noting {
    fn name(&self) -> String {
        self.name.to_string()
    }

    fn describe(&self) -> String {
        format!("{} it", self.name)
    }

    fn run(&mut self, context: &mut Vec<String>) -> Result<(), CommandError> {
        context.push(format!("run {}", self.name));
        if self.fails {
            Err(CommandError {
                message: "boom".to_string(),
            })
        } else {
            Ok(())
        }
    }

    fn rollback(&mut self, context: &mut Vec<String>) -> Result<(), CommandError> {
        context.push(format!("undo {}", self.name));
        if self.stays {
            Err(CommandError {
                message: format!("{} stays", self.name),
            })
        } else {
            Ok(())
        }
    }

    fn skip(&self, _context: &Vec<String>) -> bool {
        self.skips
    }
}

fn succeeding(name: &'static str) -> Noting {
    Noting {
        name,
        skips: false,
        fails: false,
        stays: false,
    }
}

fn failing(name: &'static str) -> Noting {
    Noting {
        fails: true,
        ..succeeding(name)
    }
}

#[test]
fn test_execute_plan_should_succeed_when_every_step_succeeds() {
    let mut context = Vec::new();

    let result = execute_plan(vec![succeeding("Succeeding")], &mut context);

    assert!(result.is_ok());
}

#[test]
fn test_execute_plan_should_pass_the_failure_reason_to_on_failed() {
    let mut context = Vec::new();

    let result = execute_plan(
        vec![succeeding("Succeeding"), failing("Failing")],
        &mut context,
    );

    let reason = result.expect_err("should fail");
    assert!(reason.contains("step 1"));
    assert!(reason.contains("Failing"));
    assert!(reason.contains("boom"));
    assert_eq!(reason, "step 1 (Failing): boom");
}

#[test]
fn test_what_was_done_is_undone_last_step_first() {
    let mut context = Vec::new();

    let result = execute_plan(
        vec![
            succeeding("first"),
            succeeding("second"),
            failing("third"),
            succeeding("fourth"),
        ],
        &mut context,
    );

    assert!(result.is_err());
    assert_eq!(
        context,
        vec![
            "run first",
            "run second",
            "run third",
            "undo second",
            "undo first"
        ]
    );
}

#[test]
fn test_a_step_with_nothing_to_do_is_not_run() {
    let mut context = Vec::new();

    let result = execute_plan(
        vec![
            Noting {
                skips: true,
                ..failing("skipped")
            },
            succeeding("run"),
        ],
        &mut context,
    );

    assert!(result.is_ok());
    assert_eq!(context, vec!["run run"]);
}

#[test]
fn test_a_step_that_cannot_be_undone_does_not_keep_the_others() {
    let mut context = Vec::new();
    let mut executor = JournalingExecutor::new();

    let result = executor.run(
        &mut context,
        vec![
            succeeding("first"),
            Noting {
                stays: true,
                ..succeeding("second")
            },
            failing("third"),
        ],
    );

    assert_eq!(
        result,
        ExecutionResult::Failed {
            failed_at_step: 2,
            failed_at_step_name: "third".to_string(),
            perform_error: CommandError {
                message: "boom".to_string()
            },
            rollback_errors: vec![CommandError {
                message: "second stays".to_string()
            }],
        }
    );
    assert_eq!(context.last().map(String::as_str), Some("undo first"));
    assert!(executor.rollback(&mut context).is_empty());
}

#[test]
fn test_a_plan_that_went_through_can_still_be_undone() {
    let mut context = Vec::new();
    let mut executor = JournalingExecutor::default();

    assert_eq!(
        executor.run(&mut context, vec![succeeding("only")]),
        ExecutionResult::Success
    );
    assert!(executor.rollback(&mut context).is_empty());
    assert_eq!(context, vec!["run only", "undo only"]);
    assert_eq!(outcome_of(ExecutionResult::Success), Ok(()));
}

#[test]
fn test_a_plan_is_put_into_words() {
    let (plan, words) = resolve_plan::<_, _, ()>(Ok(vec![succeeding("a"), failing("b")]));

    assert_eq!(plan.map(|steps| steps.len()), Ok(2));
    assert_eq!(words, vec!["a it", "b it"]);
    let (refused, silence) = resolve_plan::<Vec<String>, Noting, _>(Err("no plan"));
    assert!(matches!(refused, Err("no plan")));
    assert!(silence.is_empty());
}
