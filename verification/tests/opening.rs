use bmm_lib::errors::AppError;
use bmm_lib::opening::advance;
use bmm_lib::opening::delay_ms;
use bmm_lib::opening::is_finished;
use bmm_lib::opening::start;
use bmm_lib::opening::OpenStep;
use bmm_lib::opening::Outcome;

fn run(outcomes: Vec<Outcome>) -> (Vec<OpenStep>, u64) {
    let mut step = start();
    let mut seen = vec![step.clone()];
    let mut waited = 0;
    for outcome in outcomes {
        waited += delay_ms(&step);
        step = advance(step, outcome);
        seen.push(step.clone());
    }
    (seen, waited)
}

fn failed(message: &str) -> Outcome {
    Outcome::Failed(message.to_string())
}

#[test]
fn current_store_opens_in_two_steps() {
    let (seen, waited) = run(vec![Outcome::Done, Outcome::Done]);
    assert_eq!(
        seen,
        vec![
            OpenStep::CreateDirectory,
            OpenStep::OpenStore { failures: 0 },
            OpenStep::Ready
        ]
    );
    assert_eq!(waited, 0);
    assert!(is_finished(&seen[2]));
    assert!(!is_finished(&seen[1]));
}

#[test]
fn directory_failure_ends_opening() {
    let (seen, _) = run(vec![failed("denied")]);
    assert_eq!(
        seen[1],
        OpenStep::Failed(AppError::DirCreate {
            path: "Balatro".to_string(),
            source: "denied".to_string()
        })
    );
}

#[test]
fn open_is_tried_three_times() {
    let (seen, waited) = run(vec![
        Outcome::Done,
        failed("locked"),
        Outcome::Done,
        failed("locked"),
        Outcome::Done,
        failed("still locked"),
    ]);
    assert_eq!(
        seen,
        vec![
            OpenStep::CreateDirectory,
            OpenStep::OpenStore { failures: 0 },
            OpenStep::Pause { failures: 1 },
            OpenStep::OpenStore { failures: 1 },
            OpenStep::Pause { failures: 2 },
            OpenStep::OpenStore { failures: 2 },
            OpenStep::Failed(AppError::DatabaseInit(
                "Failed to open database after 3 attempts: still locked".to_string()
            )),
        ]
    );
    assert_eq!(waited, 1000);
}

#[test]
fn open_succeeds_after_a_retry() {
    let (seen, waited) = run(vec![Outcome::Done, failed("locked"), Outcome::Done, Outcome::Done]);
    assert_eq!(seen.last(), Some(&OpenStep::Ready));
    assert_eq!(waited, 500);
}

#[test]
fn stale_store_is_replaced() {
    let (seen, waited) = run(vec![
        Outcome::Done,
        Outcome::Stale,
        Outcome::Done,
        Outcome::Done,
        Outcome::Done,
        Outcome::Done,
        Outcome::Done,
        Outcome::Done,
    ]);
    assert_eq!(
        seen,
        vec![
            OpenStep::CreateDirectory,
            OpenStep::OpenStore { failures: 0 },
            OpenStep::OpenOld { failures: 0 },
            OpenStep::WriteNew,
            OpenStep::Release,
            OpenStep::BackupOld,
            OpenStep::InstallNew,
            OpenStep::Reopen,
            OpenStep::Ready,
        ]
    );
    assert_eq!(waited, 100);
}

#[test]
fn failed_backup_falls_back_to_removal() {
    let (seen, _) = run(vec![
        Outcome::Done,
        Outcome::Stale,
        Outcome::Done,
        Outcome::Done,
        Outcome::Done,
        failed("busy"),
        failed("busy"),
        Outcome::Done,
        Outcome::Done,
    ]);
    assert_eq!(seen[6], OpenStep::RemoveOld);
    assert_eq!(seen[7], OpenStep::InstallNew);
    assert_eq!(seen[9], OpenStep::Ready);
}

#[test]
fn failed_install_ends_the_migration() {
    let (seen, _) = run(vec![
        Outcome::Done,
        Outcome::Stale,
        Outcome::Done,
        Outcome::Done,
        Outcome::Done,
        Outcome::Done,
        failed("in use"),
    ]);
    assert_eq!(
        seen[7],
        OpenStep::Failed(AppError::DatabaseInit(
            "Failed to install new database: in use".to_string()
        ))
    );
    assert!(is_finished(&seen[7]));
}

#[test]
fn failed_copy_leaves_the_old_store() {
    let (seen, _) = run(vec![Outcome::Done, Outcome::Stale, Outcome::Done, failed("disk full")]);
    assert_eq!(
        seen[4],
        OpenStep::Failed(AppError::DatabaseInit(
            "Failed to create new database: disk full".to_string()
        ))
    );
}

#[test]
fn old_store_is_tried_three_times() {
    let (seen, waited) = run(vec![
        Outcome::Done,
        Outcome::Stale,
        failed("locked"),
        Outcome::Done,
        failed("locked"),
        Outcome::Done,
        failed("locked"),
    ]);
    assert_eq!(
        seen[7],
        OpenStep::Failed(AppError::DatabaseInit(
            "Failed to open old database after 3 retries: locked".to_string()
        ))
    );
    assert_eq!(waited, 1000);
}

#[test]
fn finished_steps_stay() {
    assert_eq!(advance(OpenStep::Ready, Outcome::Stale), OpenStep::Ready);
    let failure = OpenStep::Failed(AppError::DatabaseInit("x".to_string()));
    assert_eq!(advance(failure.clone(), Outcome::Done), failure);
}

#[test]
fn failed_reopen_is_reported() {
    assert_eq!(
        advance(OpenStep::Reopen, failed("gone")),
        OpenStep::Failed(AppError::DatabaseInit("gone".to_string()))
    );
}
