//! The order of the file operations by which a store is opened and, where it
//! is stale, replaced.
//!
//! The library touches no file. It says which operation comes next; whoever
//! embeds it performs the operation and reports how it went. [`advance`]
//! takes the step that was performed and its outcome and gives the next
//! step, until the store is [`OpenStep::Ready`] or opening has
//! [`OpenStep::Failed`].

use crate::errors::AppError;
use crate::errors::ErrorView;
use vstd::prelude::*;
use vstd::string::StringExecFns;

verus! {

/// How often opening a store file is tried before giving up.
pub const MAX_OPEN_ATTEMPTS: u32 = 3;

/// The pause between two tries to open a store file, in milliseconds.
pub const RETRY_DELAY_MS: u64 = 500;

/// The pause after both store handles were released, in milliseconds.
pub const RELEASE_DELAY_MS: u64 = 100;

/// The directory that holds the store, inside the configuration directory.
pub const CONFIG_DIR_NAME: &'static str = "Balatro";

/// The file that holds the store.
pub const STORE_FILE_NAME: &'static str = "bmm_storage.db";

/// The file in which a migrated store is built before it is installed.
pub const TEMP_STORE_FILE_NAME: &'static str = "bmm_storage_new.db";

/// The name under which a stale store is kept after a migration.
pub const BACKUP_FILE_NAME: &'static str = "bmm_storage.db.bak";

/// The operation that is to be performed next.
#[derive(Debug, Clone, PartialEq, Eq)]
pub enum OpenStep {
    /// Create the directory that holds the store, if it is not there.
    CreateDirectory,
    /// Open the store file, creating and initializing it if it is not there,
    /// and see whether it is stale. `failures` tries have failed so far.
    OpenStore { failures: u32 },
    /// Wait [`RETRY_DELAY_MS`], then try to open the store again.
    Pause { failures: u32 },
    /// Open the stale store to read it. `failures` tries have failed so far.
    OpenOld { failures: u32 },
    /// Wait [`RETRY_DELAY_MS`], then try to open the stale store again.
    PauseOld { failures: u32 },
    /// Build the migrated store in the temporary file.
    WriteNew,
    /// Release both store handles and wait [`RELEASE_DELAY_MS`].
    Release,
    /// Rename the stale store file to its backup name.
    BackupOld,
    /// Delete the stale store file, which could not be renamed.
    RemoveOld,
    /// Rename the temporary file to the store file's name.
    InstallNew,
    /// Open the store file that was just installed.
    Reopen,
    /// The store is open and current.
    Ready,
    /// Opening the store has failed.
    Failed(AppError),
}

/// How an operation went.
#[derive(Debug, Clone, PartialEq, Eq)]
pub enum Outcome {
    /// It succeeded.
    Done,
    /// The store file was opened and is stale.
    Stale,
    /// It failed, with this message.
    Failed(String),
}

/// An [`OpenStep`] with each text as its characters.
pub enum StepView {
    CreateDirectory,
    OpenStore { failures: u32 },
    Pause { failures: u32 },
    OpenOld { failures: u32 },
    PauseOld { failures: u32 },
    WriteNew,
    Release,
    BackupOld,
    RemoveOld,
    InstallNew,
    Reopen,
    Ready,
    Failed(ErrorView),
}

/// An [`Outcome`] with its message as characters.
pub enum OutcomeView {
    Done,
    Stale,
    Failed(Seq<char>),
}

impl View for OpenStep {
    type V = StepView;

    open spec fn view(&self) -> StepView {
        match self {
            OpenStep::CreateDirectory => StepView::CreateDirectory,
            OpenStep::OpenStore { failures } => StepView::OpenStore { failures: *failures },
            OpenStep::Pause { failures } => StepView::Pause { failures: *failures },
            OpenStep::OpenOld { failures } => StepView::OpenOld { failures: *failures },
            OpenStep::PauseOld { failures } => StepView::PauseOld { failures: *failures },
            OpenStep::WriteNew => StepView::WriteNew,
            OpenStep::Release => StepView::Release,
            OpenStep::BackupOld => StepView::BackupOld,
            OpenStep::RemoveOld => StepView::RemoveOld,
            OpenStep::InstallNew => StepView::InstallNew,
            OpenStep::Reopen => StepView::Reopen,
            OpenStep::Ready => StepView::Ready,
            OpenStep::Failed(e) => StepView::Failed(e@),
        }
    }
}

impl View for Outcome {
    type V = OutcomeView;

    open spec fn view(&self) -> OutcomeView {
        match self {
            Outcome::Done => OutcomeView::Done,
            Outcome::Stale => OutcomeView::Stale,
            Outcome::Failed(message) => OutcomeView::Failed(message@),
        }
    }
}

/// The failure of the create-directory step.
pub open spec fn directory_failure(cause: Seq<char>) -> ErrorView {
    ErrorView::DirCreate { path: CONFIG_DIR_NAME@, source: cause }
}

/// The failure after the last try to open the store.
pub open spec fn open_failure(cause: Seq<char>) -> ErrorView {
    ErrorView::DatabaseInit("Failed to open database after 3 attempts: "@ + cause)
}

/// The failure after the last try to open the stale store.
pub open spec fn open_old_failure(cause: Seq<char>) -> ErrorView {
    ErrorView::DatabaseInit("Failed to open old database after 3 retries: "@ + cause)
}

/// The failure of building the migrated store.
pub open spec fn write_new_failure(cause: Seq<char>) -> ErrorView {
    ErrorView::DatabaseInit("Failed to create new database: "@ + cause)
}

/// The failure of installing the migrated store.
pub open spec fn install_failure(cause: Seq<char>) -> ErrorView {
    ErrorView::DatabaseInit("Failed to install new database: "@ + cause)
}

/// The failure of opening the installed store.
pub open spec fn reopen_failure(cause: Seq<char>) -> ErrorView {
    ErrorView::DatabaseInit(cause)
}

/// The step that opening begins with.
pub open spec fn first_step() -> StepView {
    StepView::CreateDirectory
}

/// The step that follows `step` once it went as `outcome` says.
pub open spec fn next_step(step: StepView, outcome: OutcomeView) -> StepView {
    match step {
        StepView::CreateDirectory => match outcome {
            OutcomeView::Failed(cause) => StepView::Failed(directory_failure(cause)),
            _ => StepView::OpenStore { failures: 0 },
        },
        StepView::OpenStore { failures } => match outcome {
            OutcomeView::Done => StepView::Ready,
            OutcomeView::Stale => StepView::OpenOld { failures: 0 },
            OutcomeView::Failed(cause) => if failures + 1 >= MAX_OPEN_ATTEMPTS {
                StepView::Failed(open_failure(cause))
            } else {
                StepView::Pause { failures: (failures + 1) as u32 }
            },
        },
        StepView::Pause { failures } => StepView::OpenStore { failures },
        StepView::OpenOld { failures } => match outcome {
            OutcomeView::Failed(cause) => if failures + 1 >= MAX_OPEN_ATTEMPTS {
                StepView::Failed(open_old_failure(cause))
            } else {
                StepView::PauseOld { failures: (failures + 1) as u32 }
            },
            _ => StepView::WriteNew,
        },
        StepView::PauseOld { failures } => StepView::OpenOld { failures },
        StepView::WriteNew => match outcome {
            OutcomeView::Failed(cause) => StepView::Failed(write_new_failure(cause)),
            _ => StepView::Release,
        },
        StepView::Release => StepView::BackupOld,
        StepView::BackupOld => match outcome {
            OutcomeView::Failed(_) => StepView::RemoveOld,
            _ => StepView::InstallNew,
        },
        StepView::RemoveOld => StepView::InstallNew,
        StepView::InstallNew => match outcome {
            OutcomeView::Failed(cause) => StepView::Failed(install_failure(cause)),
            _ => StepView::Reopen,
        },
        StepView::Reopen => match outcome {
            OutcomeView::Failed(cause) => StepView::Failed(reopen_failure(cause)),
            _ => StepView::Ready,
        },
        StepView::Ready => StepView::Ready,
        StepView::Failed(e) => StepView::Failed(e),
    }
}

/// Opening has come to its end.
pub open spec fn finished(step: StepView) -> bool {
    step is Ready || step is Failed
}

/// How long the caller waits in a step, in milliseconds.
pub open spec fn pause_of(step: StepView) -> nat {
    match step {
        StepView::Pause { .. } => RETRY_DELAY_MS as nat,
        StepView::PauseOld { .. } => RETRY_DELAY_MS as nat,
        StepView::Release => RELEASE_DELAY_MS as nat,
        _ => 0,
    }
}

/// A bound on the number of steps that can still follow `step`.
pub open spec fn steps_left(step: StepView) -> nat {
    match step {
        StepView::CreateDirectory => 30,
        StepView::Pause { failures } => if failures >= 2 {
            25
        } else {
            (29 - 2 * failures) as nat
        },
        StepView::OpenStore { failures } => if failures >= 2 {
            24
        } else {
            (28 - 2 * failures) as nat
        },
        StepView::PauseOld { failures } => if failures >= 2 {
            15
        } else {
            (19 - 2 * failures) as nat
        },
        StepView::OpenOld { failures } => if failures >= 2 {
            14
        } else {
            (18 - 2 * failures) as nat
        },
        StepView::WriteNew => 10,
        StepView::Release => 9,
        StepView::BackupOld => 8,
        StepView::RemoveOld => 7,
        StepView::InstallNew => 6,
        StepView::Reopen => 5,
        StepView::Ready => 0,
        StepView::Failed(_) => 0,
    }
}

/// A bound on the time, in milliseconds, that is still spent waiting from
/// `step` on.
pub open spec fn pause_left(step: StepView) -> nat {
    match step {
        StepView::CreateDirectory => 2100,
        StepView::OpenStore { failures } => if failures >= 2 {
            1100
        } else {
            (2100 - 500 * failures) as nat
        },
        StepView::Pause { failures } => if failures >= 2 {
            1600
        } else if failures == 1 {
            2100
        } else {
            2600
        },
        StepView::OpenOld { failures } => if failures >= 2 {
            100
        } else {
            (1100 - 500 * failures) as nat
        },
        StepView::PauseOld { failures } => if failures >= 2 {
            600
        } else if failures == 1 {
            1100
        } else {
            1600
        },
        StepView::WriteNew => 100,
        StepView::Release => 100,
        _ => 0,
    }
}

/// Every step but the last brings opening nearer to its end: no run of
/// steps is longer than `steps_left` of its first step.
pub proof fn lemma_opening_ends(step: StepView, outcome: OutcomeView)
    requires
        !finished(step),
    ensures
        steps_left(next_step(step, outcome)) < steps_left(step),
{
}

/// Waiting is bounded: what a step waits and what is waited after it do not
/// exceed the bound of the step, which is 2100 ms when opening begins.
pub proof fn lemma_waiting_is_bounded(step: StepView, outcome: OutcomeView)
    ensures
        pause_of(step) + pause_left(next_step(step, outcome)) <= pause_left(step),
        pause_left(first_step()) == 2100,
{
}

/// A store file is given up only after it failed to open
/// [`MAX_OPEN_ATTEMPTS`] times in a row, and is tried again before that.
pub proof fn lemma_retries(failures: u32, cause: Seq<char>)
    ensures
        failures + 1 < MAX_OPEN_ATTEMPTS ==> next_step(
            StepView::OpenStore { failures },
            OutcomeView::Failed(cause),
        ) == (StepView::Pause { failures: (failures + 1) as u32 }),
        failures + 1 >= MAX_OPEN_ATTEMPTS ==> next_step(
            StepView::OpenStore { failures },
            OutcomeView::Failed(cause),
        ) == StepView::Failed(open_failure(cause)),
        next_step(StepView::Pause { failures }, OutcomeView::Done) == (StepView::OpenStore {
            failures,
        }),
{
}

/// Nothing is done to the stale store file before the migrated store is
/// complete: the file is renamed only after the handles were released, they
/// are released only after the migrated store was built, the file is deleted
/// only after renaming it failed, and the new file is installed only after
/// one of the two.
pub proof fn lemma_old_store_is_kept(step: StepView, outcome: OutcomeView)
    ensures
        next_step(step, outcome) is Release ==> step is WriteNew && !(outcome is Failed),
        next_step(step, outcome) is BackupOld ==> step is Release,
        next_step(step, outcome) is RemoveOld ==> step is BackupOld && outcome is Failed,
        next_step(step, outcome) is InstallNew ==> step is BackupOld || step is RemoveOld,
        next_step(step, outcome) is Reopen ==> step is InstallNew && !(outcome is Failed),
{
}

/// Puts `cause` behind `prefix`.
fn message(prefix: &str, cause: &str) -> (text: String)
    ensures
        text@ == prefix@ + cause@,
{
    let mut text = String::from_str(prefix);
    text.append(cause);
    text
}

/// The step that opening begins with.
pub fn start() -> (step: OpenStep)
    ensures
        step@ == first_step(),
{
    OpenStep::CreateDirectory
}

/// Whether opening has come to its end.
pub fn is_finished(step: &OpenStep) -> (done: bool)
    ensures
        done == finished(step@),
{
    match step {
        OpenStep::Ready => true,
        OpenStep::Failed(_) => true,
        _ => false,
    }
}

/// How long the caller waits in a step, in milliseconds.
pub fn delay_ms(step: &OpenStep) -> (millis: u64)
    ensures
        millis == pause_of(step@),
{
    match step {
        OpenStep::Pause { .. } => RETRY_DELAY_MS,
        OpenStep::PauseOld { .. } => RETRY_DELAY_MS,
        OpenStep::Release => RELEASE_DELAY_MS,
        _ => 0,
    }
}

/// The step that follows `step` once it went as `outcome` says.
pub fn advance(step: OpenStep, outcome: Outcome) -> (next: OpenStep)
    ensures
        next@ == next_step(step@, outcome@),
{
    match step {
        OpenStep::CreateDirectory => match outcome {
            Outcome::Failed(cause) => OpenStep::Failed(
                AppError::DirCreate { path: String::from_str(CONFIG_DIR_NAME), source: cause },
            ),
            _ => OpenStep::OpenStore { failures: 0 },
        },
        OpenStep::OpenStore { failures } => match outcome {
            Outcome::Done => OpenStep::Ready,
            Outcome::Stale => OpenStep::OpenOld { failures: 0 },
            Outcome::Failed(cause) => if failures >= MAX_OPEN_ATTEMPTS - 1 {
                OpenStep::Failed(
                    AppError::DatabaseInit(
                        message("Failed to open database after 3 attempts: ", cause.as_str()),
                    ),
                )
            } else {
                OpenStep::Pause { failures: failures + 1 }
            },
        },
        OpenStep::Pause { failures } => OpenStep::OpenStore { failures },
        OpenStep::OpenOld { failures } => match outcome {
            Outcome::Failed(cause) => if failures >= MAX_OPEN_ATTEMPTS - 1 {
                OpenStep::Failed(
                    AppError::DatabaseInit(
                        message("Failed to open old database after 3 retries: ", cause.as_str()),
                    ),
                )
            } else {
                OpenStep::PauseOld { failures: failures + 1 }
            },
            _ => OpenStep::WriteNew,
        },
        OpenStep::PauseOld { failures } => OpenStep::OpenOld { failures },
        OpenStep::WriteNew => match outcome {
            Outcome::Failed(cause) => OpenStep::Failed(
                AppError::DatabaseInit(message("Failed to create new database: ", cause.as_str())),
            ),
            _ => OpenStep::Release,
        },
        OpenStep::Release => OpenStep::BackupOld,
        OpenStep::BackupOld => match outcome {
            Outcome::Failed(_) => OpenStep::RemoveOld,
            _ => OpenStep::InstallNew,
        },
        OpenStep::RemoveOld => OpenStep::InstallNew,
        OpenStep::InstallNew => match outcome {
            Outcome::Failed(cause) => OpenStep::Failed(
                AppError::DatabaseInit(message("Failed to install new database: ", cause.as_str())),
            ),
            _ => OpenStep::Reopen,
        },
        OpenStep::Reopen => match outcome {
            Outcome::Failed(cause) => OpenStep::Failed(AppError::DatabaseInit(cause)),
            _ => OpenStep::Ready,
        },
        OpenStep::Ready => OpenStep::Ready,
        OpenStep::Failed(e) => OpenStep::Failed(e),
    }
}

} // verus!
