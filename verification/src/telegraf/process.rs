//! Telegraf as a child process: how it ended, what is passed on of its output,
//! and how it is stopped.
//!
//! There is no restart loop. A Telegraf that exits on its own ends muninn too,
//! so that a crashing child never hides inside a seemingly healthy container.

use vstd::prelude::*;
use vstd::string::*;
use crate::error::{Fault, MuninnError};
use crate::secret::{redacted, Redactor};
use crate::telegraf::version::Run;
use crate::text;

verus! {

/// How a Telegraf process ended.
#[derive(Debug, Clone, Copy, PartialEq, Eq, Structural)]
pub enum Exit {
    /// Exited with a status code.
    Code(i32),
    /// Killed by a signal.
    Signal(i32),
    /// Ended in a way the platform did not describe.
    Unknown,
}

impl Exit {
    /// How a process ended, from its status code and the signal that killed it.
    pub fn from_status(code: Option<i32>, signal: Option<i32>) -> (r: Self)
        ensures
            r == (match (signal, code) {
                (Some(s), _) => Exit::Signal(s),
                (None, Some(c)) => Exit::Code(c),
                (None, None) => Exit::Unknown,
            }),
    {
        match signal {
            Some(s) => Exit::Signal(s),
            None => match code {
                Some(c) => Exit::Code(c),
                None => Exit::Unknown,
            },
        }
    }

    /// Whether this is the clean exit expected after a stop signal: success, or
    /// death by one of the stop signals, which some builds re-raise.
    pub fn is_clean_shutdown(&self) -> (r: bool)
        ensures
            r == (*self == Exit::Code(0) || *self == Exit::Signal(15) || *self == Exit::Signal(2)),
    {
        match self {
            Exit::Code(c) => *c == 0,
            // 15 is SIGTERM, 2 is SIGINT.
            Exit::Signal(s) => *s == 15 || *s == 2,
            Exit::Unknown => false,
        }
    }

    pub open spec fn described(self) -> Seq<char> {
        match self {
            Exit::Code(c) => "exit code "@ + text::signed(c as int),
            Exit::Signal(s) => "signal "@ + text::signed(s as int),
            Exit::Unknown => "an unknown status"@,
        }
    }

    pub fn describe(&self) -> (r: String)
        ensures
            r@ == self.described(),
    {
        match self {
            Exit::Code(c) => text::cat2("exit code ", &text::signed_of(*c as i64)),
            Exit::Signal(s) => text::cat2("signal ", &text::signed_of(*s as i64)),
            Exit::Unknown => "an unknown status".to_owned(),
        }
    }
}

/// The arguments Telegraf is started with.
pub fn arguments(config_path: &str) -> (r: Vec<String>)
    ensures
        text::texts(r@) == seq!["--config"@, config_path@],
{
    let mut args: Vec<String> = Vec::new();
    proof {
        assert(text::texts(args@) =~= Seq::<Seq<char>>::empty());
    }
    text::note(&mut args, "--config".to_owned());
    text::note(&mut args, config_path.to_owned());
    args
}

/// Why a child could not be started.
pub open spec fn spawn_fault(binary: Seq<char>, run: Run) -> Option<Fault> {
    match run {
        Run::NotFound(_) => Some(Fault::TelegrafStart("no Telegraf binary at '"@ + binary + "'"@)),
        Run::PermissionDenied(_) => Some(
            Fault::TelegrafStart("'"@ + binary + "' is not executable"@),
        ),
        Run::Failed(m) => Some(Fault::TelegrafStart("cannot start '"@ + binary + "': "@ + m@)),
        Run::Finished { success: _, status: _, stdout: _, stderr: _ } => Some(
            Fault::TelegrafStart("Telegraf exited before muninn could read its PID"@),
        ),
    }
}

/// The error for a child that could not be started, or was gone before its
/// process id could be read.
pub fn spawn_error(binary: &str, run: &Run) -> (r: MuninnError)
    ensures
        spawn_fault(binary@, *run) == Some(r@),
{
    match run {
        Run::NotFound(_) => MuninnError::TelegrafStart(
            text::cat3("no Telegraf binary at '", binary, "'"),
        ),
        Run::PermissionDenied(_) => MuninnError::TelegrafStart(
            text::cat3("'", binary, "' is not executable"),
        ),
        Run::Failed(m) => MuninnError::TelegrafStart(
            text::cat4("cannot start '", binary, "': ", m),
        ),
        Run::Finished { .. } => MuninnError::TelegrafStart(
            "Telegraf exited before muninn could read its PID".to_owned(),
        ),
    }
}

// ---------------------------------------------------------------------------
// Output
// ---------------------------------------------------------------------------

/// How loudly a line is passed on.
#[derive(Debug, Clone, Copy, PartialEq, Eq, Structural)]
pub enum Loudness {
    Error,
    Warn,
    Info,
}

/// A line of child output as it is passed on.
#[derive(Debug)]
pub struct Forwarded {
    pub loudness: Loudness,
    pub line: String,
}

/// How loud a line is, by the level Telegraf prefixes.
pub open spec fn loudness(line: Seq<char>) -> Loudness {
    if text::occurs(line, "E!"@) {
        Loudness::Error
    } else if text::occurs(line, "W!"@) {
        Loudness::Warn
    } else {
        Loudness::Info
    }
}

/// What is passed on of one line of child output: nothing of a blank line, else
/// the line with known secrets removed, at the level Telegraf gave it.
pub fn forward(line: &str, redactor: &Redactor) -> (r: Option<Forwarded>)
    ensures
        match r {
            Some(f) => {
                &&& !text::is_blank(line@)
                &&& f.line@ == redacted(redactor@, line@)
                &&& f.loudness == loudness(f.line@)
            },
            None => text::is_blank(line@),
        },
{
    if text::blank(line) {
        return None;
    }
    let line = text::owned(redactor.apply(line));
    let loudness = if text::contains(&line, "E!") {
        Loudness::Error
    } else if text::contains(&line, "W!") {
        Loudness::Warn
    } else {
        Loudness::Info
    };
    Some(Forwarded { loudness, line })
}

// ---------------------------------------------------------------------------
// Stopping
// ---------------------------------------------------------------------------

/// What waiting for the child gave.
#[derive(Debug)]
pub enum Waited {
    Exited(Exit),
    /// The wait itself failed, for the reason the system words.
    Failed(String),
    /// The grace period is over.
    TimedOut,
}

/// How far a shutdown has come.
#[derive(Debug, Clone, Copy, PartialEq, Eq, Structural)]
pub enum Stage {
    /// The child was asked to stop and has its grace period.
    Asked,
    /// The child was killed and only has to be reaped.
    Killed,
}

/// What to do next.
#[derive(Debug)]
pub enum Step {
    /// The child is gone.
    Done(Exit),
    /// Kill the child and wait for it without a limit.
    Kill,
    /// Wait once more, without a limit.
    Wait,
    Fail(MuninnError),
}

/// The next step of a shutdown.
///
/// The child is asked first, so that it can flush; when its grace period is over
/// it is killed. The shutdown never ends with the child still there: it ends with
/// an exit, or with the failure of a wait.
pub fn shutdown(stage: Stage, waited: Waited) -> (r: Step)
    ensures
        match (stage, waited) {
            (_, Waited::Exited(exit)) => r == Step::Done(exit),
            (Stage::Asked, Waited::Failed(m)) => r matches Step::Fail(e) && e@ == Fault::Internal(
                "cannot wait for Telegraf: "@ + m@,
            ),
            (Stage::Killed, Waited::Failed(m)) => r matches Step::Fail(e) && e@
                == Fault::Internal("cannot reap Telegraf after killing it: "@ + m@),
            (Stage::Asked, Waited::TimedOut) => r is Kill,
            (Stage::Killed, Waited::TimedOut) => r is Wait,
        },
{
    match waited {
        Waited::Exited(exit) => Step::Done(exit),
        Waited::Failed(m) => match stage {
            Stage::Asked => Step::Fail(
                MuninnError::Internal(text::cat2("cannot wait for Telegraf: ", &m)),
            ),
            Stage::Killed => Step::Fail(
                MuninnError::Internal(
                    text::cat2("cannot reap Telegraf after killing it: ", &m),
                ),
            ),
        },
        Waited::TimedOut => match stage {
            Stage::Asked => Step::Kill,
            Stage::Killed => Step::Wait,
        },
    }
}

} // verus!
