//! The error type, and its mapping onto the process exit codes.

use vstd::prelude::*;
use crate::exit;
use crate::text;

verus! {

/// Everything that can go wrong, structured so that the exit code follows from
/// the error and no call site picks one.
#[derive(Debug)]
pub enum MuninnError {
    /// The configuration is unreadable, malformed, or breaks a rule. The message
    /// names the offending YAML key.
    Config(String),
    /// A secret file is missing, unreadable or empty. Carries the path, never
    /// the contents.
    Secret { path: String, message: String },
    /// A runtime precondition for an enabled module is absent.
    Runtime(String),
    /// The generated Telegraf configuration was rejected.
    TelegrafConfig(String),
    /// Telegraf could not be started, or reports an unexpected version.
    TelegrafStart(String),
    /// Telegraf exited on its own while being supervised.
    TelegrafExited(String),
    /// An I/O failure with no more specific meaning, as the system words it.
    Io(String),
    /// An invariant broke.
    Internal(String),
}

/// What an error says, as mathematical text.
pub enum Fault {
    Config(Seq<char>),
    Secret { path: Seq<char>, message: Seq<char> },
    Runtime(Seq<char>),
    TelegrafConfig(Seq<char>),
    TelegrafStart(Seq<char>),
    TelegrafExited(Seq<char>),
    Io(Seq<char>),
    Internal(Seq<char>),
}

impl View for MuninnError {
    type V = Fault;

    open spec fn view(&self) -> Fault {
        match self {
            MuninnError::Config(m) => Fault::Config(m@),
            MuninnError::Secret { path, message } => Fault::Secret {
                path: path@,
                message: message@,
            },
            MuninnError::Runtime(m) => Fault::Runtime(m@),
            MuninnError::TelegrafConfig(m) => Fault::TelegrafConfig(m@),
            MuninnError::TelegrafStart(m) => Fault::TelegrafStart(m@),
            MuninnError::TelegrafExited(m) => Fault::TelegrafExited(m@),
            MuninnError::Io(m) => Fault::Io(m@),
            MuninnError::Internal(m) => Fault::Internal(m@),
        }
    }
}

impl Fault {
    /// The exit code of each class of error.
    pub open spec fn code(self) -> u8 {
        match self {
            Fault::Config(_) => exit::CONFIG,
            Fault::Secret { path: _, message: _ } => exit::SECRET,
            Fault::Runtime(_) => exit::RUNTIME,
            Fault::TelegrafConfig(_) => exit::TELEGRAF_CONFIG,
            Fault::TelegrafStart(_) => exit::TELEGRAF_START,
            Fault::TelegrafExited(_) => exit::TELEGRAF_EXITED,
            Fault::Io(_) => exit::INTERNAL,
            Fault::Internal(_) => exit::INTERNAL,
        }
    }

    /// The message shown to the operator.
    pub open spec fn message(self) -> Seq<char> {
        match self {
            Fault::Config(m) => "configuration error: "@ + m,
            Fault::Secret { path, message } => "secret file '"@ + path + "': "@ + message,
            Fault::Runtime(m) => "runtime requirement: "@ + m,
            Fault::TelegrafConfig(m) => "generated Telegraf configuration was rejected: "@ + m,
            Fault::TelegrafStart(m) => "Telegraf did not start: "@ + m,
            Fault::TelegrafExited(m) => "Telegraf exited unexpectedly: "@ + m,
            Fault::Io(m) => "I/O error: "@ + m,
            Fault::Internal(m) => "internal error: "@ + m,
        }
    }
}

impl MuninnError {
    /// The process exit code this error produces.
    pub fn exit_code(&self) -> (r: u8)
        ensures
            r == self@.code(),
    {
        match self {
            MuninnError::Config(_) => exit::CONFIG,
            MuninnError::Secret { .. } => exit::SECRET,
            MuninnError::Runtime(_) => exit::RUNTIME,
            MuninnError::TelegrafConfig(_) => exit::TELEGRAF_CONFIG,
            MuninnError::TelegrafStart(_) => exit::TELEGRAF_START,
            MuninnError::TelegrafExited(_) => exit::TELEGRAF_EXITED,
            MuninnError::Io(_) | MuninnError::Internal(_) => exit::INTERNAL,
        }
    }

    /// The message shown to the operator.
    pub fn message(&self) -> (r: String)
        ensures
            r@ == self@.message(),
    {
        match self {
            MuninnError::Config(m) => text::cat2("configuration error: ", m),
            MuninnError::Secret { path, message } => {
                text::cat4("secret file '", path, "': ", message)
            }
            MuninnError::Runtime(m) => text::cat2("runtime requirement: ", m),
            MuninnError::TelegrafConfig(m) => {
                text::cat2("generated Telegraf configuration was rejected: ", m)
            }
            MuninnError::TelegrafStart(m) => text::cat2("Telegraf did not start: ", m),
            MuninnError::TelegrafExited(m) => text::cat2("Telegraf exited unexpectedly: ", m),
            MuninnError::Io(m) => text::cat2("I/O error: ", m),
            MuninnError::Internal(m) => text::cat2("internal error: ", m),
        }
    }

    /// Shorthand for a configuration error.
    pub fn config(message: &str) -> (r: Self)
        ensures
            r@ == Fault::Config(message@),
    {
        MuninnError::Config(message.to_owned())
    }

    /// Shorthand for a runtime-requirement error.
    pub fn runtime(message: &str) -> (r: Self)
        ensures
            r@ == Fault::Runtime(message@),
    {
        MuninnError::Runtime(message.to_owned())
    }

    /// Shorthand for an internal error.
    pub fn internal(message: &str) -> (r: Self)
        ensures
            r@ == Fault::Internal(message@),
    {
        MuninnError::Internal(message.to_owned())
    }
}

/// No error exits with the code for success, nor with the one left free.
pub proof fn law_no_error_exits_successfully(fault: Fault)
    ensures
        fault.code() != exit::OK,
        fault.code() != 1,
        exit::all_codes().contains(fault.code()),
{
    let all = exit::all_codes();
    assert(all[2] == exit::CONFIG && all[3] == exit::SECRET && all[4] == exit::RUNTIME);
    assert(all[5] == exit::TELEGRAF_CONFIG && all[6] == exit::TELEGRAF_START);
    assert(all[7] == exit::TELEGRAF_EXITED && all[8] == exit::INTERNAL);
}

/// Two errors of different classes differ in their code, except that an
/// unclassified I/O failure counts as internal.
pub proof fn law_classes_have_their_own_code(a: Fault, b: Fault)
    requires
        a.code() == b.code(),
    ensures
        (a is Config) == (b is Config),
        (a is Secret) == (b is Secret),
        (a is Runtime) == (b is Runtime),
        (a is TelegrafConfig) == (b is TelegrafConfig),
        (a is TelegrafStart) == (b is TelegrafStart),
        (a is TelegrafExited) == (b is TelegrafExited),
{
}

} // verus!
