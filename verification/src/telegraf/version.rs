//! Which Telegraf binary to use, and whether it is the one expected.
//!
//! The generated configuration is written against a specific plugin surface, so
//! another version refuses to start: the failure would be a silently different
//! meaning rather than an error.

use vstd::prelude::*;
use vstd::string::*;
use crate::error::{Fault, MuninnError};
use crate::text;

verus! {

/// The Telegraf version the configuration is generated for.
pub const EXPECTED_VERSION: &'static str = "1.39.2";

/// Where the binary lives in the image.
pub const DEFAULT_BINARY: &'static str = "/usr/local/bin/telegraf";

/// What running a program gave.
#[derive(Debug)]
pub enum Run {
    /// It ran to its end.
    Finished { success: bool, status: String, stdout: Vec<u8>, stderr: Vec<u8> },
    /// There is no such binary, in the system's words.
    NotFound(String),
    /// It may not be run, in the system's words.
    PermissionDenied(String),
    /// It could not be run for any other reason, in the system's words.
    Failed(String),
}

/// The Telegraf binary: the override, unless there is none or it is empty.
pub fn resolve_binary_path(override_value: Option<String>) -> (r: String)
    ensures
        r@ == (match override_value {
            Some(v) => if v@.len() > 0 {
                v@
            } else {
                DEFAULT_BINARY@
            },
            None => DEFAULT_BINARY@,
        }),
{
    match override_value {
        Some(v) => {
            // Empty is usually an unset variable that a shell expanded.
            if v.as_str().is_empty() {
                DEFAULT_BINARY.to_owned()
            } else {
                v
            }
        }
        None => DEFAULT_BINARY.to_owned(),
    }
}

/// A letter or digit of ASCII.
pub open spec fn alphanumeric(c: char) -> bool {
    text::is_digit(c) || ('a' <= c && c <= 'z') || ('A' <= c && c <= 'Z')
}

/// Whether a word starts with a digit and holds nothing but letters, digits, dots
/// and hyphens.
pub open spec fn versionlike(w: Seq<char>) -> bool {
    &&& w.len() > 0
    &&& text::is_digit(w[0])
    &&& forall|i: int|
        0 <= i < w.len() ==> alphanumeric(#[trigger] w[i]) || w[i] == '.' || w[i] == '-'
}

fn is_versionlike(w: &str) -> (r: bool)
    ensures
        r == versionlike(w@),
{
    let c = text::chars_of(w);
    if c.len() == 0 || c[0] < '0' || c[0] > '9' {
        return false;
    }
    let mut i: usize = 0;
    while i < c.len()
        invariant
            c@ == w@,
            i <= c.len(),
            forall|j: int|
                0 <= j < i ==> alphanumeric(#[trigger] w@[j]) || w@[j] == '.' || w@[j] == '-',
        decreases c.len() - i,
    {
        let x = c[i];
        if !(('0' <= x && x <= '9') || ('a' <= x && x <= 'z') || ('A' <= x && x <= 'Z') || x == '.'
            || x == '-') {
            proof {
                assert(w@[i as int] == x);
            }
            return false;
        }
        i += 1;
    }
    true
}

/// The word behind the first `telegraf`, in any case, from position `i` on.
pub open spec fn word_behind_name(words: Seq<Seq<char>>, i: int) -> Option<Seq<char>>
    decreases words.len() - i,
{
    if i < 0 || i >= words.len() {
        None
    } else if text::lowered(words[i]) == "telegraf"@ {
        if i + 1 < words.len() {
            Some(words[i + 1])
        } else {
            None
        }
    } else {
        word_behind_name(words, i + 1)
    }
}

/// The version a `telegraf version` output reports.
pub open spec fn reported(output: Seq<char>) -> Option<Seq<char>> {
    match word_behind_name(text::words(output), 0) {
        Some(w) => if versionlike(w) {
            Some(w)
        } else {
            None
        },
        None => None,
    }
}

/// Extracts the version from `telegraf version` output, such as
/// `Telegraf 1.39.2 (git: HEAD@e8162a94)`. Only the number is taken; an output
/// that is not recognised gives nothing rather than a guess.
pub fn parse(output: &str) -> (r: Option<String>)
    ensures
        text::optional(r) == reported(output@),
{
    let words = text::split_words(output);
    let ghost all = text::texts(words@);
    let mut i: usize = 0;
    while i < words.len()
        invariant
            i <= words.len(),
            all == text::texts(words@),
            all == text::words(output@),
            word_behind_name(all, 0) == word_behind_name(all, i as int),
        decreases words.len() - i,
    {
        proof {
            assert(all[i as int] == words@[i as int]@);
        }
        if text::same(&text::to_lower(&words[i]), "telegraf") {
            if i + 1 < words.len() {
                proof {
                    assert(all[i + 1] == words@[i + 1]@);
                }
                if is_versionlike(&words[i + 1]) {
                    return Some(words[i + 1].clone());
                }
            }
            return None;
        }
        i += 1;
    }
    None
}

/// The message for a binary that could not be asked for its version.
pub open spec fn query_problem(binary: Seq<char>, run: Run) -> Seq<char> {
    match run {
        Run::NotFound(_) => "no Telegraf binary at '"@ + binary
            + "'. In muninn's image it is at /usr/local/bin/telegraf; outside it, set MUNINN_TELEGRAF_BIN"@,
        Run::PermissionDenied(_) => "'"@ + binary + "' is not executable"@,
        Run::Failed(m) => "cannot run '"@ + binary + "': "@ + m@,
        Run::Finished { success: _, status: _, stdout, stderr } => "'"@ + binary
            + "' did not report a recognisable version; it printed: "@ + text::at_most(
            text::trimmed(printed(stdout@, stderr@)),
            120,
        ),
    }
}

/// What a program printed: its standard output, or its errors where it printed
/// nothing else.
pub open spec fn printed(stdout: Seq<u8>, stderr: Seq<u8>) -> Seq<char> {
    if stdout.len() == 0 {
        text::utf8_lossy(stderr)
    } else {
        text::utf8_lossy(stdout)
    }
}

/// The version a run of the binary reports.
pub open spec fn queried(binary: Seq<char>, run: Run) -> Result<Seq<char>, Fault> {
    match run {
        Run::Finished { success: _, status: _, stdout, stderr } => match reported(
            printed(stdout@, stderr@),
        ) {
            Some(v) => Ok(v),
            None => Err(Fault::TelegrafStart(query_problem(binary, run))),
        },
        _ => Err(Fault::TelegrafStart(query_problem(binary, run))),
    }
}

/// The version the binary reports, given what running it gave.
pub fn query(binary: &str, run: &Run) -> (r: Result<String, MuninnError>)
    ensures
        match r {
            Ok(v) => queried(binary@, *run) == Ok::<Seq<char>, Fault>(v@),
            Err(e) => queried(binary@, *run) == Err::<Seq<char>, Fault>(e@),
        },
{
    match run {
        Run::NotFound(_) => Err(
            MuninnError::TelegrafStart(
                text::cat3(
                    "no Telegraf binary at '",
                    binary,
                    "'. In muninn's image it is at /usr/local/bin/telegraf; outside it, set MUNINN_TELEGRAF_BIN",
                ),
            ),
        ),
        Run::PermissionDenied(_) => Err(
            MuninnError::TelegrafStart(text::cat3("'", binary, "' is not executable")),
        ),
        Run::Failed(m) => Err(
            MuninnError::TelegrafStart(text::cat4("cannot run '", binary, "': ", m)),
        ),
        Run::Finished { stdout, stderr, .. } => {
            // A build that logs a warning first would otherwise look empty.
            let output = if stdout.len() == 0 {
                text::lossy(stderr)
            } else {
                text::lossy(stdout)
            };
            match parse(&output) {
                Some(v) => Ok(v),
                None => Err(
                    MuninnError::TelegrafStart(
                        text::cat4(
                            "'",
                            binary,
                            "' did not report a recognisable version; it printed: ",
                            &text::first_chars(&text::trim(&output), 120),
                        ),
                    ),
                ),
            }
        }
    }
}

/// The verdict on a binary.
pub open spec fn checked(binary: Seq<char>, run: Run) -> Result<Seq<char>, Fault> {
    match queried(binary, run) {
        Ok(found) => if found == EXPECTED_VERSION@ {
            Ok(found)
        } else {
            Err(
                Fault::TelegrafStart(
                    "Telegraf version mismatch: '"@ + binary + "' is "@ + found
                        + ", but this muninn generates configuration for 1.39.2. Plugin options move between releases, so the two are not interchangeable — use the muninn image, which ships the matching binary"@,
                ),
            )
        },
        Err(f) => Err(f),
    }
}

/// Confirms the binary is the version the configuration is generated for.
pub fn check(binary: &str, run: &Run) -> (r: Result<String, MuninnError>)
    ensures
        match r {
            Ok(v) => checked(binary@, *run) == Ok::<Seq<char>, Fault>(v@),
            Err(e) => checked(binary@, *run) == Err::<Seq<char>, Fault>(e@),
        },
{
    let found = match query(binary, run) {
        Ok(v) => v,
        Err(e) => return Err(e),
    };
    if text::same(&found, EXPECTED_VERSION) {
        return Ok(found);
    }
    Err(
        MuninnError::TelegrafStart(
            text::cat5(
                "Telegraf version mismatch: '",
                binary,
                "' is ",
                &found,
                ", but this muninn generates configuration for 1.39.2. Plugin options move between releases, so the two are not interchangeable — use the muninn image, which ships the matching binary",
            ),
        ),
    )
}

/// A binary passes only with the expected version.
pub proof fn law_only_the_expected_version_passes(binary: Seq<char>, run: Run)
    ensures
        checked(binary, run) matches Ok(v) ==> v == EXPECTED_VERSION@,
        checked(binary, run) matches Err(f) ==> f is TelegrafStart,
{
}

} // verus!
