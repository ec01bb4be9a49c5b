//! What Telegraf says about the configuration generated for it.

use vstd::prelude::*;
use vstd::string::*;
use crate::error::{Fault, MuninnError};
use crate::secret::{lemma_redacted_lacks, redacted, Redactor, MASK};
use crate::telegraf::version::Run;
use crate::text;

verus! {

/// What is kept of one line of output: nothing of progress chatter and empty
/// lines, else the line without trailing whitespace and known secrets.
pub open spec fn kept_line(line: Seq<char>, secrets: Seq<Seq<char>>) -> Option<Seq<char>> {
    let end = text::trimmed_end(line);
    if text::occurs(line, "I! Loading config"@) || end.len() == 0 {
        None
    } else {
        Some(redacted(secrets, end))
    }
}

/// What is kept of the first `n` lines.
pub open spec fn kept_lines(
    lines: Seq<Seq<char>>,
    secrets: Seq<Seq<char>>,
    n: int,
) -> Seq<Seq<char>>
    decreases n,
{
    if n <= 0 {
        Seq::empty()
    } else {
        match kept_line(lines[n - 1], secrets) {
            Some(l) => kept_lines(lines, secrets, n - 1).push(l),
            None => kept_lines(lines, secrets, n - 1),
        }
    }
}

/// The useful part of a program's output: its errors and then what it printed,
/// line by line.
pub open spec fn diagnosis(
    stderr: Seq<u8>,
    stdout: Seq<u8>,
    status: Seq<char>,
    secrets: Seq<Seq<char>>,
) -> Seq<char> {
    let lines = text::lines(text::utf8_lossy(stderr)) + text::lines(text::utf8_lossy(stdout));
    let shown = text::joined(kept_lines(lines, secrets, lines.len() as int), "\n"@);
    if shown.len() == 0 {
        "telegraf exited with "@ + status + " and said nothing"@
    } else {
        shown
    }
}

/// The useful part of Telegraf's output, with known secrets removed.
///
/// Redaction is per line, so that a value cannot be put together by the join and
/// then missed.
pub fn diagnostics(stderr: &Vec<u8>, stdout: &Vec<u8>, status: &str, redactor: &Redactor) -> (r:
    String)
    ensures
        r@ == diagnosis(stderr@, stdout@, status@, redactor@),
{
    let mut lines = text::split_lines(&text::lossy(stderr));
    text::note_all(&mut lines, text::split_lines(&text::lossy(stdout)));
    let ghost all = text::texts(lines@);
    let mut shown: Vec<String> = Vec::new();
    let mut i: usize = 0;
    proof {
        assert(text::texts(shown@) =~= Seq::<Seq<char>>::empty());
    }
    while i < lines.len()
        invariant
            i <= lines.len(),
            all == text::texts(lines@),
            text::texts(shown@) == kept_lines(all, redactor@, i as int),
        decreases lines.len() - i,
    {
        proof {
            assert(all[i as int] == lines@[i as int]@);
        }
        let end = text::trim_end(&lines[i]);
        if !text::contains(&lines[i], "I! Loading config") && !end.as_str().is_empty() {
            text::note(&mut shown, text::owned(redactor.apply(&end)));
        }
        i += 1;
    }
    let joined = text::join(&shown, "\n");
    if joined.as_str().is_empty() {
        text::cat3("telegraf exited with ", status, " and said nothing")
    } else {
        joined
    }
}

/// The lines of a text, each indented by two spaces.
pub open spec fn indented(s: Seq<char>) -> Seq<char> {
    text::joined(text::lines(s).map_values(|l: Seq<char>| "  "@ + l), "\n"@)
}

/// Indents every line by two spaces.
pub fn indent(s: &str) -> (r: String)
    ensures
        r@ == indented(s@),
{
    let lines = text::split_lines(s);
    let ghost all = text::lines(s@).map_values(|l: Seq<char>| "  "@ + l);
    let mut out: Vec<String> = Vec::new();
    let mut i: usize = 0;
    while i < lines.len()
        invariant
            i <= lines.len(),
            text::texts(lines@) == text::lines(s@),
            all == text::lines(s@).map_values(|l: Seq<char>| "  "@ + l),
            text::texts(out@) =~= all.subrange(0, i as int),
        decreases lines.len() - i,
    {
        proof {
            assert(text::texts(lines@)[i as int] == lines@[i as int]@);
            assert(all[i as int] == "  "@ + lines@[i as int]@);
        }
        text::note(&mut out, text::cat2("  ", &lines[i]));
        i += 1;
    }
    proof {
        assert(all.len() == lines@.len()) by {
            assert(text::texts(lines@).len() == lines@.len());
        }
        assert(all.subrange(0, i as int) =~= all);
    }
    text::join(&out, "\n")
}

/// The verdict of a `telegraf config check` run.
pub open spec fn check_fault(binary: Seq<char>, run: Run, secrets: Seq<Seq<char>>) -> Option<Fault> {
    match run {
        Run::Finished { success, status, stdout, stderr } => if success {
            None
        } else {
            Some(
                Fault::TelegrafConfig(
                    "`telegraf config check` rejected the generated configuration.\n"@ + indented(
                        diagnosis(stderr@, stdout@, status@, secrets),
                    )
                        + "\nThis is a muninn bug or a Telegraf version mismatch — the configuration is generated, not written by hand. Please report it, attaching the output of `muninn render-config` (which redacts secrets)."@,
                ),
            )
        },
        Run::NotFound(m) | Run::PermissionDenied(m) | Run::Failed(m) => Some(Fault::TelegrafStart("cannot run '"@ + binary + "': "@ + m@)),
    }
}

/// Judges what `telegraf config check` gave. A rejection is a bug or a version
/// mismatch, never operator error; a binary that cannot be run is not the
/// configuration's fault.
pub fn check_config(binary: &str, run: &Run, redactor: &Redactor) -> (r: Result<(), MuninnError>)
    ensures
        match r {
            Ok(_) => check_fault(binary@, *run, redactor@) is None,
            Err(e) => check_fault(binary@, *run, redactor@) == Some(e@),
        },
{
    match run {
        Run::Finished { success, status, stdout, stderr } => {
            if *success {
                return Ok(());
            }
            Err(
                MuninnError::TelegrafConfig(
                    text::cat3(
                        "`telegraf config check` rejected the generated configuration.\n",
                        &indent(&diagnostics(stderr, stdout, status, redactor)),
                        "\nThis is a muninn bug or a Telegraf version mismatch — the configuration is generated, not written by hand. Please report it, attaching the output of `muninn render-config` (which redacts secrets).",
                    ),
                ),
            )
        }
        Run::NotFound(m) | Run::PermissionDenied(m) | Run::Failed(m) => Err(
            MuninnError::TelegrafStart(text::cat4("cannot run '", binary, "': ", m)),
        ),
    }
}

proof fn lemma_kept_lines_lack(lines: Seq<Seq<char>>, secrets: Seq<Seq<char>>, n: int, v: Seq<char>)
    requires
        0 <= n <= lines.len(),
        secrets.contains(v),
        v.len() > 0,
        text::disjoint(v, MASK@),
    ensures
        forall|i: int|
            0 <= i < kept_lines(lines, secrets, n).len() ==> !text::occurs(
                #[trigger] kept_lines(lines, secrets, n)[i],
                v,
            ),
    decreases n,
{
    if n > 0 {
        lemma_kept_lines_lack(lines, secrets, n - 1, v);
        let rest = kept_lines(lines, secrets, n - 1);
        let all = kept_lines(lines, secrets, n);
        lemma_redacted_lacks(secrets, text::trimmed_end(lines[n - 1]), v);
        assert forall|i: int| 0 <= i < all.len() implies !text::occurs(#[trigger] all[i], v) by {
            if i < rest.len() {
                assert(all[i] == rest[i]);
            }
        }
    }
}

/// A secret the redactor knows, that shares no character with the mask and spans
/// no line end, does not occur in what is kept of Telegraf's output: not on a
/// line, and not put together from two.
pub proof fn law_no_secret_reaches_the_diagnosis(
    lines: Seq<Seq<char>>,
    secrets: Seq<Seq<char>>,
    v: Seq<char>,
)
    requires
        secrets.contains(v),
        v.len() > 0,
        text::disjoint(v, MASK@),
        !v.contains('\n'),
    ensures
        !text::occurs(
            text::joined(kept_lines(lines, secrets, lines.len() as int), "\n"@),
            v,
        ),
{
    lemma_kept_lines_lack(lines, secrets, lines.len() as int, v);
    reveal_strlit("\n");
    text::lemma_joined_lacks(kept_lines(lines, secrets, lines.len() as int), "\n"@, v);
}

} // verus!
