//! What is made of secrets, and how a failure ends the process.

use vstd::prelude::*;
use vstd::string::*;
use crate::error::{Fault, MuninnError};
use crate::laws::text::{law_replacing, lemma_trimmed};
use crate::secret::{
    file_fault, octal, permission_warning, redacted, size, FileRead, Redactor, Secret,
};
use crate::text;

verus! {

/// A secret is what its file holds, without the blanks around it.
pub proof fn law_a_secret_is_what_its_file_holds(
    a: Seq<char>,
    m: Seq<char>,
    b: Seq<char>,
    path: &str,
    read: &FileRead,
    r: Result<Secret, MuninnError>,
)
    requires
        call_ensures(Secret::from_file, (path, read), r),
    ensures
        read matches FileRead::Text(raw) ==> raw@ == a + m + b && m.len() > 0 && !text::whitespace(
            m[0],
        ) && !text::whitespace(m.last()) && (forall|i: int|
            0 <= i < a.len() ==> text::whitespace(#[trigger] a[i])) && (forall|i: int|
            0 <= i < b.len() ==> text::whitespace(#[trigger] b[i])) ==> (r matches Ok(s) && s@ == m),
        read matches FileRead::Text(raw) ==> (r is Err <==> text::is_blank(raw@)),
        !(read is Text) ==> r is Err,
        r matches Err(e) ==> (e@ matches Fault::Secret { path: p, message: _ } && p == path@),
{
    if let FileRead::Text(raw) = read {
        text::lemma_trimmed_empty_iff_blank(raw@);
        if raw@ == a + m + b && m.len() > 0 && !text::whitespace(m[0]) && !text::whitespace(
            m.last(),
        ) && (forall|i: int| 0 <= i < a.len() ==> text::whitespace(#[trigger] a[i])) && (forall|
            i: int,
        |
            0 <= i < b.len() ==> text::whitespace(#[trigger] b[i])) {
            lemma_trimmed(a, m, b);
        }
    }
}

/// A secret file is remarked on exactly if its group or anyone else may do anything with
/// it.
pub proof fn law_only_the_owner_may_touch_a_secret(
    path: &str,
    field: &str,
    mode: Option<u32>,
    r: Option<String>,
)
    requires
        call_ensures(permission_warning, (path, field, mode), r),
    ensures
        mode is None ==> r is None,
        mode matches Some(m) ==> (r is Some <==> m % 64 != 0),
        r matches Some(w) ==> (field@ + " '"@ + path@ + "' is mode "@).is_prefix_of(w@),
{
    if let Some(m) = mode {
        if m % 64 != 0 {
            let w = r->0;
            let start = field@ + " '"@ + path@ + "' is mode "@;
            assert(text::optional(r) == Some(w@));
            assert(w@.subrange(0, start.len() as int) =~= start);
        }
    }
}

/// A credential of fewer than eight bytes is refused, and no other that can be read.
pub proof fn law_a_short_credential_is_refused(path: Seq<char>, field: Seq<char>, raw: String)
    ensures
        file_fault(path, field, FileRead::Text(raw)) is None <==> size(text::trimmed(raw@)) >= 8,
        !text::is_blank(raw@) && size(text::trimmed(raw@)) >= 8 ==> file_fault(
            path,
            field,
            FileRead::Text(raw),
        ) is None,
{
    text::lemma_trimmed_empty_iff_blank(raw@);
    let t = text::trimmed(raw@);
    if t.len() == 0 {
        assert(t =~= Seq::<char>::empty());
        assert(size(t) == 0);
    }
}

/// A secret that occurs once in a line is replaced by the mask where it stands, and
/// the rest of the line stays.
pub proof fn law_a_secret_is_masked_where_it_stands(
    a: Seq<char>,
    v: Seq<char>,
    b: Seq<char>,
    redactor: &Redactor,
    line: &str,
    r: std::borrow::Cow<'_, str>,
)
    requires
        call_ensures(Redactor::apply, (redactor, line), r),
        redactor@ == seq![v],
        line@ == a + v + b,
        v.len() > 0,
        forall|at: int| 0 <= at < a.len() ==> !#[trigger] text::stands_at(line@, v, at),
        !text::occurs(b, v),
    ensures
        r@ == a + "***"@ + b,
{
    let none = Seq::<Seq<char>>::empty();
    assert(seq![v].drop_last() =~= none);
    assert(redacted(none, line@) == line@);
    law_replacing(a, v, b, "***"@);
    text::lemma_replaced_absent(b, v, "***"@);
}

/// The permission bits are shown in octal.
pub proof fn law_a_mode_is_shown_in_octal(mode: u32)
    ensures
        octal(mode).len() == 4,
        octal(mode)[0] == '0',
        text::digit_value(octal(mode)[1]) * 64 + text::digit_value(octal(mode)[2]) * 8
            + text::digit_value(octal(mode)[3]) == mode as int % 512,
{
    let m = mode as int % 512;
    assert(m == (m / 64) * 64 + (m / 8 % 8) * 8 + m % 8);
}

/// Every kind of failure ends the process with the code that is documented for it.
pub proof fn law_every_failure_has_its_documented_code(e: &MuninnError, code: u8)
    requires
        call_ensures(MuninnError::exit_code, (e,), code),
    ensures
        e is Config ==> code == 10,
        e is Secret ==> code == 11,
        e is Runtime ==> code == 12,
        e is TelegrafConfig ==> code == 20,
        e is TelegrafStart ==> code == 21,
        e is TelegrafExited ==> code == 22,
        e is Io || e is Internal ==> code == 30,
{
}

/// A message says what kind of failure it is and what went wrong.
pub proof fn law_a_message_says_what_went_wrong(e: &MuninnError, m: String)
    requires
        call_ensures(MuninnError::message, (e,), m),
    ensures
        e matches MuninnError::Config(s) ==> m@ == "configuration error: "@ + s@,
        e matches MuninnError::Secret { path, message } ==> m@ == "secret file '"@ + path@ + "': "@
            + message@,
        e matches MuninnError::Runtime(s) ==> m@ == "runtime requirement: "@ + s@,
        e matches MuninnError::TelegrafConfig(s) ==> m@
            == "generated Telegraf configuration was rejected: "@ + s@,
        e matches MuninnError::TelegrafStart(s) ==> m@ == "Telegraf did not start: "@ + s@,
        e matches MuninnError::TelegrafExited(s) ==> m@ == "Telegraf exited unexpectedly: "@ + s@,
        e matches MuninnError::Io(s) ==> m@ == "I/O error: "@ + s@,
        e matches MuninnError::Internal(s) ==> m@ == "internal error: "@ + s@,
{
}

} // verus!
