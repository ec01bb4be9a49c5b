//! Text as sequences of characters: the string operations the library uses,
//! each with an exact meaning over `Seq<char>`.

use std::borrow::Cow;
use vstd::prelude::*;
use vstd::string::*;

verus! {

/// Whether a character is whitespace: Unicode's `White_Space` property.
pub open spec fn whitespace(c: char) -> bool {
    let n = c as u32;
    ||| 0x9 <= n <= 0xd
    ||| n == 0x20
    ||| n == 0x85
    ||| n == 0xa0
    ||| n == 0x1680
    ||| 0x2000 <= n <= 0x200a
    ||| n == 0x2028
    ||| n == 0x2029
    ||| n == 0x202f
    ||| n == 0x205f
    ||| n == 0x3000
}

/// `char::is_whitespace` decides Unicode's `White_Space` property of one
/// character: the characters that `PropList.txt` lists under that name.
#[verifier::external_body]
pub(crate) fn is_whitespace(c: char) -> (r: bool)
    ensures
        r == whitespace(c),
{
    c.is_whitespace()
}

/// `String::push` appends the given character to the end of the string.
pub assume_specification[ std::string::String::push ](s: &mut std::string::String, c: char)
    ensures
        final(s)@ == old(s)@.push(c),
;

/// A text of its own.
pub fn owned(s: Cow<'_, str>) -> (r: String)
    ensures
        r@ == s@,
{
    match s {
        Cow::Borrowed(t) => t.to_owned(),
        Cow::Owned(t) => t,
    }
}

/// The contents of a list of strings.
pub open spec fn texts(list: Seq<String>) -> Seq<Seq<char>> {
    list.map_values(|s: String| s@)
}

/// The contents of a list of string slices.
pub open spec fn slices(list: Seq<&'static str>) -> Seq<Seq<char>> {
    list.map_values(|s: &'static str| s@)
}

/// `list` with `item` appended when `present` holds.
pub open spec fn also(list: Seq<Seq<char>>, present: bool, item: Seq<char>) -> Seq<Seq<char>> {
    if present {
        list.push(item)
    } else {
        list
    }
}

/// Appends one message to a list of messages.
pub fn note(list: &mut Vec<String>, message: String)
    ensures
        texts(final(list)@) == texts(old(list)@).push(message@),
{
    list.push(message);
    proof {
        assert(texts(list@) =~= texts(old(list)@).push(message@));
    }
}

/// Appends all of `more` to a list of messages.
pub fn note_all(list: &mut Vec<String>, more: Vec<String>)
    ensures
        texts(final(list)@) == texts(old(list)@) + texts(more@),
{
    let mut i: usize = 0;
    proof {
        assert(texts(list@) =~= texts(old(list)@) + texts(more@).subrange(0, 0));
    }
    while i < more.len()
        invariant
            i <= more.len(),
            texts(list@) == texts(old(list)@) + texts(more@).subrange(0, i as int),
        decreases more.len() - i,
    {
        note(list, more[i].clone());
        proof {
            assert(texts(list@) =~= texts(old(list)@) + texts(more@).subrange(0, i + 1));
        }
        i += 1;
    }
    proof {
        assert(texts(more@).subrange(0, i as int) =~= texts(more@));
    }
}

/// Appends one fixed name to a list of names.
pub fn note_name(list: &mut Vec<&'static str>, name: &'static str)
    ensures
        slices(final(list)@) == slices(old(list)@).push(name@),
{
    list.push(name);
    proof {
        assert(slices(list@) =~= slices(old(list)@).push(name@));
    }
}

/// A copy of a list of strings, contents and order kept.
pub fn copy_strings(list: &Vec<String>) -> (r: Vec<String>)
    ensures
        r@ == list@,
{
    let mut out: Vec<String> = Vec::new();
    let mut i: usize = 0;
    while i < list.len()
        invariant
            i <= list.len(),
            out@ == list@.subrange(0, i as int),
        decreases list.len() - i,
    {
        out.push(list[i].clone());
        proof {
            assert(out@ =~= list@.subrange(0, i + 1));
        }
        i += 1;
    }
    proof {
        assert(out@ =~= list@);
    }
    out
}

/// A copy of an optional string.
pub fn copy_optional(value: &Option<String>) -> (r: Option<String>)
    ensures
        r == *value,
{
    match value {
        Some(s) => Some(s.clone()),
        None => None,
    }
}

/// The text of an optional string.
pub open spec fn optional(value: Option<String>) -> Option<Seq<char>> {
    match value {
        Some(s) => Some(s@),
        None => None,
    }
}

// ---------------------------------------------------------------------------
// Joining
// ---------------------------------------------------------------------------

pub fn cat2(a: &str, b: &str) -> (r: String)
    ensures
        r@ == a@ + b@,
{
    let mut out = a.to_owned();
    out.append(b);
    out
}

pub fn cat3(a: &str, b: &str, c: &str) -> (r: String)
    ensures
        r@ == a@ + b@ + c@,
{
    let mut out = cat2(a, b);
    out.append(c);
    out
}

pub fn cat4(a: &str, b: &str, c: &str, d: &str) -> (r: String)
    ensures
        r@ == a@ + b@ + c@ + d@,
{
    let mut out = cat3(a, b, c);
    out.append(d);
    out
}

pub fn cat5(a: &str, b: &str, c: &str, d: &str, e: &str) -> (r: String)
    ensures
        r@ == a@ + b@ + c@ + d@ + e@,
{
    let mut out = cat4(a, b, c, d);
    out.append(e);
    out
}

pub fn cat6(a: &str, b: &str, c: &str, d: &str, e: &str, f: &str) -> (r: String)
    ensures
        r@ == a@ + b@ + c@ + d@ + e@ + f@,
{
    let mut out = cat5(a, b, c, d, e);
    out.append(f);
    out
}

pub fn cat7(a: &str, b: &str, c: &str, d: &str, e: &str, f: &str, g: &str) -> (r: String)
    ensures
        r@ == a@ + b@ + c@ + d@ + e@ + f@ + g@,
{
    let mut out = cat6(a, b, c, d, e, f);
    out.append(g);
    out
}

/// `parts` joined with `separator` between neighbours.
pub open spec fn joined(parts: Seq<Seq<char>>, separator: Seq<char>) -> Seq<char>
    decreases parts.len(),
{
    if parts.len() == 0 {
        Seq::empty()
    } else if parts.len() == 1 {
        parts[0]
    } else {
        joined(parts.drop_last(), separator) + separator + parts.last()
    }
}

pub fn join(parts: &Vec<String>, separator: &str) -> (r: String)
    ensures
        r@ == joined(texts(parts@), separator@),
{
    let mut out = String::new();
    let mut i: usize = 0;
    while i < parts.len()
        invariant
            i <= parts.len(),
            out@ == joined(texts(parts@).subrange(0, i as int), separator@),
        decreases parts.len() - i,
    {
        let ghost done = texts(parts@).subrange(0, i as int);
        let ghost next = texts(parts@).subrange(0, i + 1);
        proof {
            assert(next.drop_last() =~= done);
            assert(next.last() == parts@[i as int]@);
        }
        if i > 0 {
            out.append(separator);
            out.append(parts[i].as_str());
        } else {
            out.append(parts[i].as_str());
            proof {
                assert(out@ =~= parts@[0]@);
            }
        }
        i += 1;
    }
    proof {
        assert(texts(parts@).subrange(0, i as int) =~= texts(parts@));
    }
    out
}

// ---------------------------------------------------------------------------
// Characters
// ---------------------------------------------------------------------------

/// The characters of `s`, in order.
pub fn chars_of(s: &str) -> (r: Vec<char>)
    ensures
        r@ == s@,
{
    let mut out: Vec<char> = Vec::new();
    for c in it: s.chars()
        invariant
            it.seq() == s@,
            out@ == s@.subrange(0, it.index() as int),
    {
        out.push(c);
        proof {
            assert(out@ =~= s@.subrange(0, it.index() + 1));
        }
    }
    proof {
        assert(out@ =~= s@);
    }
    out
}

/// The string made of the characters `from..to` of `chars`.
pub fn string_between(chars: &Vec<char>, from: usize, to: usize) -> (r: String)
    requires
        from <= to <= chars.len(),
    ensures
        r@ == chars@.subrange(from as int, to as int),
{
    let mut out = String::new();
    let mut i: usize = from;
    while i < to
        invariant
            from <= i <= to <= chars.len(),
            out@ == chars@.subrange(from as int, i as int),
        decreases to - i,
    {
        out.push(chars[i]);
        proof {
            assert(out@ =~= chars@.subrange(from as int, i + 1));
        }
        i += 1;
    }
    out
}

/// Whether two strings hold the same characters.
pub fn same(a: &str, b: &str) -> (r: bool)
    ensures
        r == (a@ == b@),
{
    a.to_owned() == b.to_owned()
}

/// Whether `needle` stands in `hay` from position `at`.
pub open spec fn stands_at(hay: Seq<char>, needle: Seq<char>, at: int) -> bool {
    0 <= at && at + needle.len() <= hay.len() && hay.subrange(at, at + needle.len()) == needle
}

/// Whether `needle` occurs anywhere in `hay`.
pub open spec fn occurs(hay: Seq<char>, needle: Seq<char>) -> bool {
    exists|at: int| stands_at(hay, needle, at)
}

pub fn matches_at(hay: &Vec<char>, needle: &Vec<char>, at: usize) -> (r: bool)
    requires
        at <= hay.len(),
    ensures
        r == stands_at(hay@, needle@, at as int),
{
    if needle.len() > hay.len() - at {
        return false;
    }
    let mut i: usize = 0;
    while i < needle.len()
        invariant
            at + needle.len() <= hay.len(),
            i <= needle.len(),
            forall|j: int| 0 <= j < i ==> hay@[at + j] == needle@[j],
        decreases needle.len() - i,
    {
        if hay[at + i] != needle[i] {
            proof {
                assert(hay@.subrange(at as int, at + needle.len())[i as int] != needle@[i as int]);
            }
            return false;
        }
        i += 1;
    }
    proof {
        assert(hay@.subrange(at as int, at + needle.len()) =~= needle@);
    }
    true
}

pub fn contains(hay: &str, needle: &str) -> (r: bool)
    ensures
        r == occurs(hay@, needle@),
{
    let h = chars_of(hay);
    let n = chars_of(needle);
    let mut i: usize = 0;
    while i < h.len()
        invariant
            h@ == hay@,
            n@ == needle@,
            i <= h.len(),
            forall|j: int| 0 <= j < i ==> !stands_at(hay@, needle@, j),
        decreases h.len() - i,
    {
        if matches_at(&h, &n, i) {
            return true;
        }
        i += 1;
    }
    matches_at(&h, &n, i)
}

pub fn starts_with(s: &str, prefix: &str) -> (r: bool)
    ensures
        r == prefix@.is_prefix_of(s@),
{
    let c = chars_of(s);
    let p = chars_of(prefix);
    let r = matches_at(&c, &p, 0);
    proof {
        if prefix@.len() <= s@.len() {
            assert(s@.subrange(0, prefix@.len() as int) =~= s@.subrange(0, prefix@.len() as int));
        }
    }
    r
}

/// What is left of `s` behind `prefix`, where `s` starts with it.
pub fn strip_prefix(s: &str, prefix: &str) -> (r: Option<String>)
    ensures
        match r {
            Some(rest) => s@ == prefix@ + rest@,
            None => !prefix@.is_prefix_of(s@),
        },
{
    if !starts_with(s, prefix) {
        return None;
    }
    let c = chars_of(s);
    let p = chars_of(prefix);
    let rest = string_between(&c, p.len(), c.len());
    proof {
        assert(s@ =~= prefix@ + rest@);
    }
    Some(rest)
}

// ---------------------------------------------------------------------------
// Whitespace
// ---------------------------------------------------------------------------

/// Whether every character is whitespace.
pub open spec fn is_blank(s: Seq<char>) -> bool {
    forall|i: int| 0 <= i < s.len() ==> whitespace(#[trigger] s[i])
}

/// `s` without the whitespace it starts with.
pub open spec fn trimmed_start(s: Seq<char>) -> Seq<char>
    decreases s.len(),
{
    if s.len() > 0 && whitespace(s[0]) {
        trimmed_start(s.drop_first())
    } else {
        s
    }
}

/// `s` without the whitespace it ends with.
pub open spec fn trimmed_end(s: Seq<char>) -> Seq<char>
    decreases s.len(),
{
    if s.len() > 0 && whitespace(s.last()) {
        trimmed_end(s.drop_last())
    } else {
        s
    }
}

/// `s` without the whitespace around it.
pub open spec fn trimmed(s: Seq<char>) -> Seq<char> {
    trimmed_end(trimmed_start(s))
}

pub fn trim(s: &str) -> (r: String)
    ensures
        r@ == trimmed(s@),
{
    let c = chars_of(s);
    let mut from: usize = 0;
    proof {
        assert(s@.subrange(0, s@.len() as int) =~= s@);
    }
    while from < c.len() && is_whitespace(c[from])
        invariant
            c@ == s@,
            from <= c.len(),
            trimmed_start(s@) == trimmed_start(s@.subrange(from as int, s@.len() as int)),
        decreases c.len() - from,
    {
        proof {
            assert(s@.subrange(from as int, s@.len() as int).drop_first() =~= s@.subrange(
                from + 1,
                s@.len() as int,
            ));
        }
        from += 1;
    }
    let ghost rest = s@.subrange(from as int, s@.len() as int);
    proof {
        assert(trimmed_start(s@) == rest);
    }
    let mut to: usize = c.len();
    while to > from && is_whitespace(c[to - 1])
        invariant
            c@ == s@,
            from <= to <= c.len(),
            rest == s@.subrange(from as int, s@.len() as int),
            trimmed_end(rest) == trimmed_end(s@.subrange(from as int, to as int)),
        decreases to,
    {
        proof {
            assert(s@.subrange(from as int, to as int).drop_last() =~= s@.subrange(
                from as int,
                to - 1,
            ));
        }
        to -= 1;
    }
    string_between(&c, from, to)
}

/// Trimming leaves nothing exactly when there is nothing but whitespace.
pub proof fn lemma_trimmed_empty_iff_blank(s: Seq<char>)
    ensures
        trimmed(s).len() == 0 <==> is_blank(s),
    decreases s.len(),
{
    if s.len() > 0 {
        if whitespace(s[0]) {
            lemma_trimmed_empty_iff_blank(s.drop_first());
            if is_blank(s.drop_first()) {
                assert forall|i: int| 0 <= i < s.len() implies whitespace(#[trigger] s[i]) by {
                    if i > 0 {
                        assert(s.drop_first()[i - 1] == s[i]);
                    }
                }
            } else {
                if is_blank(s) {
                    assert forall|i: int| 0 <= i < s.drop_first().len() implies whitespace(
                        #[trigger] s.drop_first()[i],
                    ) by {
                        assert(s[i + 1] == s.drop_first()[i]);
                    }
                }
            }
        } else {
            lemma_trimmed_end_keeps_first(s);
        }
    }
}

proof fn lemma_trimmed_end_keeps_first(s: Seq<char>)
    requires
        s.len() > 0,
        !whitespace(s[0]),
    ensures
        trimmed_end(s).len() > 0,
    decreases s.len(),
{
    if whitespace(s.last()) {
        assert(s.len() > 1);
        assert(s.drop_last()[0] == s[0]);
        lemma_trimmed_end_keeps_first(s.drop_last());
    }
}

/// Whether `s` holds nothing but whitespace.
pub fn blank(s: &str) -> (r: bool)
    ensures
        r == is_blank(s@),
{
    let c = chars_of(s);
    let mut i: usize = 0;
    while i < c.len()
        invariant
            c@ == s@,
            i <= c.len(),
            forall|j: int| 0 <= j < i ==> whitespace(#[trigger] s@[j]),
        decreases c.len() - i,
    {
        if !is_whitespace(c[i]) {
            proof {
                assert(!whitespace(s@[i as int]));
            }
            return false;
        }
        i += 1;
    }
    true
}

/// `s` without the characters `c` it starts with.
pub open spec fn without_leading(s: Seq<char>, c: char) -> Seq<char>
    decreases s.len(),
{
    if s.len() > 0 && s[0] == c {
        without_leading(s.drop_first(), c)
    } else {
        s
    }
}

pub fn trim_leading(s: &str, c: char) -> (r: String)
    ensures
        r@ == without_leading(s@, c),
{
    let v = chars_of(s);
    let mut from: usize = 0;
    proof {
        assert(s@.subrange(0, s@.len() as int) =~= s@);
    }
    while from < v.len() && v[from] == c
        invariant
            v@ == s@,
            from <= v.len(),
            without_leading(s@, c) == without_leading(
                s@.subrange(from as int, s@.len() as int),
                c,
            ),
        decreases v.len() - from,
    {
        proof {
            assert(s@.subrange(from as int, s@.len() as int).drop_first() =~= s@.subrange(
                from + 1,
                s@.len() as int,
            ));
        }
        from += 1;
    }
    string_between(&v, from, v.len())
}

/// What is left does not start with the character that was cut off.
pub proof fn lemma_without_leading(s: Seq<char>, c: char)
    ensures
        without_leading(s, c).len() > 0 ==> without_leading(s, c)[0] != c,
    decreases s.len(),
{
    if s.len() > 0 && s[0] == c {
        lemma_without_leading(s.drop_first(), c);
    }
}

/// `s` without the characters `c` it ends with.
pub open spec fn without_trailing(s: Seq<char>, c: char) -> Seq<char>
    decreases s.len(),
{
    if s.len() > 0 && s.last() == c {
        without_trailing(s.drop_last(), c)
    } else {
        s
    }
}

pub fn trim_trailing(s: &str, c: char) -> (r: String)
    ensures
        r@ == without_trailing(s@, c),
{
    let v = chars_of(s);
    let mut to: usize = v.len();
    proof {
        assert(s@.subrange(0, s@.len() as int) =~= s@);
    }
    while to > 0 && v[to - 1] == c
        invariant
            v@ == s@,
            to <= v.len(),
            without_trailing(s@, c) == without_trailing(s@.subrange(0, to as int), c),
        decreases to,
    {
        proof {
            assert(s@.subrange(0, to as int).drop_last() =~= s@.subrange(0, to - 1));
        }
        to -= 1;
    }
    string_between(&v, 0, to)
}

// ---------------------------------------------------------------------------
// Words and lines
// ---------------------------------------------------------------------------

/// How many characters stand before the first whitespace.
pub open spec fn word_length(s: Seq<char>) -> nat
    decreases s.len(),
{
    if s.len() == 0 || whitespace(s[0]) {
        0
    } else {
        1 + word_length(s.skip(1))
    }
}

/// The runs of characters between whitespace.
pub open spec fn words(s: Seq<char>) -> Seq<Seq<char>>
    decreases s.len(),
    via words_decreases
{
    if s.len() == 0 {
        Seq::empty()
    } else if whitespace(s[0]) {
        words(s.skip(1))
    } else {
        seq![s.take(word_length(s) as int)] + words(s.skip(word_length(s) as int))
    }
}

#[via_fn]
proof fn words_decreases(s: Seq<char>) {
    lemma_word_length(s);
}

proof fn lemma_word_length(s: Seq<char>)
    ensures
        word_length(s) <= s.len(),
    decreases s.len(),
{
    if s.len() > 0 && !whitespace(s[0]) {
        lemma_word_length(s.skip(1));
    }
}

pub fn split_words(s: &str) -> (r: Vec<String>)
    ensures
        texts(r@) == words(s@),
{
    let c = chars_of(s);
    let mut out: Vec<String> = Vec::new();
    let mut i: usize = 0;
    proof {
        assert(s@.skip(0) =~= s@);
        assert(texts(out@) + words(s@) =~= words(s@));
    }
    while i < c.len()
        invariant
            c@ == s@,
            i <= c.len(),
            texts(out@) + words(s@.skip(i as int)) == words(s@),
        decreases c.len() - i,
    {
        let ghost rest = s@.skip(i as int);
        if is_whitespace(c[i]) {
            proof {
                assert(rest.skip(1) =~= s@.skip(i + 1));
            }
            i += 1;
        } else {
            let mut end: usize = i;
            proof {
                assert(s@.skip(i as int) =~= rest);
            }
            while end < c.len() && !is_whitespace(c[end])
                invariant
                    c@ == s@,
                    i <= end <= c.len(),
                    rest == s@.skip(i as int),
                    word_length(rest) == (end - i) + word_length(s@.skip(end as int)),
                decreases c.len() - end,
            {
                proof {
                    assert(s@.skip(end as int).skip(1) =~= s@.skip(end + 1));
                }
                end += 1;
            }
            let ghost before = texts(out@);
            let word = string_between(&c, i, end);
            proof {
                let k = (end - i) as int;
                assert(word_length(rest) == k);
                assert(word@ =~= rest.take(k));
                assert(rest.skip(k) =~= s@.skip(end as int));
            }
            let ghost found = word@;
            note(&mut out, word);
            proof {
                let tail = words(s@.skip(end as int));
                assert(before.push(found) + tail =~= before + (seq![found] + tail));
                lemma_word_length(rest);
                assert(end > i);
            }
            i = end;
        }
    }
    proof {
        assert(s@.skip(i as int).len() == 0);
        assert(texts(out@) + words(s@.skip(i as int)) =~= texts(out@));
    }
    out
}

/// How many characters stand before the first `c`.
pub open spec fn before_char(s: Seq<char>, c: char) -> nat
    decreases s.len(),
{
    if s.len() == 0 || s[0] == c {
        0
    } else {
        1 + before_char(s.skip(1), c)
    }
}

pub proof fn lemma_before_char(s: Seq<char>, c: char)
    ensures
        before_char(s, c) <= s.len(),
        before_char(s, c) < s.len() ==> s[before_char(s, c) as int] == c,
        forall|i: int| 0 <= i < before_char(s, c) ==> #[trigger] s[i] != c,
    decreases s.len(),
{
    if s.len() > 0 && s[0] != c {
        lemma_before_char(s.skip(1), c);
        assert forall|i: int| 0 <= i < before_char(s, c) implies #[trigger] s[i] != c by {
            if i > 0 {
                assert(s.skip(1)[i - 1] == s[i]);
            }
        }
    }
}

/// A position of `c` in `chars` at or behind `from`, the first there is, or the
/// end.
pub fn position_of(chars: &Vec<char>, c: char, from: usize) -> (r: usize)
    requires
        from <= chars.len(),
    ensures
        from <= r <= chars.len(),
        r - from == before_char(chars@.skip(from as int), c),
        r < chars.len() ==> chars@[r as int] == c,
        forall|i: int| from <= i < r ==> #[trigger] chars@[i] != c,
{
    let ghost rest = chars@.skip(from as int);
    let mut i: usize = from;
    while i < chars.len() && chars[i] != c
        invariant
            from <= i <= chars.len(),
            rest == chars@.skip(from as int),
            before_char(rest, c) == (i - from) + before_char(chars@.skip(i as int), c),
            forall|j: int| from <= j < i ==> #[trigger] chars@[j] != c,
        decreases chars.len() - i,
    {
        proof {
            assert(chars@.skip(i as int).skip(1) =~= chars@.skip(i + 1));
        }
        i += 1;
    }
    i
}

/// A line without the carriage return it may end with.
pub open spec fn without_return(line: Seq<char>) -> Seq<char> {
    if line.len() > 0 && line.last() == '\r' {
        line.drop_last()
    } else {
        line
    }
}

/// The lines of a text, without their line ends. What stands behind the last
/// line end is a line of its own unless it is empty.
pub open spec fn lines(s: Seq<char>) -> Seq<Seq<char>>
    decreases s.len(),
    via lines_decreases
{
    if s.len() == 0 {
        Seq::empty()
    } else {
        let k = before_char(s, '\n') as int;
        if k >= s.len() {
            seq![s]
        } else {
            seq![without_return(s.take(k))] + lines(s.skip(k + 1))
        }
    }
}

#[via_fn]
proof fn lines_decreases(s: Seq<char>) {
    lemma_before_char(s, '\n');
}

pub fn split_lines(s: &str) -> (r: Vec<String>)
    ensures
        texts(r@) == lines(s@),
{
    let c = chars_of(s);
    let mut out: Vec<String> = Vec::new();
    let mut i: usize = 0;
    proof {
        assert(s@.skip(0) =~= s@);
        assert(texts(out@) + lines(s@) =~= lines(s@));
    }
    while i < c.len()
        invariant
            c@ == s@,
            i <= c.len(),
            texts(out@) + lines(s@.skip(i as int)) == lines(s@),
        decreases c.len() - i,
    {
        let ghost rest = s@.skip(i as int);
        let ghost before = texts(out@);
        let end: usize = position_of(&c, '\n', i);
        if end >= c.len() {
            let line = string_between(&c, i, end);
            let ghost found = line@;
            proof {
                assert(found =~= rest);
            }
            note(&mut out, line);
            proof {
                assert(s@.skip(end as int).len() == 0);
                assert(lines(rest) == seq![found]);
                assert(before.push(found) + lines(s@.skip(end as int)) =~= before + seq![found]);
            }
            i = end;
        } else {
            let stop: usize = if end > i && c[end - 1] == '\r' {
                end - 1
            } else {
                end
            };
            let line = string_between(&c, i, stop);
            let ghost found = line@;
            proof {
                let k = (end - i) as int;
                assert(rest.take(k) =~= s@.subrange(i as int, end as int));
                assert(found =~= without_return(rest.take(k)));
                assert(rest.skip(k + 1) =~= s@.skip(end + 1));
            }
            note(&mut out, line);
            proof {
                let tail = lines(s@.skip(end + 1));
                assert(before.push(found) + tail =~= before + (seq![found] + tail));
            }
            i = end + 1;
        }
    }
    proof {
        assert(s@.skip(i as int).len() == 0);
        assert(texts(out@) + lines(s@.skip(i as int)) =~= texts(out@));
    }
    out
}

pub fn trim_end(s: &str) -> (r: String)
    ensures
        r@ == trimmed_end(s@),
{
    let c = chars_of(s);
    let mut to: usize = c.len();
    proof {
        assert(s@.subrange(0, s@.len() as int) =~= s@);
    }
    while to > 0 && is_whitespace(c[to - 1])
        invariant
            c@ == s@,
            to <= c.len(),
            trimmed_end(s@) == trimmed_end(s@.subrange(0, to as int)),
        decreases to,
    {
        proof {
            assert(s@.subrange(0, to as int).drop_last() =~= s@.subrange(0, to - 1));
        }
        to -= 1;
    }
    string_between(&c, 0, to)
}

/// At most the first `n` characters.
pub open spec fn at_most(s: Seq<char>, n: nat) -> Seq<char> {
    if s.len() <= n {
        s
    } else {
        s.take(n as int)
    }
}

pub fn first_chars(s: &str, n: usize) -> (r: String)
    ensures
        r@ == at_most(s@, n as nat),
{
    let c = chars_of(s);
    if c.len() <= n {
        s.to_owned()
    } else {
        string_between(&c, 0, n)
    }
}

/// Whether `a` comes before `b` in dictionary order of code points.
pub open spec fn sorts_before(a: Seq<char>, b: Seq<char>) -> bool
    decreases a.len(),
{
    if b.len() == 0 {
        false
    } else if a.len() == 0 {
        true
    } else if a[0] != b[0] {
        a[0] < b[0]
    } else {
        sorts_before(a.skip(1), b.skip(1))
    }
}

pub fn is_before(a: &str, b: &str) -> (r: bool)
    ensures
        r == sorts_before(a@, b@),
{
    let x = chars_of(a);
    let y = chars_of(b);
    let mut i: usize = 0;
    proof {
        assert(a@.skip(0) =~= a@);
        assert(b@.skip(0) =~= b@);
    }
    while i < x.len() && i < y.len()
        invariant
            x@ == a@,
            y@ == b@,
            i <= x.len(),
            i <= y.len(),
            sorts_before(a@, b@) == sorts_before(a@.skip(i as int), b@.skip(i as int)),
        decreases x.len() - i,
    {
        if x[i] != y[i] {
            return x[i] < y[i];
        }
        proof {
            assert(a@.skip(i as int).skip(1) =~= a@.skip(i + 1));
            assert(b@.skip(i as int).skip(1) =~= b@.skip(i + 1));
        }
        i += 1;
    }
    i < y.len()
}

/// Dictionary order is total, and as good as transitive.
pub proof fn lemma_text_order(a: Seq<char>, b: Seq<char>, c: Seq<char>)
    ensures
        !sorts_before(b, a) && !sorts_before(c, b) ==> !sorts_before(c, a),
        !(sorts_before(a, b) && sorts_before(b, a)),
        !sorts_before(a, b) && !sorts_before(b, a) ==> a == b,
    decreases a.len() + b.len() + c.len(),
{
    if a.len() > 0 && b.len() > 0 && c.len() > 0 {
        lemma_text_order(a.skip(1), b.skip(1), c.skip(1));
    }
    if a.len() > 0 && b.len() > 0 {
        lemma_text_order(a.skip(1), b.skip(1), Seq::empty());
        if a[0] == b[0] && a.skip(1) == b.skip(1) {
            assert(a =~= b) by {
                assert forall|i: int| 0 <= i < a.len() && 0 <= i < b.len() implies a[i] == b[i] by {
                    if i > 0 {
                        assert(a.skip(1)[i - 1] == b.skip(1)[i - 1]);
                    }
                }
                assert(a.skip(1).len() == b.skip(1).len());
            }
        }
    }
    if a.len() == 0 && b.len() == 0 {
        assert(a =~= b);
    }
}

/// Of two different texts one comes before the other.
pub proof fn lemma_sorts_before(a: Seq<char>, b: Seq<char>)
    ensures
        a != b ==> (sorts_before(a, b) || sorts_before(b, a)),
        !sorts_before(a, a),
{
    lemma_text_order(a, b, a);
    lemma_text_order(a, a, a);
}

pub proof fn lemma_sorts_before_transitive(a: Seq<char>, b: Seq<char>, c: Seq<char>)
    requires
        sorts_before(a, b),
        sorts_before(b, c),
    ensures
        sorts_before(a, c),
    decreases a.len(),
{
    if a.len() > 0 && b.len() > 0 && c.len() > 0 && a[0] == b[0] && b[0] == c[0] {
        lemma_sorts_before_transitive(a.skip(1), b.skip(1), c.skip(1));
    }
}

/// What the `Debug` format of a string shows.
pub uninterp spec fn debug_quoted(s: Seq<char>) -> Seq<char>;

/// The `Debug` format of `str` shows a text in quotes, with what needs it
/// escaped. What it shows depends on the text alone.
#[verifier::external_body]
pub(crate) fn quote_debug(s: &str) -> (r: String)
    ensures
        r@ == debug_quoted(s@),
{
    format!("{:?}", s)
}

/// What `String::from_utf8_lossy` makes of bytes.
pub uninterp spec fn utf8_lossy(bytes: Seq<u8>) -> Seq<char>;

/// `String::from_utf8_lossy` reads bytes as UTF-8, with a replacement character
/// for what is not. The text depends on the bytes alone.
#[verifier::external_body]
pub(crate) fn lossy(bytes: &[u8]) -> (r: String)
    ensures
        r@ == utf8_lossy(bytes@),
{
    String::from_utf8_lossy(bytes).into_owned()
}

// ---------------------------------------------------------------------------
// ASCII letters
// ---------------------------------------------------------------------------

/// One ASCII capital as its small letter, any other character as it is.
pub open spec fn small(c: char) -> char {
    if 'A' <= c && c <= 'Z' {
        ((c as u8) + 32) as u8 as char
    } else {
        c
    }
}

/// `s` with every ASCII capital made small.
pub open spec fn lowered(s: Seq<char>) -> Seq<char> {
    s.map_values(|c: char| small(c))
}

pub fn lower_char(c: char) -> (r: char)
    ensures
        r == small(c),
{
    if 'A' <= c && c <= 'Z' {
        ((c as u8) + 32) as char
    } else {
        c
    }
}

pub fn to_lower(s: &str) -> (r: String)
    ensures
        r@ == lowered(s@),
{
    let c = chars_of(s);
    let mut out = String::new();
    let mut i: usize = 0;
    while i < c.len()
        invariant
            c@ == s@,
            i <= c.len(),
            out@ == lowered(s@).subrange(0, i as int),
        decreases c.len() - i,
    {
        out.push(lower_char(c[i]));
        proof {
            assert(out@ =~= lowered(s@).subrange(0, i + 1));
        }
        i += 1;
    }
    proof {
        assert(out@ =~= lowered(s@));
    }
    out
}

// ---------------------------------------------------------------------------
// Decimal numbers
// ---------------------------------------------------------------------------

/// The digit that stands for `d`.
pub open spec fn digit(d: int) -> char {
    (48 + d) as u8 as char
}

/// `n` in decimal, without leading zeros.
pub open spec fn decimal(n: nat) -> Seq<char>
    decreases n,
{
    if n < 10 {
        seq![digit(n as int)]
    } else {
        decimal(n / 10).push(digit((n % 10) as int))
    }
}

pub fn decimal_of(n: u128) -> (r: String)
    ensures
        r@ == decimal(n as nat),
    decreases n,
{
    if n < 10 {
        let mut out = String::new();
        out.push((48 + n as u8) as char);
        proof {
            assert(out@ =~= decimal(n as nat));
        }
        out
    } else {
        let mut out = decimal_of(n / 10);
        out.push((48 + (n % 10) as u8) as char);
        out
    }
}

/// Every character of a decimal number is a digit, and there is at least one.
pub proof fn lemma_decimal_digits(n: nat)
    ensures
        decimal(n).len() > 0,
        forall|i: int| 0 <= i < decimal(n).len() ==> '0' <= #[trigger] decimal(n)[i] <= '9',
    decreases n,
{
    if n >= 10 {
        lemma_decimal_digits(n / 10);
    }
}

/// `n` in decimal, behind a minus sign where it is negative.
pub open spec fn signed(n: int) -> Seq<char> {
    if n < 0 {
        "-"@ + decimal((0 - n) as nat)
    } else {
        decimal(n as nat)
    }
}

pub fn signed_of(n: i64) -> (r: String)
    ensures
        r@ == signed(n as int),
{
    if n < 0 {
        cat2("-", &decimal_of((0 - (n as i128)) as u128))
    } else {
        decimal_of(n as u128)
    }
}

/// The number a digit stands for.
pub open spec fn digit_value(c: char) -> nat {
    (c as u8 - 48) as nat
}

pub open spec fn is_digit(c: char) -> bool {
    '0' <= c && c <= '9'
}

/// The number that digits spell in base ten.
pub open spec fn spelled(s: Seq<char>) -> nat
    decreases s.len(),
{
    if s.len() == 0 {
        0
    } else {
        spelled(s.drop_last()) * 10 + digit_value(s.last())
    }
}

/// The number a non-empty run of digits spells, if it stays within `most`.
pub open spec fn numeral(s: Seq<char>, most: nat) -> Option<nat> {
    if s.len() > 0 && (forall|i: int| 0 <= i < s.len() ==> is_digit(#[trigger] s[i])) && spelled(s)
        <= most {
        Some(spelled(s))
    } else {
        None
    }
}

proof fn lemma_spelled_grows(s: Seq<char>, k: int)
    requires
        0 <= k <= s.len(),
    ensures
        spelled(s.subrange(0, k)) <= spelled(s),
    decreases s.len() - k,
{
    if k < s.len() {
        lemma_spelled_grows(s, k + 1);
        assert(s.subrange(0, k + 1).drop_last() =~= s.subrange(0, k));
    } else {
        assert(s.subrange(0, k) =~= s);
    }
}

/// The number `s` spells in decimal, if it is nothing but digits and stays
/// within `most`.
pub fn parse_number(s: &str, most: u64) -> (r: Option<u64>)
    ensures
        match r {
            Some(n) => numeral(s@, most as nat) == Some(n as nat),
            None => numeral(s@, most as nat) is None,
        },
{
    let c = chars_of(s);
    if c.len() == 0 {
        return None;
    }
    let mut total: u64 = 0;
    let mut i: usize = 0;
    while i < c.len()
        invariant
            c@ == s@,
            i <= c.len(),
            total <= most,
            total == spelled(s@.subrange(0, i as int)),
            forall|j: int| 0 <= j < i ==> is_digit(#[trigger] s@[j]),
        decreases c.len() - i,
    {
        let ghost next = s@.subrange(0, i + 1);
        proof {
            assert(next.drop_last() =~= s@.subrange(0, i as int));
            assert(next.last() == s@[i as int]);
            lemma_spelled_grows(s@, i + 1);
        }
        if c[i] < '0' || c[i] > '9' {
            proof {
                assert(!is_digit(s@[i as int]));
            }
            return None;
        }
        let d: u64 = (c[i] as u8 - 48) as u64;
        if d > most || total > most / 10 || total * 10 > most - d {
            return None;
        }
        total = total * 10 + d;
        i += 1;
    }
    proof {
        assert(s@.subrange(0, i as int) =~= s@);
    }
    Some(total)
}

/// The number a text spells, with an optional plus sign before the digits.
pub open spec fn unsigned(s: Seq<char>, most: nat) -> Option<nat> {
    if s.len() > 0 && s[0] == '+' {
        numeral(s.skip(1), most)
    } else {
        numeral(s, most)
    }
}

pub fn parse_unsigned(s: &str, most: u64) -> (r: Option<u64>)
    ensures
        match r {
            Some(n) => unsigned(s@, most as nat) == Some(n as nat),
            None => unsigned(s@, most as nat) is None,
        },
{
    let c = chars_of(s);
    if c.len() > 0 && c[0] == '+' {
        let rest = string_between(&c, 1, c.len());
        proof {
            assert(rest@ =~= s@.skip(1));
        }
        parse_number(&rest, most)
    } else {
        parse_number(s, most)
    }
}

/// The position of the last `c`, or -1.
pub open spec fn last_position(s: Seq<char>, c: char) -> int
    decreases s.len(),
{
    if s.len() == 0 {
        -1
    } else if s.last() == c {
        s.len() - 1
    } else {
        last_position(s.drop_last(), c)
    }
}

pub proof fn lemma_last_position(s: Seq<char>, c: char)
    ensures
        -1 <= last_position(s, c) < s.len(),
        last_position(s, c) >= 0 ==> s[last_position(s, c)] == c,
        forall|i: int| last_position(s, c) < i < s.len() ==> #[trigger] s[i] != c,
    decreases s.len(),
{
    if s.len() > 0 && s.last() != c {
        lemma_last_position(s.drop_last(), c);
        assert forall|i: int| last_position(s, c) < i < s.len() implies #[trigger] s[i] != c by {
            if i < s.len() - 1 {
                assert(s.drop_last()[i] == s[i]);
            }
        }
    }
}

/// The position behind the last `c`; 0 where there is none.
pub fn behind_last(chars: &Vec<char>, c: char) -> (r: usize)
    ensures
        r == last_position(chars@, c) + 1,
        r <= chars.len(),
{
    let mut i: usize = chars.len();
    proof {
        assert(chars@.subrange(0, i as int) =~= chars@);
    }
    while i > 0 && chars[i - 1] != c
        invariant
            i <= chars.len(),
            last_position(chars@, c) == last_position(chars@.subrange(0, i as int), c),
        decreases i,
    {
        proof {
            assert(chars@.subrange(0, i as int).drop_last() =~= chars@.subrange(0, i - 1));
        }
        i -= 1;
    }
    i
}

/// Whether a character is a control character: Unicode's general category Cc.
pub open spec fn control(c: char) -> bool {
    (c as u32) < 32 || (127 <= (c as u32) && (c as u32) < 160)
}

pub fn is_control(c: char) -> (r: bool)
    ensures
        r == control(c),
{
    (c as u32) < 32 || (127 <= (c as u32) && (c as u32) < 160)
}

// ---------------------------------------------------------------------------
// Replacing
// ---------------------------------------------------------------------------

/// `s` with every occurrence of `pattern` replaced, from the left, each search
/// going on behind the last occurrence.
pub open spec fn replaced(s: Seq<char>, pattern: Seq<char>, by: Seq<char>) -> Seq<char>
    decreases s.len(),
{
    if pattern.len() == 0 || s.len() == 0 {
        s
    } else if stands_at(s, pattern, 0) {
        by + replaced(s.skip(pattern.len() as int), pattern, by)
    } else {
        seq![s[0]] + replaced(s.skip(1), pattern, by)
    }
}

pub fn replace(s: &str, pattern: &str, by: &str) -> (r: String)
    ensures
        r@ == replaced(s@, pattern@, by@),
{
    let c = chars_of(s);
    let p = chars_of(pattern);
    if p.len() == 0 {
        return s.to_owned();
    }
    let mut out = String::new();
    let mut i: usize = 0;
    proof {
        assert(s@.skip(0) =~= s@);
        assert(out@ + replaced(s@, pattern@, by@) =~= replaced(s@, pattern@, by@));
    }
    while i < c.len()
        invariant
            c@ == s@,
            p@ == pattern@,
            pattern@.len() > 0,
            i <= c.len(),
            out@ + replaced(s@.skip(i as int), pattern@, by@) == replaced(s@, pattern@, by@),
        decreases c.len() - i,
    {
        let ghost rest = s@.skip(i as int);
        let ghost before = out@;
        let here = matches_at(&c, &p, i);
        proof {
            if i + pattern@.len() <= s@.len() {
                assert(rest.subrange(0, pattern@.len() as int) =~= s@.subrange(
                    i as int,
                    i + pattern@.len(),
                ));
            }
            assert(here == stands_at(rest, pattern@, 0));
        }
        if here {
            out.append(by);
            proof {
                let tail = replaced(s@.skip(i + pattern@.len()), pattern@, by@);
                assert(rest.skip(pattern@.len() as int) =~= s@.skip(i + pattern@.len()));
                assert((before + by@) + tail =~= before + (by@ + tail));
            }
            i += p.len();
        } else {
            out.push(c[i]);
            proof {
                let tail = replaced(s@.skip(i + 1), pattern@, by@);
                assert(rest.skip(1) =~= s@.skip(i + 1));
                assert(before.push(s@[i as int]) + tail =~= before + (seq![s@[i as int]] + tail));
            }
            i += 1;
        }
    }
    proof {
        assert(s@.skip(i as int).len() == 0);
        assert(out@ + replaced(s@.skip(i as int), pattern@, by@) =~= out@);
    }
    out
}

/// Replacing what does not occur changes nothing.
pub proof fn lemma_replaced_absent(s: Seq<char>, pattern: Seq<char>, by: Seq<char>)
    requires
        !occurs(s, pattern),
    ensures
        replaced(s, pattern, by) == s,
    decreases s.len(),
{
    if pattern.len() > 0 && s.len() > 0 {
        assert(!stands_at(s, pattern, 0));
        assert forall|at: int| !stands_at(s.skip(1), pattern, at) by {
            if stands_at(s.skip(1), pattern, at) {
                assert(s.subrange(at + 1, at + 1 + pattern.len()) =~= s.skip(1).subrange(
                    at,
                    at + pattern.len(),
                ));
                assert(stands_at(s, pattern, at + 1));
            }
        }
        lemma_replaced_absent(s.skip(1), pattern, by);
        assert(seq![s[0]] + s.skip(1) =~= s);
    }
}

/// Whether `a` and `b` have no character in common.
pub open spec fn disjoint(a: Seq<char>, b: Seq<char>) -> bool {
    forall|i: int, j: int| 0 <= i < a.len() && 0 <= j < b.len() ==> #[trigger] a[i] != #[trigger] b[j]
}

/// As far as the result of replacing shows nothing of the replacement, it is
/// the text itself.
proof fn lemma_replaced_prefix(s: Seq<char>, pattern: Seq<char>, by: Seq<char>, k: int)
    requires
        by.len() > 0,
        0 <= k <= replaced(s, pattern, by).len(),
        disjoint(replaced(s, pattern, by).subrange(0, k), by),
    ensures
        k <= s.len(),
        s.subrange(0, k) == replaced(s, pattern, by).subrange(0, k),
    decreases s.len(),
{
    let r = replaced(s, pattern, by);
    if pattern.len() == 0 || s.len() == 0 {
    } else if k == 0 {
        assert(s.subrange(0, 0) =~= r.subrange(0, 0));
    } else if stands_at(s, pattern, 0) {
        assert(r[0] == by[0]);
        assert(r.subrange(0, k)[0] == by[0]);
        assert(false);
    } else {
        let tail = replaced(s.skip(1), pattern, by);
        assert(r == seq![s[0]] + tail);
        assert forall|i: int, j: int|
            0 <= i < k - 1 && 0 <= j < by.len() implies #[trigger] tail.subrange(0, k - 1)[i]
            != #[trigger] by[j] by {
            assert(r.subrange(0, k)[i + 1] == tail.subrange(0, k - 1)[i]);
        }
        lemma_replaced_prefix(s.skip(1), pattern, by, k - 1);
        assert forall|i: int| 0 <= i < k implies s.subrange(0, k)[i] == r.subrange(0, k)[i] by {
            if i > 0 {
                assert(s.skip(1).subrange(0, k - 1)[i - 1] == tail.subrange(0, k - 1)[i - 1]);
            }
        }
        assert(s.subrange(0, k) =~= r.subrange(0, k));
    }
}

/// A needle that shares no character with the replacement does not occur in
/// the result, if it is the pattern or did not occur before.
pub proof fn lemma_replaced_lacks(
    s: Seq<char>,
    pattern: Seq<char>,
    by: Seq<char>,
    needle: Seq<char>,
)
    requires
        pattern.len() > 0,
        needle.len() > 0,
        by.len() > 0,
        disjoint(needle, by),
        needle == pattern || !occurs(s, needle),
    ensures
        !occurs(replaced(s, pattern, by), needle),
    decreases s.len(),
{
    let r = replaced(s, pattern, by);
    let n = needle.len() as int;
    assert forall|at: int| !stands_at(r, needle, at) by {
        if stands_at(r, needle, at) {
            if s.len() == 0 {
                assert(r == s);
            } else if stands_at(s, pattern, 0) {
                let tail = replaced(s.skip(pattern.len() as int), pattern, by);
                if at < by.len() {
                    assert(r.subrange(at, at + n)[0] == by[at]);
                    assert(false);
                } else {
                    lemma_occurs_in_skip(s, needle, pattern.len() as int);
                    lemma_replaced_lacks(s.skip(pattern.len() as int), pattern, by, needle);
                    assert(tail.subrange(at - by.len(), at - by.len() + n) =~= r.subrange(
                        at,
                        at + n,
                    ));
                    assert(stands_at(tail, needle, at - by.len()));
                    assert(false);
                }
            } else {
                let tail = replaced(s.skip(1), pattern, by);
                if at == 0 {
                    assert(r.subrange(0, n) == needle);
                    lemma_replaced_prefix(s, pattern, by, n);
                    assert(stands_at(s, needle, 0));
                    assert(false);
                } else {
                    lemma_occurs_in_skip(s, needle, 1);
                    lemma_replaced_lacks(s.skip(1), pattern, by, needle);
                    assert(tail.subrange(at - 1, at - 1 + n) =~= r.subrange(at, at + n));
                    assert(stands_at(tail, needle, at - 1));
                    assert(false);
                }
            }
        }
    }
}

/// What occurs behind a position occurs in the whole.
pub proof fn lemma_occurs_in_skip(s: Seq<char>, needle: Seq<char>, from: int)
    requires
        0 <= from <= s.len(),
    ensures
        occurs(s.skip(from), needle) ==> occurs(s, needle),
{
    if occurs(s.skip(from), needle) {
        let at = choose|at: int| stands_at(s.skip(from), needle, at);
        assert(s.subrange(at + from, at + from + needle.len()) =~= s.skip(from).subrange(
            at,
            at + needle.len(),
        ));
        assert(stands_at(s, needle, at + from));
    }
}

/// A needle that occurs in none of the parts, and shares no character with the
/// separator, does not occur in what they are joined to.
pub proof fn lemma_joined_lacks(parts: Seq<Seq<char>>, separator: Seq<char>, needle: Seq<char>)
    requires
        needle.len() > 0,
        separator.len() == 1,
        !needle.contains(separator[0]),
        forall|i: int| 0 <= i < parts.len() ==> !occurs(#[trigger] parts[i], needle),
    ensures
        !occurs(joined(parts, separator), needle),
    decreases parts.len(),
{
    let all = joined(parts, separator);
    let n = needle.len() as int;
    if parts.len() > 1 {
        let front = joined(parts.drop_last(), separator);
        let last = parts.last();
        assert forall|i: int| 0 <= i < parts.drop_last().len() implies !occurs(
            #[trigger] parts.drop_last()[i],
            needle,
        ) by {
            assert(parts.drop_last()[i] == parts[i]);
        }
        lemma_joined_lacks(parts.drop_last(), separator, needle);
        assert(!occurs(parts[parts.len() - 1], needle));
        assert forall|at: int| !stands_at(all, needle, at) by {
            if stands_at(all, needle, at) {
                let cut = front.len() as int;
                if at + n <= cut {
                    assert(front.subrange(at, at + n) =~= all.subrange(at, at + n));
                    assert(stands_at(front, needle, at));
                } else if at > cut {
                    assert(last.subrange(at - cut - 1, at - cut - 1 + n) =~= all.subrange(
                        at,
                        at + n,
                    ));
                    assert(stands_at(last, needle, at - cut - 1));
                } else {
                    assert(all.subrange(at, at + n)[cut - at] == separator[0]);
                    assert(needle[cut - at] == separator[0]);
                }
            }
        }
    } else if parts.len() == 1 {
        assert(!occurs(parts[0], needle));
    } else {
        assert forall|at: int| !stands_at(all, needle, at) by {}
    }
}

} // verus!
