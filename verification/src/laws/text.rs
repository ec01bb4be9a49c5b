//! What the operations on text do, by the parts a text is put together from.

use vstd::prelude::*;
use vstd::string::*;
use crate::text::{
    before_char, contains, decimal, decimal_of, joined, last_position, lemma_before_char,
    lemma_decimal_digits, lemma_last_position, lines, lowered, numeral, occurs, replaced, signed_of,
    sorts_before, spelled, split_lines, split_words, stands_at, texts, to_lower, trim, trimmed,
    trimmed_end, trimmed_start, unsigned, whitespace, without_leading, without_return,
    without_trailing, word_length, words,
};

verus! {

/// A text occurs in every text it is a part of, and in no other.
pub proof fn law_a_part_occurs(hay: Seq<char>, needle: Seq<char>)
    ensures
        occurs(hay, needle) <==> exists|a: Seq<char>, b: Seq<char>| hay == #[trigger] (a + needle + b),
{
    if occurs(hay, needle) {
        let at = choose|at: int| stands_at(hay, needle, at);
        let (a, b) = (hay.take(at), hay.skip(at + needle.len()));
        assert(hay =~= a + needle + b);
    }
    if exists|a: Seq<char>, b: Seq<char>| hay == #[trigger] (a + needle + b) {
        let (a, b) = choose|a: Seq<char>, b: Seq<char>| hay == #[trigger] (a + needle + b);
        lemma_part_occurs(a, needle, b);
    }
}

pub proof fn lemma_part_occurs(a: Seq<char>, needle: Seq<char>, b: Seq<char>)
    ensures
        occurs(a + needle + b, needle),
        stands_at(a + needle + b, needle, a.len() as int),
{
    assert((a + needle + b).subrange(a.len() as int, (a.len() + needle.len()) as int) =~= needle);
    assert(stands_at(a + needle + b, needle, a.len() as int));
}

/// What occurs in a part occurs in the whole.
pub proof fn lemma_occurs_within(a: Seq<char>, part: Seq<char>, b: Seq<char>, needle: Seq<char>)
    requires
        occurs(part, needle),
    ensures
        occurs(a + part + b, needle),
{
    let at = choose|at: int| stands_at(part, needle, at);
    let whole = a + part + b;
    assert(whole.subrange(a.len() + at, a.len() + at + needle.len()) =~= part.subrange(
        at,
        at + needle.len(),
    ));
    assert(stands_at(whole, needle, a.len() + at));
}

pub proof fn lemma_assoc(a: Seq<char>, b: Seq<char>, c: Seq<char>)
    ensures
        a + (b + c) == a + b + c,
{
    assert(a + (b + c) =~= a + b + c);
}

pub proof fn lemma_tail(p: Seq<char>, x: Seq<char>)
    ensures
        occurs(p + x, x),
{
    let none = Seq::<char>::empty();
    lemma_part_occurs(p, x, none);
    assert(p + x + none =~= p + x);
}

pub proof fn lemma_tail3(p: Seq<char>, a: Seq<char>, b: Seq<char>, c: Seq<char>)
    ensures
        occurs(p + a + b + c, a + b + c),
        p + (a + b + c) == p + a + b + c,
{
    lemma_assoc(p, a + b, c);
    lemma_assoc(p, a, b);
    lemma_tail(p, a + b + c);
}

pub proof fn lemma_tail4(p: Seq<char>, a: Seq<char>, b: Seq<char>, c: Seq<char>, d: Seq<char>)
    ensures
        occurs(p + a + b + c + d, a + b + c + d),
        p + (a + b + c + d) == p + a + b + c + d,
{
    lemma_assoc(p, a + b + c, d);
    lemma_tail3(p, a, b, c);
    lemma_tail(p, a + b + c + d);
}

pub proof fn lemma_tail5(
    p: Seq<char>,
    a: Seq<char>,
    b: Seq<char>,
    c: Seq<char>,
    d: Seq<char>,
    e: Seq<char>,
)
    ensures
        occurs(p + a + b + c + d + e, a + b + c + d + e),
        p + (a + b + c + d + e) == p + a + b + c + d + e,
{
    lemma_assoc(p, a + b + c + d, e);
    lemma_tail4(p, a, b, c, d);
    lemma_tail(p, a + b + c + d + e);
}

pub proof fn lemma_head5(
    p: Seq<char>,
    a: Seq<char>,
    b: Seq<char>,
    c: Seq<char>,
    d: Seq<char>,
    e: Seq<char>,
    needle: Seq<char>,
)
    requires
        occurs(p, needle),
    ensures
        occurs(p + a + b + c + d + e, needle),
{
    let none = Seq::<char>::empty();
    lemma_occurs_within(none, p, a + b + c + d + e, needle);
    lemma_tail5(p, a, b, c, d, e);
    assert(none + p =~= p);
}

/// The first of a character stands where the text before it ends.
pub proof fn law_the_first_of_a_character(a: Seq<char>, c: char, b: Seq<char>)
    requires
        !a.contains(c),
    ensures
        before_char(a + seq![c] + b, c) == a.len(),
        before_char(a, c) == a.len(),
{
    let s = a + seq![c] + b;
    lemma_before_char(s, c);
    lemma_before_char(a, c);
    let k = before_char(s, c) as int;
    assert(s[a.len() as int] == c);
    if k < a.len() {
        assert(a[k] == c);
    }
    if k > a.len() {
        assert(s[a.len() as int] != c);
    }
    if before_char(a, c) < a.len() {
        assert(a[before_char(a, c) as int] == c);
    }
}

/// The last of a character stands where the text behind it begins.
pub proof fn law_the_last_of_a_character(a: Seq<char>, c: char, b: Seq<char>)
    requires
        !b.contains(c),
    ensures
        last_position(a + seq![c] + b, c) == a.len(),
        last_position(b, c) == -1,
{
    let s = a + seq![c] + b;
    lemma_last_position(s, c);
    lemma_last_position(b, c);
    let k = last_position(s, c);
    assert(s[a.len() as int] == c);
    if k > a.len() {
        assert(b[k - a.len() - 1] == c);
    }
    if k < a.len() {
        assert(s[a.len() as int] != c);
    }
    if last_position(b, c) >= 0 {
        assert(b[last_position(b, c)] == c);
    }
}

/// A number is written with its digits, in base ten and without a leading zero, and
/// reads back as itself.
pub proof fn law_a_number_reads_back(n: nat)
    ensures
        spelled(decimal(n)) == n,
        decimal(n).len() > 0,
        forall|i: int| 0 <= i < decimal(n).len() ==> '0' <= #[trigger] decimal(n)[i] <= '9',
        n > 0 ==> decimal(n)[0] != '0',
        forall|most: nat| #[trigger] numeral(decimal(n), most) == (if n <= most {
            Some(n)
        } else {
            None
        }),
        forall|most: nat| n <= most ==> #[trigger] unsigned(decimal(n), most) == Some(n),
        forall|most: nat| n <= most ==> #[trigger] unsigned("+"@ + decimal(n), most) == Some(n),
    decreases n,
{
    lemma_decimal_digits(n);
    reveal_strlit("+");
    assert(("+"@ + decimal(n)).skip(1) =~= decimal(n));
    if n >= 10 {
        law_a_number_reads_back(n / 10);
        assert(decimal(n).drop_last() =~= decimal(n / 10));
        assert(decimal(n)[0] == decimal(n / 10)[0]);
    } else {
        assert(decimal(n).drop_last() =~= Seq::empty());
        assert(spelled(Seq::<char>::empty()) == 0);
    }
}

/// What a number is written as is what reads back as it.
pub proof fn law_numbers_are_written_as_they_read(n: u128, s: String)
    requires
        call_ensures(decimal_of, (n,), s),
    ensures
        spelled(s@) == n,
        forall|i: int| 0 <= i < s@.len() ==> '0' <= #[trigger] s@[i] <= '9',
{
    law_a_number_reads_back(n as nat);
}

/// A negative number is written with a minus and the digits of its amount.
pub proof fn law_signs(n: i64, s: String)
    requires
        call_ensures(signed_of, (n,), s),
    ensures
        n >= 0 ==> spelled(s@) == n && s@[0] != '-',
        n < 0 ==> s@[0] == '-' && spelled(s@.skip(1)) == -n,
{
    reveal_strlit("-");
    if n >= 0 {
        law_a_number_reads_back(n as nat);
    } else {
        law_a_number_reads_back((0 - n) as nat);
        assert(s@.skip(1) =~= decimal((0 - n) as nat));
    }
}

/// In small letters a text keeps its length and everything but its capitals, each of
/// which becomes the small letter of the same place in the alphabet.
pub proof fn law_small_letters(s: &str, r: String)
    requires
        call_ensures(to_lower, (s,), r),
    ensures
        r@.len() == s@.len(),
        forall|i: int|
            0 <= i < s@.len() ==> (#[trigger] r@[i]) as int == (if 'A' <= s@[i] <= 'Z' {
                s@[i] as int + 32
            } else {
                s@[i] as int
            }),
{
}

pub proof fn lemma_lowered_parts(a: Seq<char>, b: Seq<char>)
    ensures
        lowered(a + b) == lowered(a) + lowered(b),
{
    assert(lowered(a + b) =~= lowered(a) + lowered(b));
}

proof fn lemma_trimmed_start(a: Seq<char>, m: Seq<char>)
    requires
        forall|i: int| 0 <= i < a.len() ==> whitespace(#[trigger] a[i]),
        m.len() > 0 ==> !whitespace(m[0]),
    ensures
        trimmed_start(a + m) == m,
    decreases a.len(),
{
    if a.len() == 0 {
        assert(a + m =~= m);
    } else {
        assert((a + m)[0] == a[0]);
        assert((a + m).drop_first() =~= a.drop_first() + m);
        assert forall|i: int| 0 <= i < a.drop_first().len() implies whitespace(
            #[trigger] a.drop_first()[i],
        ) by {
            assert(a.drop_first()[i] == a[i + 1]);
        }
        lemma_trimmed_start(a.drop_first(), m);
    }
}

pub proof fn lemma_trimmed_end(m: Seq<char>, b: Seq<char>)
    requires
        forall|i: int| 0 <= i < b.len() ==> whitespace(#[trigger] b[i]),
        m.len() > 0 ==> !whitespace(m.last()),
    ensures
        trimmed_end(m + b) == m,
    decreases b.len(),
{
    if b.len() == 0 {
        assert(m + b =~= m);
    } else {
        assert((m + b).last() == b.last());
        assert(whitespace(b[b.len() - 1]));
        assert((m + b).drop_last() =~= m + b.drop_last());
        assert forall|i: int| 0 <= i < b.drop_last().len() implies whitespace(
            #[trigger] b.drop_last()[i],
        ) by {
            assert(b.drop_last()[i] == b[i]);
        }
        lemma_trimmed_end(m, b.drop_last());
    }
}

pub proof fn lemma_trimmed(a: Seq<char>, m: Seq<char>, b: Seq<char>)
    requires
        forall|i: int| 0 <= i < a.len() ==> whitespace(#[trigger] a[i]),
        forall|i: int| 0 <= i < b.len() ==> whitespace(#[trigger] b[i]),
        m.len() > 0,
        !whitespace(m[0]),
        !whitespace(m.last()),
    ensures
        trimmed(a + m + b) == m,
{
    assert(a + m + b =~= a + (m + b));
    assert((m + b)[0] == m[0]);
    lemma_trimmed_start(a, m + b);
    lemma_trimmed_end(m, b);
}

/// Trimming takes the whitespace off both ends and leaves the rest as it is.
pub proof fn law_trimming(a: Seq<char>, m: Seq<char>, b: Seq<char>, s: &str, r: String)
    requires
        call_ensures(trim, (s,), r),
        s@ == a + m + b,
        forall|i: int| 0 <= i < a.len() ==> whitespace(#[trigger] a[i]),
        forall|i: int| 0 <= i < b.len() ==> whitespace(#[trigger] b[i]),
        m.len() > 0,
        !whitespace(m[0]),
        !whitespace(m.last()),
    ensures
        r@ == m,
{
    lemma_trimmed(a, m, b);
}

/// Blanks, tabs and line ends are whitespace; printable ASCII is not.
pub proof fn law_whitespace(c: char)
    ensures
        c == ' ' || c == '\t' || c == '\n' || c == '\r' ==> whitespace(c),
        33 <= c as u32 <= 126 ==> !whitespace(c),
{
}

proof fn lemma_word_length(w: Seq<char>, rest: Seq<char>)
    requires
        forall|i: int| 0 <= i < w.len() ==> !whitespace(#[trigger] w[i]),
        rest.len() > 0 ==> whitespace(rest[0]),
    ensures
        word_length(w + rest) == w.len(),
    decreases w.len(),
{
    if w.len() == 0 {
        assert(w + rest =~= rest);
    } else {
        assert((w + rest)[0] == w[0]);
        assert((w + rest).skip(1) =~= w.skip(1) + rest);
        assert forall|i: int| 0 <= i < w.skip(1).len() implies !whitespace(
            #[trigger] w.skip(1)[i],
        ) by {
            assert(w.skip(1)[i] == w[i + 1]);
        }
        lemma_word_length(w.skip(1), rest);
    }
}

pub proof fn lemma_words(w: Seq<char>, rest: Seq<char>)
    requires
        w.len() > 0,
        forall|i: int| 0 <= i < w.len() ==> !whitespace(#[trigger] w[i]),
        rest.len() > 0 ==> whitespace(rest[0]),
    ensures
        words(w + rest) == seq![w] + words(rest),
{
    lemma_word_length(w, rest);
    assert((w + rest)[0] == w[0]);
    assert((w + rest).take(w.len() as int) =~= w);
    assert((w + rest).skip(w.len() as int) =~= rest);
}

/// The words of a text are what stands between whitespace, in order.
pub proof fn law_words(w: Seq<char>, space: char, rest: Seq<char>)
    requires
        w.len() > 0,
        forall|i: int| 0 <= i < w.len() ==> !whitespace(#[trigger] w[i]),
        whitespace(space),
    ensures
        words(w) == seq![w],
        words(seq![space] + rest) == words(rest),
        words(w + seq![space] + rest) == seq![w] + words(rest),
        forall|s: &str, r: Vec<String>|
            #[trigger] call_ensures(split_words, (s,), r) && s@ == w + seq![space] + rest ==> texts(
                r@,
            ) == seq![w] + words(rest),
{
    lemma_words(w, Seq::empty());
    assert(w + Seq::<char>::empty() =~= w);
    assert(words(Seq::<char>::empty()) =~= Seq::empty());
    assert(seq![w] + Seq::<Seq<char>>::empty() =~= seq![w]);
    lemma_words(w, seq![space] + rest);
    assert(w + (seq![space] + rest) =~= w + seq![space] + rest);
    assert((seq![space] + rest).skip(1) =~= rest);
}

pub proof fn lemma_line(a: Seq<char>, rest: Seq<char>)
    requires
        !a.contains('\n'),
    ensures
        lines(a + seq!['\n'] + rest) == seq![without_return(a)] + lines(rest),
        a.len() > 0 ==> lines(a) == seq![a],
{
    law_the_first_of_a_character(a, '\n', rest);
    let s = a + seq!['\n'] + rest;
    assert(s.take(a.len() as int) =~= a);
    assert(s.skip(a.len() as int + 1) =~= rest);
}

/// The lines of a text are what stands between line ends, in order, without a
/// carriage return before the end.
pub proof fn law_lines(a: Seq<char>, rest: Seq<char>)
    requires
        !a.contains('\n'),
        !a.contains('\r'),
    ensures
        lines(Seq::<char>::empty()) == Seq::<Seq<char>>::empty(),
        a.len() > 0 ==> lines(a) == seq![a],
        lines(a + "\n"@ + rest) == seq![a] + lines(rest),
        lines(a + "\r\n"@ + rest) == seq![a] + lines(rest),
        forall|s: &str, r: Vec<String>|
            #[trigger] call_ensures(split_lines, (s,), r) && s@ == a + "\n"@ + rest ==> texts(r@)
                == seq![a] + lines(rest),
{
    reveal_strlit("\n");
    reveal_strlit("\r\n");
    assert("\n"@ =~= seq!['\n']);
    if a.len() > 0 {
        assert(a.contains(a.last()));
    }
    lemma_line(a, rest);
    let b = a.push('\r');
    assert(!b.contains('\n')) by {
        if b.contains('\n') {
            let k = choose|k: int| 0 <= k < b.len() && b[k] == '\n';
            assert(a[k] == '\n');
        }
    }
    lemma_line(b, rest);
    assert(a + "\r\n"@ + rest =~= b + seq!['\n'] + rest);
    assert(b.drop_last() =~= a);
}

/// The lines of a text that ends with a line end come before those of what follows.
pub proof fn lemma_lines_parts(a: Seq<char>, b: Seq<char>)
    requires
        a.len() > 0,
        a.last() == '\n',
    ensures
        lines(a + b) == lines(a) + lines(b),
    decreases a.len(),
{
    lemma_before_char(a, '\n');
    let k = before_char(a, '\n') as int;
    if k >= a.len() {
        assert(a[a.len() - 1] != '\n');
    }
    let (first, rest) = (a.take(k), a.skip(k + 1));
    assert(!first.contains('\n'));
    assert(a =~= first + seq!['\n'] + rest);
    assert(a + b =~= first + seq!['\n'] + (rest + b));
    lemma_line(first, rest);
    lemma_line(first, rest + b);
    if rest.len() > 0 {
        assert(rest.last() == a.last());
        lemma_lines_parts(rest, b);
    } else {
        assert(rest + b =~= b);
        assert(lines(rest) =~= Seq::empty());
    }
    assert(lines(a + b) =~= lines(a) + lines(b));
}

/// A text without a pattern before its first occurrence keeps that part, has the
/// occurrence replaced, and goes on behind it.
pub proof fn law_replacing(a: Seq<char>, pattern: Seq<char>, b: Seq<char>, by: Seq<char>)
    requires
        pattern.len() > 0,
        forall|at: int| 0 <= at < a.len() ==> !#[trigger] stands_at(a + pattern + b, pattern, at),
    ensures
        replaced(a + pattern + b, pattern, by) == a + by + replaced(b, pattern, by),
    decreases a.len(),
{
    let s = a + pattern + b;
    if a.len() == 0 {
        assert(s =~= pattern + b);
        assert(s.subrange(0, pattern.len() as int) =~= pattern);
        assert(s.skip(pattern.len() as int) =~= b);
        assert(a + by + replaced(b, pattern, by) =~= by + replaced(b, pattern, by));
    } else {
        assert(!stands_at(s, pattern, 0));
        let t = a.skip(1) + pattern + b;
        assert(s.skip(1) =~= t);
        assert forall|at: int| 0 <= at < a.skip(1).len() implies !#[trigger] stands_at(
            t,
            pattern,
            at,
        ) by {
            assert(!stands_at(s, pattern, at + 1));
            if stands_at(t, pattern, at) {
                assert(s.subrange(at + 1, at + 1 + pattern.len()) =~= t.subrange(
                    at,
                    at + pattern.len(),
                ));
            }
        }
        law_replacing(a.skip(1), pattern, b, by);
        assert(seq![a[0]] + (a.skip(1) + by + replaced(b, pattern, by)) =~= a + by + replaced(
            b,
            pattern,
            by,
        ));
    }
}

/// Two joined lists are joined by the separator, and one text alone is itself.
pub proof fn law_joining(a: Seq<Seq<char>>, b: Seq<Seq<char>>, separator: Seq<char>)
    requires
        a.len() > 0,
        b.len() > 0,
    ensures
        joined(a + b, separator) == joined(a, separator) + separator + joined(b, separator),
        joined(seq![a[0]], separator) == a[0],
    decreases b.len(),
{
    assert((a + b).drop_last() =~= a + b.drop_last());
    assert((a + b).last() == b.last());
    if b.len() == 1 {
        assert(a + b.drop_last() =~= a);
    } else {
        law_joining(a, b.drop_last(), separator);
    }
    assert(joined(a + b, separator) =~= joined(a, separator) + separator + joined(b, separator));
}

/// Texts are ordered by their first difference, and a text comes before all that it
/// begins.
pub proof fn law_text_order(p: Seq<char>, x: char, y: char, a: Seq<char>, b: Seq<char>)
    requires
        x != y,
    ensures
        sorts_before(p + seq![x] + a, p + seq![y] + b) <==> x < y,
        sorts_before(p, p + seq![x] + a),
        !sorts_before(p, p),
    decreases p.len(),
{
    let (s, t) = (p + seq![x] + a, p + seq![y] + b);
    if p.len() > 0 {
        let q = p.skip(1);
        law_text_order(q, x, y, a, b);
        assert(s.skip(1) =~= q + seq![x] + a);
        assert(t.skip(1) =~= q + seq![y] + b);
        assert(s[0] == p[0] && t[0] == p[0]);
    } else {
        assert(s[0] == x && t[0] == y);
    }
}

pub proof fn lemma_without_leading(c: char, n: nat, rest: Seq<char>)
    requires
        rest.len() > 0 ==> rest[0] != c,
    ensures
        without_leading(Seq::new(n, |i: int| c) + rest, c) == rest,
    decreases n,
{
    let lead = Seq::new(n, |i: int| c);
    if n == 0 {
        assert(lead + rest =~= rest);
    } else {
        assert((lead + rest)[0] == c);
        assert((lead + rest).drop_first() =~= Seq::new((n - 1) as nat, |i: int| c) + rest);
        lemma_without_leading(c, (n - 1) as nat, rest);
    }
}

pub proof fn lemma_without_trailing(rest: Seq<char>, c: char, n: nat)
    requires
        rest.len() > 0 ==> rest.last() != c,
    ensures
        without_trailing(rest + Seq::new(n, |i: int| c), c) == rest,
    decreases n,
{
    let tail = Seq::new(n, |i: int| c);
    if n == 0 {
        assert(rest + tail =~= rest);
    } else {
        assert((rest + tail).last() == c);
        assert((rest + tail).drop_last() =~= rest + Seq::new((n - 1) as nat, |i: int| c));
        lemma_without_trailing(rest, c, (n - 1) as nat);
    }
}

/// Stripping a character takes all of it off one end and nothing else.
pub proof fn law_stripping(c: char, n: nat, rest: Seq<char>)
    requires
        rest.len() > 0,
        rest[0] != c,
        rest.last() != c,
    ensures
        without_leading(Seq::new(n, |i: int| c) + rest, c) == rest,
        without_trailing(rest + Seq::new(n, |i: int| c), c) == rest,
{
    lemma_without_leading(c, n, rest);
    lemma_without_trailing(rest, c, n);
}

} // verus!
