//! Human-readable durations: `30s`, `5m`, `1h`.
//!
//! Parsing accepts what an operator writes. Rendering for Telegraf is another
//! matter: Go's `time.ParseDuration` accepts `1m30s` but not `1m 30s`, so
//! [`ConfigDuration::as_telegraf`] always writes a single unit.

use vstd::prelude::*;
use vstd::string::*;
use crate::text;

verus! {

/// A length of time: whole seconds and the nanoseconds beyond them.
#[derive(Debug, Clone, Copy, PartialEq, Eq, PartialOrd, Ord, Structural)]
pub struct ConfigDuration {
    pub secs: u64,
    pub nanos: u32,
}

impl ConfigDuration {
    /// The nanoseconds stay below a second.
    pub open spec fn wf(self) -> bool {
        self.nanos < 1_000_000_000
    }
}

/// What `humantime::parse_duration` makes of a text.
pub uninterp spec fn humantime_parse(text: Seq<char>) -> Option<ConfigDuration>;

/// The nanoseconds that the seconds of a [`ConfigDuration`] can no longer count.
pub const END_OF_RANGE: u128 = 18446744073709551616000000000;

/// The nanoseconds in one of the units a name can stand for, told by how it
/// starts. A name that stands for none counts for nothing.
pub open spec fn scale(unit: Seq<char>) -> u128 {
    if unit.len() == 0 {
        0
    } else if unit[0] == 'n' {
        1
    } else if unit[0] == 'u' || unit[0] == 'µ' {
        1_000
    } else if unit[0] == 's' {
        1_000_000_000
    } else if unit[0] == 'h' {
        3_600_000_000_000
    } else if unit[0] == 'd' {
        86_400_000_000_000
    } else if unit[0] == 'w' {
        604_800_000_000_000
    } else if unit[0] == 'M' {
        2_630_016_000_000_000
    } else if unit[0] == 'y' {
        31_557_600_000_000_000
    } else if unit[0] != 'm' {
        0
    } else if unit.len() > 1 && unit[1] == 'o' {
        2_630_016_000_000_000
    } else if unit.len() > 1 && unit[1] == 's' || unit.len() > 2 && unit[1] == 'i' && unit[2]
        == 'l' {
        1_000_000
    } else {
        60_000_000_000
    }
}

fn scale_of(unit: &Vec<char>) -> (r: u128)
    ensures
        r == scale(unit@),
        r <= 31_557_600_000_000_000,
{
    if unit.len() == 0 {
        return 0;
    }
    match unit[0] {
        'n' => 1,
        'u' | 'µ' => 1_000,
        's' => 1_000_000_000,
        'h' => 3_600_000_000_000,
        'd' => 86_400_000_000_000,
        'w' => 604_800_000_000_000,
        'M' => 2_630_016_000_000_000,
        'y' => 31_557_600_000_000_000,
        'm' => if unit.len() > 1 && unit[1] == 'o' {
            2_630_016_000_000_000
        } else if unit.len() > 1 && unit[1] == 's' || unit.len() > 2 && unit[1] == 'i' && unit[2]
            == 'l' {
            1_000_000
        } else {
            60_000_000_000
        },
        _ => 0,
    }
}

/// The nanoseconds of so many units and of so many parts of one.
pub open spec fn weight(number: nat, part: nat, parts: nat, unit: Seq<char>) -> nat {
    let each = scale(unit) as nat;
    number * each + part * each / parts
}

/// A text read so far: the nanoseconds of what is complete, and of what is not the
/// number, the digits behind its point as a number of parts, and the unit.
pub struct Tally {
    pub total: nat,
    pub number: nat,
    pub fraction: bool,
    pub part: nat,
    pub parts: nat,
    pub unit: Seq<char>,
}

impl Tally {
    /// The nanoseconds with what is being read.
    pub open spec fn sum(self) -> nat {
        self.total + weight(self.number, self.part, self.parts, self.unit)
    }

    /// What the next character makes of it: nothing, where the sum or a number
    /// leaves its range.
    pub open spec fn next(self, c: char) -> Option<Tally> {
        if text::is_digit(c) && self.unit.len() == 0 {
            let number = self.number * 10 + text::digit_value(c);
            if self.fraction && self.parts * 10 <= u64::MAX {
                Some(
                    Tally {
                        part: self.part * 10 + text::digit_value(c),
                        parts: self.parts * 10,
                        ..self
                    },
                )
            } else if !self.fraction && number <= u64::MAX {
                Some(Tally { number, ..self })
            } else {
                None
            }
        } else if text::is_digit(c) || text::whitespace(c) && self.unit.len() > 0 {
            if self.sum() < END_OF_RANGE {
                Some(
                    Tally {
                        total: self.sum(),
                        number: if text::is_digit(c) {
                            text::digit_value(c)
                        } else {
                            0
                        },
                        ..Tally::blank()
                    },
                )
            } else {
                None
            }
        } else if text::whitespace(c) {
            Some(self)
        } else if c == '.' {
            Some(Tally { fraction: true, ..self })
        } else {
            Some(Tally { unit: self.unit.push(c), ..self })
        }
    }

    /// Nothing read yet.
    pub open spec fn blank() -> Tally {
        Tally { total: 0, number: 0, fraction: false, part: 0, parts: 1, unit: Seq::empty() }
    }
}

/// A text read to its end, where nothing leaves its range on the way.
pub open spec fn tally(s: Seq<char>) -> Option<Tally>
    decreases s.len(),
{
    if s.len() == 0 {
        Some(Tally::blank())
    } else {
        match tally(s.drop_last()) {
            Some(t) => t.next(s.last()),
            None => None,
        }
    }
}

/// Whether the numbers in a text, each in its unit, stay short of the end of the
/// range together.
pub open spec fn in_range(s: Seq<char>) -> bool {
    tally(s) matches Some(t) && t.sum() < END_OF_RANGE
}

/// The duration a text spells, where it stays in range.
pub open spec fn span_of(text: Seq<char>) -> Option<ConfigDuration> {
    if in_range(text) {
        humantime_parse(text)
    } else {
        None
    }
}

proof fn lemma_out_of_range_stays(s: Seq<char>, n: int)
    requires
        0 <= n <= s.len(),
        tally(s.take(n)) is None,
    ensures
        tally(s) is None,
    decreases s.len() - n,
{
    if n < s.len() {
        assert(s.take(n + 1).drop_last() =~= s.take(n));
        lemma_out_of_range_stays(s, n + 1);
    } else {
        assert(s.take(n) =~= s);
    }
}

fn weigh(number: u64, part: u64, parts: u64, unit: &Vec<char>) -> (r: u128)
    requires
        part < parts,
    ensures
        r == weight(number as nat, part as nat, parts as nat, unit@),
        r <= 0x1_0000_0000_0000_0000 * 31_557_600_000_000_000,
{
    let each: u128 = scale_of(unit);
    proof {
        assert(number * each <= 0xffff_ffff_ffff_ffff * 31_557_600_000_000_000)
            by (nonlinear_arith)
            requires
                number <= 0xffff_ffff_ffff_ffff,
                each <= 31_557_600_000_000_000,
        ;
        assert(part * each <= 0xffff_ffff_ffff_ffff * 31_557_600_000_000_000)
            by (nonlinear_arith)
            requires
                part <= 0xffff_ffff_ffff_ffff,
                each <= 31_557_600_000_000_000,
        ;
        assert(part * each / (parts as int) <= each) by (nonlinear_arith)
            requires
                0 <= part < parts,
                0 <= each,
        ;
    }
    number as u128 * each + part as u128 * each / parts as u128
}

/// Whether a text stays in range.
fn sensible(s: &str) -> (r: bool)
    ensures
        r == in_range(s@),
{
    let c = text::chars_of(s);
    let mut total: u128 = 0;
    let mut number: u64 = 0;
    let mut fraction = false;
    let mut part: u64 = 0;
    let mut parts: u64 = 1;
    let mut unit: Vec<char> = Vec::new();
    let mut i: usize = 0;
    proof {
        assert(s@.take(0) =~= Seq::<char>::empty());
        assert(unit@ =~= Seq::<char>::empty());
    }
    while i < c.len()
        invariant
            c@ == s@,
            i <= c.len(),
            total < END_OF_RANGE,
            part < parts,
            tally(s@.take(i as int)) == Some(
                Tally {
                    total: total as nat,
                    number: number as nat,
                    fraction,
                    part: part as nat,
                    parts: parts as nat,
                    unit: unit@,
                },
            ),
        decreases c.len() - i,
    {
        let x = c[i];
        proof {
            assert(s@.take(i + 1).drop_last() =~= s@.take(i as int));
            assert(s@.take(i + 1).last() == x);
        }
        let digit = '0' <= x && x <= '9';
        if digit && unit.len() == 0 {
            let value: u64 = (x as u8 - 48) as u64;
            if fraction {
                if parts > u64::MAX / 10 {
                    proof {
                        lemma_out_of_range_stays(s@, i + 1);
                    }
                    return false;
                }
                part = part * 10 + value;
                parts = parts * 10;
            } else {
                let next: u128 = number as u128 * 10 + value as u128;
                if next > u64::MAX as u128 {
                    proof {
                        lemma_out_of_range_stays(s@, i + 1);
                    }
                    return false;
                }
                number = next as u64;
            }
        } else if digit || unit.len() > 0 && text::is_whitespace(x) {
            let sum: u128 = total + weigh(number, part, parts, &unit);
            if sum >= END_OF_RANGE {
                proof {
                    lemma_out_of_range_stays(s@, i + 1);
                }
                return false;
            }
            total = sum;
            number = if digit {
                (x as u8 - 48) as u64
            } else {
                0
            };
            fraction = false;
            part = 0;
            parts = 1;
            unit = Vec::new();
            proof {
                assert(unit@ =~= Seq::<char>::empty());
            }
        } else if text::is_whitespace(x) {
        } else if x == '.' {
            fraction = true;
        } else {
            unit.push(x);
        }
        i += 1;
    }
    proof {
        assert(s@.take(i as int) =~= s@);
    }
    total + weigh(number, part, parts, &unit) < END_OF_RANGE
}

/// What `humantime::format_duration` displays for so many seconds and
/// nanoseconds.
pub uninterp spec fn humantime_format(secs: u64, nanos: u32) -> Seq<char>;

/// `humantime::parse_duration` reads spans such as `30s`, `1h30m` or `2m 30s`
/// and refuses anything else. What it makes of a text depends on the text alone,
/// and the nanoseconds of a `Duration` stay below a second. It adds the spans up as
/// it goes and panics where they come to the first second out of range; a text that
/// stays in range keeps clear of that, and it refuses or panics at every other.
#[verifier::external_body]
fn parse_span(text: &str) -> (r: Option<ConfigDuration>)
    requires
        in_range(text@),
    ensures
        r == humantime_parse(text@),
        r matches Some(d) ==> d.wf(),
{
    match humantime::parse_duration(text) {
        Ok(d) => Some(ConfigDuration { secs: d.as_secs(), nanos: d.subsec_nanos() }),
        Err(_) => None,
    }
}

/// `humantime::format_duration` displays a span with spaced units, such as
/// `1m 30s`. What it displays depends on the span alone.
#[verifier::external_body]
fn format_span(secs: u64, nanos: u32) -> (r: String)
    ensures
        r@ == humantime_format(secs, nanos),
{
    let span = std::time::Duration::from_secs(secs)
        .saturating_add(std::time::Duration::from_nanos(u64::from(nanos)));
    humantime::format_duration(span).to_string()
}

impl ConfigDuration {
    /// `secs` seconds and `nanos` nanoseconds.
    pub fn new(secs: u64, nanos: u32) -> (r: Self)
        requires
            nanos < 1_000_000_000,
        ensures
            r == (ConfigDuration { secs, nanos }),
            r.wf(),
    {
        ConfigDuration { secs, nanos }
    }

    pub fn from_secs(secs: u64) -> (r: Self)
        ensures
            r == (ConfigDuration { secs, nanos: 0 }),
            r.wf(),
    {
        ConfigDuration { secs, nanos: 0 }
    }

    /// The duration `text` spells, if it spells one in range.
    pub fn parse(text: &str) -> (r: Option<Self>)
        ensures
            r == span_of(text@),
            r matches Some(d) ==> d.wf(),
    {
        if sensible(text) {
            parse_span(text)
        } else {
            None
        }
    }

    pub fn as_secs(&self) -> (r: u64)
        ensures
            r == self.secs,
    {
        self.secs
    }

    /// Whole milliseconds.
    pub open spec fn millis(self) -> nat {
        (self.secs as nat) * 1000 + (self.nanos as nat) / 1_000_000
    }

    pub fn as_millis(&self) -> (r: u128)
        ensures
            r == self.millis(),
    {
        (self.secs as u128) * 1000 + ((self.nanos / 1_000_000) as u128)
    }

    pub fn is_zero(&self) -> (r: bool)
        ensures
            r == (self.secs == 0 && self.nanos == 0),
    {
        self.secs == 0 && self.nanos == 0
    }

    /// Whether this is the shorter of the two.
    pub open spec fn below(self, other: Self) -> bool {
        self.secs < other.secs || (self.secs == other.secs && self.nanos < other.nanos)
    }

    pub fn shorter_than(&self, other: &Self) -> (r: bool)
        ensures
            r == self.below(*other),
    {
        self.secs < other.secs || (self.secs == other.secs && self.nanos < other.nanos)
    }

    /// Whole seconds where the milliseconds allow it, else milliseconds.
    pub open spec fn telegraf(self) -> Seq<char> {
        if self.millis() % 1000 == 0 {
            text::decimal(self.millis() / 1000) + "s"@
        } else {
            text::decimal(self.millis()) + "ms"@
        }
    }

    /// Rendering for a Telegraf configuration file: one number, one unit.
    ///
    /// Precision below a millisecond is discarded.
    pub fn as_telegraf(&self) -> (r: String)
        ensures
            r@ == self.telegraf(),
    {
        let millis: u128 = self.as_millis();
        if millis % 1000 == 0 {
            text::cat2(&text::decimal_of(millis / 1000), "s")
        } else {
            text::cat2(&text::decimal_of(millis), "ms")
        }
    }

    /// Human-facing text, for messages.
    pub open spec fn shown(self) -> Seq<char> {
        humantime_format(self.secs, self.nanos)
    }

    /// Human-facing text, for messages. Not for Telegraf.
    pub fn display(&self) -> (r: String)
        ensures
            r@ == self.shown(),
    {
        format_span(self.secs, self.nanos)
    }
}

/// What Telegraf is given is digits followed by `s` or `ms`: never a space, which
/// Go would refuse.
pub proof fn law_telegraf_rendering_is_one_number_and_one_unit(d: ConfigDuration)
    ensures
        exists|n: nat| d.telegraf() == text::decimal(n) + "s"@ || d.telegraf() == text::decimal(n)
            + "ms"@,
        !d.telegraf().contains(' '),
{
    reveal_strlit("s");
    reveal_strlit("ms");
    let n = if d.millis() % 1000 == 0 {
        d.millis() / 1000
    } else {
        d.millis()
    };
    text::lemma_decimal_digits(n);
    assert(d.telegraf() == text::decimal(n) + "s"@ || d.telegraf() == text::decimal(n) + "ms"@);
}

/// The rendering follows the value, to the millisecond, however it was written.
pub proof fn law_equal_millis_render_identically(a: ConfigDuration, b: ConfigDuration)
    requires
        a.millis() == b.millis(),
    ensures
        a.telegraf() == b.telegraf(),
{
}

} // verus!
