//! Points in time and spans of time, as plain numbers.

use vstd::prelude::*;

use crate::text;

verus! {

/// A point in time: nanoseconds on a clock that never runs backwards, counted from the moment
/// at which the process set it up.
#[derive(Clone, Copy, Debug, PartialEq, Eq, Structural)]
pub struct Instant {
    pub nanos: u64,
}

/// A span of time: whole seconds and the nanoseconds beyond them.
#[derive(Clone, Copy, Debug, PartialEq, Eq, Structural)]
pub struct Duration {
    pub secs: u64,
    pub subsec_nanos: u32,
}

impl Instant {
    /// Nanoseconds from `earlier` to this point, and none where `earlier` is later.
    pub open spec fn nanos_since(self, earlier: Instant) -> int {
        if self.nanos >= earlier.nanos {
            self.nanos - earlier.nanos
        } else {
            0
        }
    }

    /// Nanoseconds from `earlier` to this point, and none where `earlier` is later.
    pub fn elapsed_nanos(self, earlier: Instant) -> (nanos: u64)
        ensures
            nanos == self.nanos_since(earlier),
    {
        if self.nanos >= earlier.nanos {
            self.nanos - earlier.nanos
        } else {
            0
        }
    }
}

impl Duration {
    /// The nanoseconds beyond the whole seconds make less than a second.
    pub open spec fn wf(self) -> bool {
        self.subsec_nanos < 1_000_000_000
    }

    /// The span in nanoseconds.
    pub open spec fn total_nanos(self) -> int {
        self.secs * 1_000_000_000 + self.subsec_nanos
    }

    /// A span of whole seconds.
    pub fn from_secs(secs: u64) -> (d: Duration)
        ensures
            d == (Duration { secs, subsec_nanos: 0 }),
            d.wf(),
    {
        Duration { secs, subsec_nanos: 0 }
    }

    /// A span of whole milliseconds.
    pub open spec fn of_millis(millis: u64) -> Duration {
        Duration { secs: millis / 1000, subsec_nanos: ((millis % 1000) * 1_000_000) as u32 }
    }

    /// A span of whole milliseconds.
    pub fn from_millis(millis: u64) -> (d: Duration)
        ensures
            d == Duration::of_millis(millis),
            d.total_nanos() == millis * 1_000_000,
            d.wf(),
    {
        Duration { secs: millis / 1000, subsec_nanos: ((millis % 1000) as u32) * 1_000_000 }
    }

    /// The whole seconds of the span.
    pub fn as_secs(self) -> (secs: u64)
        ensures
            secs == self.secs,
    {
        self.secs
    }

    /// The span in nanoseconds.
    pub fn as_nanos(self) -> (nanos: u128)
        ensures
            nanos == self.total_nanos(),
    {
        self.secs as u128 * 1_000_000_000 + self.subsec_nanos as u128
    }

    /// The span as people read it: a number in the largest unit of which it holds one, with the
    /// decimals that it needs, and the unit.
    pub open spec fn readable(self) -> Seq<char> {
        let rest = self.subsec_nanos as nat;
        if self.secs > 0 {
            text::decimal(self.secs as nat) + fraction(rest, 9) + "s"@
        } else if rest >= 1_000_000 {
            text::decimal(rest / 1_000_000) + fraction(rest % 1_000_000, 6) + "ms"@
        } else if rest >= 1000 {
            text::decimal(rest / 1000) + fraction(rest % 1000, 3) + "µs"@
        } else {
            text::decimal(rest) + fraction(0, 0) + "ns"@
        }
    }

    /// Writes the span as people read it.
    pub fn readable_text(self) -> (s: String)
        ensures
            s@ == self.readable(),
    {
        let rest: u32 = self.subsec_nanos;
        if self.secs > 0 {
            with_unit(self.secs, rest, 9, "s")
        } else if rest >= 1_000_000 {
            with_unit((rest / 1_000_000) as u64, rest % 1_000_000, 6, "ms")
        } else if rest >= 1000 {
            with_unit((rest / 1000) as u64, rest % 1000, 3, "µs")
        } else {
            with_unit(rest as u64, 0, 0, "ns")
        }
    }
}

/// The last `width` decimal digits of `n`, zeros in front where it has fewer.
pub open spec fn padded(n: nat, width: nat) -> Seq<char>
    decreases width,
{
    if width == 0 {
        Seq::empty()
    } else {
        padded(n / 10, (width - 1) as nat).push(text::digit(n % 10))
    }
}

/// The decimals of `n / 10^width`, without the zeros at their end.
pub open spec fn decimals(n: nat, width: nat) -> Seq<char>
    decreases width,
{
    if width > 0 && n % 10 == 0 {
        decimals(n / 10, (width - 1) as nat)
    } else {
        padded(n, width)
    }
}

/// The part from the decimal point on of `n / 10^width`: nothing where there are no decimals.
pub open spec fn fraction(n: nat, width: nat) -> Seq<char> {
    if n == 0 {
        Seq::empty()
    } else {
        "."@ + decimals(n, width)
    }
}

fn push_padded(s: &mut String, n: u32, width: u32)
    ensures
        final(s)@ == old(s)@ + padded(n as nat, width as nat),
    decreases width,
{
    if width > 0 {
        push_padded(s, n / 10, width - 1);
        let d: u8 = (n % 10) as u8;
        s.push((d + 48) as char);
    }
    proof {
        assert(s@ =~= old(s)@ + padded(n as nat, width as nat));
    }
}

fn push_decimals(s: &mut String, n: u32, width: u32)
    ensures
        final(s)@ == old(s)@ + decimals(n as nat, width as nat),
    decreases width,
{
    if width > 0 && n % 10 == 0 {
        push_decimals(s, n / 10, width - 1);
    } else {
        push_padded(s, n, width);
    }
}

fn with_unit(whole: u64, rest: u32, width: u32, unit: &str) -> (s: String)
    ensures
        s@ == text::decimal(whole as nat) + fraction(rest as nat, width as nat) + unit@,
{
    let mut s = text::decimal_text(whole);
    if rest > 0 {
        s.append(".");
        push_decimals(&mut s, rest, width);
    }
    proof {
        assert(s@ =~= text::decimal(whole as nat) + fraction(rest as nat, width as nat));
    }
    s.append(unit);
    s
}

// ---------------------------------------------------------------------------
// Laws
// ---------------------------------------------------------------------------

/// Between two points lie as many nanoseconds as the later reading exceeds the earlier one.
pub proof fn law_time_between_points(earlier: Instant, later: Instant)
    requires
        earlier.nanos <= later.nanos,
    ensures
        earlier.nanos + later.nanos_since(earlier) == later.nanos,
        earlier.nanos < later.nanos ==> earlier.nanos_since(later) == 0,
{
}

/// A number of milliseconds is kept whole: the seconds and the rest make it up again.
pub proof fn law_milliseconds_are_kept(millis: u64)
    ensures
        1000 * Duration::of_millis(millis).secs + Duration::of_millis(millis).subsec_nanos
            / 1_000_000 == millis,
        Duration::of_millis(millis).subsec_nanos % 1_000_000 == 0,
        Duration::of_millis(millis).subsec_nanos < 1_000_000_000,
{
}

/// A span is as many nanoseconds as its seconds and its rest make.
pub proof fn law_a_second_has_a_billion_nanoseconds(d: Duration)
    ensures
        d.total_nanos() == 1_000_000_000 * d.secs + d.subsec_nanos,
        d.wf() <==> d.subsec_nanos < 1_000_000_000,
{
}

proof fn lemma_padded(n: nat, width: nat)
    requires
        n < vstd::arithmetic::power::pow(10, width),
    ensures
        padded(n, width).len() == width,
        text::all_digits(padded(n, width)),
        text::number(padded(n, width)) == n,
    decreases width,
{
    if width == 0 {
        vstd::arithmetic::power::lemma_pow0(10);
    } else {
        let less = (width - 1) as nat;
        vstd::arithmetic::power::lemma_pow1(10);
        vstd::arithmetic::power::lemma_pow_adds(10, 1, less);
        assert(n / 10 < vstd::arithmetic::power::pow(10, less));
        lemma_padded(n / 10, less);
        assert(padded(n, width).drop_last() =~= padded(n / 10, less));
        assert forall|i: int| 0 <= i < width implies '0' <= #[trigger] padded(n, width)[i]
            && padded(n, width)[i] <= '9' by {
            if i < less {
                assert(padded(n, width)[i] == padded(n / 10, less)[i]);
            }
        }
    }
}

/// The decimals of a number below `10^width` are digits that stand for it, without a zero at
/// their end.
pub proof fn law_decimals_stand_for_the_rest(n: nat, width: nat)
    requires
        0 < n < vstd::arithmetic::power::pow(10, width),
    ensures
        0 < decimals(n, width).len() <= width,
        text::all_digits(decimals(n, width)),
        decimals(n, width).last() != '0',
        text::number(decimals(n, width)) * vstd::arithmetic::power::pow(
            10,
            (width - decimals(n, width).len()) as nat,
        ) == n,
    decreases width,
{
    vstd::arithmetic::power::lemma_pow0(10);
    if width > 0 && n % 10 == 0 {
        let less = (width - 1) as nat;
        vstd::arithmetic::power::lemma_pow1(10);
        vstd::arithmetic::power::lemma_pow_adds(10, 1, less);
        law_decimals_stand_for_the_rest(n / 10, less);
        let digits = decimals(n, width);
        let left = (less - digits.len()) as nat;
        vstd::arithmetic::power::lemma_pow_adds(10, 1, left);
        let power = vstd::arithmetic::power::pow(10, left);
        assert(text::number(digits) * (10 * power) == 10 * (text::number(digits) * power))
            by (nonlinear_arith);
    } else {
        lemma_padded(n, width);
        assert(padded(n, width).last() == text::digit(n % 10));
        let digits = decimals(n, width);
        assert(text::number(digits) * 1 == text::number(digits));
    }
}

/// A span reads in the largest unit of which it holds one: whole units, then a point and the
/// decimals where it is no whole number of them, then the unit.
pub proof fn law_spans_read_in_their_largest_unit(d: Duration)
    requires
        d.subsec_nanos < 1_000_000_000,
    ensures
        ({
            let rest = d.subsec_nanos as nat;
            &&& d.secs > 0 && rest == 0 ==> d.readable() == text::decimal(d.secs as nat) + "s"@
            &&& d.secs > 0 && rest > 0 ==> d.readable() == text::decimal(d.secs as nat) + "."@
                + decimals(rest, 9) + "s"@
            &&& d.secs == 0 && rest >= 1_000_000 && rest % 1_000_000 == 0 ==> d.readable()
                == text::decimal(rest / 1_000_000) + "ms"@
            &&& d.secs == 0 && rest >= 1_000_000 && rest % 1_000_000 > 0 ==> d.readable()
                == text::decimal(rest / 1_000_000) + "."@ + decimals(rest % 1_000_000, 6) + "ms"@
            &&& d.secs == 0 && 1000 <= rest < 1_000_000 && rest % 1000 == 0 ==> d.readable()
                == text::decimal(rest / 1000) + "µs"@
            &&& d.secs == 0 && 1000 <= rest < 1_000_000 && rest % 1000 > 0 ==> d.readable()
                == text::decimal(rest / 1000) + "."@ + decimals(rest % 1000, 3) + "µs"@
            &&& d.secs == 0 && rest < 1000 ==> d.readable() == text::decimal(rest) + "ns"@
        }),
{
    let rest = d.subsec_nanos as nat;
    let whole = text::decimal(d.secs as nat);
    assert(whole + Seq::<char>::empty() =~= whole);
    assert(text::decimal(rest / 1_000_000) + Seq::<char>::empty() =~= text::decimal(
        rest / 1_000_000,
    ));
    assert(text::decimal(rest / 1000) + Seq::<char>::empty() =~= text::decimal(rest / 1000));
    assert(text::decimal(rest) + Seq::<char>::empty() =~= text::decimal(rest));
    let tail = decimals(rest, 9);
    assert(whole + ("."@ + tail) =~= whole + "."@ + tail);
    let millis = text::decimal(rest / 1_000_000);
    let tail = decimals(rest % 1_000_000, 6);
    assert(millis + ("."@ + tail) =~= millis + "."@ + tail);
    let micros = text::decimal(rest / 1000);
    let tail = decimals(rest % 1000, 3);
    assert(micros + ("."@ + tail) =~= micros + "."@ + tail);
}

} // verus!
