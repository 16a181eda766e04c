//! Live CPU / memory / network readouts for the panels of the interface.
//!
//! Network bars are drawn relative to the highest throughput seen so far in this
//! session.

use crate::binary64::{number, order_of_positive_bits, Binary64, ONE};
use crate::text::{chars_of, found_at, lower, lower_chars, lowered, stands_at};
use vstd::prelude::*;

verus! {

/// A reading is good for this many milliseconds.
pub const MIN_INTERVAL_MS: u64 = 2011;

pub const UNITS: [&'static str; 5] = ["kb/s", "mb/s", "gb/s", "tb/s", "Zb/s"];

/// 0.1
pub const TENTH: u64 = 0x3fb9_9999_9999_999a;

/// 10.0
pub const TEN: u64 = 0x4024_0000_0000_0000;

/// 100.0
pub const HUNDRED: u64 = 0x4059_0000_0000_0000;

/// 1000.0
pub const THOUSAND: u64 = 0x408f_4000_0000_0000;

/// A data rate as the panels show it.
#[derive(Clone, Debug)]
pub struct Rate {
    pub value: String,
    pub unit: &'static str,
}

/// One reading of everything the panels show.
#[derive(Clone, Debug)]
pub struct Snapshot {
    pub cpu_current_load_percentage: Binary64,
    pub mem_used_percentage: Binary64,
    pub rx_sec_percentage: Binary64,
    pub tx_sec_percentage: Binary64,
    pub rx_sec_bytes: Rate,
    pub tx_sec_bytes: Rate,
    pub time: u64,
}

/// What to do with a rate that is to be shown in one of the [`UNITS`].
#[derive(Clone, Copy, Debug, PartialEq, Eq, Structural)]
pub enum RateStep {
    /// Too large: divide by a thousand and take the next unit.
    Divide,
    /// Too large for every unit.
    Saturated,
    /// Write it with this many decimals.
    Format(usize),
}

/// The step for a rate in a unit: three digits fit, and the last unit is not
/// counted in.
pub open spec fn step_for(value: Binary64, unit: int) -> RateStep {
    if unit >= UNITS@.len() - 1 {
        RateStep::Saturated
    } else if !value.is_nan() && value.scaled() >= number(THOUSAND).scaled() {
        RateStep::Divide
    } else if value.below(number(ONE)) {
        RateStep::Format(3)
    } else if value.below(number(TEN)) {
        RateStep::Format(2)
    } else if value.below(number(HUNDRED)) {
        RateStep::Format(1)
    } else {
        RateStep::Format(0)
    }
}

pub fn rate_step(value: Binary64, unit: usize) -> (step: RateStep)
    ensures
        step == step_for(value, unit as int),
{
    if unit >= 4 {
        RateStep::Saturated
    } else if value.at_least(Binary64 { bits: THOUSAND }) {
        RateStep::Divide
    } else if value.less_than(Binary64 { bits: ONE }) {
        RateStep::Format(3)
    } else if value.less_than(Binary64 { bits: TEN }) {
        RateStep::Format(2)
    } else if value.less_than(Binary64 { bits: HUNDRED }) {
        RateStep::Format(1)
    } else {
        RateStep::Format(0)
    }
}

/// The rate that was written with these digits, or the one beyond every unit.
pub fn to_rate(digits: Option<String>, unit: usize) -> (rate: Rate)
    requires
        unit < UNITS@.len(),
    ensures
        rate.unit@ == UNITS@[unit as int]@,
        rate.value@ == (match digits {
            Some(digits) => digits@,
            None => "999"@,
        }),
{
    Rate {
        value: match digits {
            Some(digits) => digits,
            None => "999".to_owned(),
        },
        unit: UNITS[unit],
    }
}

/// A rate goes through every unit at most once: the last one ends the division.
pub proof fn division_ends(value: Binary64)
    ensures
        step_for(value, UNITS@.len() - 1) == RateStep::Saturated,
        forall|unit: int|
            0 <= unit && step_for(value, unit) == RateStep::Divide ==> unit < UNITS@.len() - 1,
{
}

/// Whether a reading taken so many milliseconds ago is still good.
pub open spec fn is_recent(since_last: Option<u64>) -> bool {
    since_last matches Some(since) && since < MIN_INTERVAL_MS
}

/// A reading is good for two seconds and eleven milliseconds, and only once there was
/// one.
pub proof fn readings_grow_old(since: u64)
    ensures
        is_recent(Some(since)) <==> since < 2011,
        !is_recent(None),
{
}

/// The readings of this session.
pub struct Stats {
    pub peak_rx: Binary64,
    pub peak_tx: Binary64,
    pub cached: Option<Snapshot>,
}

/// The larger of two peaks; a rate that is not a number is none.
pub open spec fn raised(peak: Binary64, rate: Binary64) -> Binary64 {
    if peak.below(rate) {
        rate
    } else {
        peak
    }
}

/// The time to divide by: a tenth of a second at least, and a whole one for the
/// first reading.
pub open spec fn span_of(seconds: Option<Binary64>) -> Binary64 {
    match seconds {
        Some(seconds) => if !seconds.is_nan() && seconds.scaled() >= number(TENTH).scaled() {
            seconds
        } else {
            number(TENTH)
        },
        None => number(ONE),
    }
}

pub fn elapsed_span(seconds: Option<Binary64>) -> (span: Binary64)
    ensures
        span == span_of(seconds),
{
    match seconds {
        Some(seconds) => if seconds.at_least(Binary64 { bits: TENTH }) {
            seconds
        } else {
            Binary64 { bits: TENTH }
        },
        None => Binary64 { bits: ONE },
    }
}

impl Stats {
    pub fn new() -> (stats: Stats)
        ensures
            stats.peak_rx == number(ONE),
            stats.peak_tx == number(ONE),
            stats.cached is None,
    {
        Stats {
            peak_rx: Binary64 { bits: ONE },
            peak_tx: Binary64 { bits: ONE },
            cached: None,
        }
    }

    /// The reading to hand out again, given how many milliseconds ago it was taken:
    /// the last one while it is recent enough, and none otherwise.
    pub fn read(&self, since_last: Option<u64>) -> (recent: Option<&Snapshot>)
        ensures
            recent == (match (since_last, self.cached) {
                (Some(since), Some(cached)) => if since < MIN_INTERVAL_MS {
                    Some(&cached)
                } else {
                    None
                },
                _ => None,
            }),
            recent is Some <==> self.cached is Some && is_recent(since_last),
    {
        match since_last {
            Some(since) => if since < MIN_INTERVAL_MS {
                self.cached.as_ref()
            } else {
                None
            },
            None => None,
        }
    }

    /// Notes how much came in and went out, and raises the peaks to it.
    pub fn note(&mut self, rx: Binary64, tx: Binary64)
        ensures
            final(self).peak_rx == raised(old(self).peak_rx, rx),
            final(self).peak_tx == raised(old(self).peak_tx, tx),
            final(self).cached == old(self).cached,
    {
        if self.peak_rx.less_than(rx) {
            self.peak_rx = rx;
        }
        if self.peak_tx.less_than(tx) {
            self.peak_tx = tx;
        }
    }

    /// Keeps a reading for those who ask soon after.
    pub fn remember(&mut self, snapshot: Snapshot)
        ensures
            final(self).cached == Some(snapshot),
            final(self).peak_rx == old(self).peak_rx,
            final(self).peak_tx == old(self).peak_tx,
    {
        self.cached = Some(snapshot);
    }
}

/// A peak never falls, and no rate that was noted lies above it.
pub proof fn peaks_only_rise(peak: Binary64, rate: Binary64)
    requires
        !peak.is_nan(),
        !rate.is_nan(),
    ensures
        !raised(peak, rate).is_nan(),
        raised(peak, rate).scaled() >= peak.scaled(),
        raised(peak, rate).scaled() >= rate.scaled(),
{
}

/// The peak once some rates were noted, one after the other.
pub open spec fn peak_after(peak: Binary64, rates: Seq<Binary64>) -> Binary64
    decreases rates.len(),
{
    if rates.len() == 0 {
        peak
    } else {
        raised(peak_after(peak, rates.drop_last()), rates.last())
    }
}

/// After any number of notes, the peak is the highest throughput of the session: it
/// is 1.0 or one of the rates noted, and neither 1.0 nor any of the rates lies above
/// it.
pub proof fn peak_is_the_highest_of_the_session(rates: Seq<Binary64>)
    ensures
        ({
            let peak = peak_after(number(ONE), rates);
            &&& !peak.is_nan()
            &&& peak == number(ONE) || rates.contains(peak)
            &&& peak.scaled() >= number(ONE).scaled()
            &&& forall|i: int|
                0 <= i < rates.len() && !(#[trigger] rates[i]).is_nan() ==> peak.scaled()
                    >= rates[i].scaled()
        }),
    decreases rates.len(),
{
    if rates.len() > 0 {
        let before = rates.drop_last();
        let (lower, peak) = (peak_after(number(ONE), before), peak_after(number(ONE), rates));
        peak_is_the_highest_of_the_session(before);
        if before.contains(lower) {
            let i = choose|i: int| 0 <= i < before.len() && before[i] == lower;
            assert(rates[i] == lower);
        }
        assert(rates[rates.len() - 1] == rates.last());
        assert forall|i: int| 0 <= i < rates.len() && !(
        #[trigger] rates[i]).is_nan() implies peak.scaled() >= rates[i].scaled() by {
            if i < before.len() {
                assert(before[i] == rates[i]);
            }
        }
    }
}

/// Whether a network interface only leads back to this machine.
pub open spec fn loopback(name: Seq<char>) -> bool {
    ||| exists|at: int| #[trigger] stands_at(lowered(name), "loopback"@, at)
    ||| stands_at(lowered(name), "lo"@, 0)
}

pub fn is_loopback(name: &str) -> (is: bool)
    ensures
        is == loopback(name@),
{
    let chars = lower_chars(name);
    let whole = chars_of("loopback");
    let start = chars_of("lo");
    if found_at(&chars, &start, 0) {
        return true;
    }
    let mut i: usize = 0;
    while i < chars.len()
        invariant
            i <= chars@.len(),
            chars@ == lowered(name@),
            whole@ == "loopback"@,
            forall|at: int| 0 <= at < i ==> ! #[trigger] stands_at(lowered(name@), whole@, at),
        decreases chars@.len() - i,
    {
        if found_at(&chars, &whole, i) {
            return true;
        }
        i += 1;
    }
    proof {
        reveal_strlit("loopback");
        assert forall|at: int| ! #[trigger] stands_at(lowered(name@), "loopback"@, at) by {
            assert("loopback"@.len() == 8);
            if 0 <= at < i {
                assert(!stands_at(lowered(name@), whole@, at));
            }
        }
    }
    false
}


/// Below the last unit a rate of a thousand or more is divided, and any smaller one is
/// written with three digits: three decimals below one, two below ten, one below a
/// hundred and none from there on.
pub proof fn rates_have_three_digits(value: Binary64, unit: int)
    requires
        0 <= unit < 4,
        !value.is_nan(),
    ensures
        ({
            let (one, ten) = (number(0x3ff0_0000_0000_0000), number(0x4024_0000_0000_0000));
            let (hundred, thousand) = (
                number(0x4059_0000_0000_0000),
                number(0x408f_4000_0000_0000),
            );
            &&& value.scaled() >= thousand.scaled() <==> step_for(value, unit) == RateStep::Divide
            &&& value.scaled() < one.scaled() <==> step_for(value, unit) == RateStep::Format(3)
            &&& one.scaled() <= value.scaled() < ten.scaled() <==> step_for(value, unit)
                == RateStep::Format(2)
            &&& ten.scaled() <= value.scaled() < hundred.scaled() <==> step_for(value, unit)
                == RateStep::Format(1)
            &&& hundred.scaled() <= value.scaled() < thousand.scaled() <==> step_for(value, unit)
                == RateStep::Format(0)
        }),
{
    order_of_positive_bits(ONE, TEN);
    order_of_positive_bits(TEN, HUNDRED);
    order_of_positive_bits(HUNDRED, THOUSAND);
    assert(!number(ONE).is_nan() && !number(TEN).is_nan() && !number(HUNDRED).is_nan());
}

/// What is divided by is the time that passed, but never less than a tenth of a
/// second, and a whole second before anything passed.
pub proof fn spans_are_a_tenth_at_least(seconds: Binary64)
    requires
        !seconds.is_nan(),
    ensures
        ({
            let tenth = number(0x3fb9_9999_9999_999a);
            &&& seconds.scaled() >= tenth.scaled() ==> span_of(Some(seconds)) == seconds
            &&& seconds.scaled() < tenth.scaled() ==> span_of(Some(seconds)) == tenth
            &&& span_of(None) == number(0x3ff0_0000_0000_0000)
        }),
{
}

/// What is no number is written without decimals, and no time to divide by.
pub proof fn no_numbers_are_taken_as_they_come(value: Binary64, unit: int)
    requires
        value.is_nan(),
        0 <= unit < 4,
    ensures
        step_for(value, unit) == RateStep::Format(0),
        span_of(Some(value)) == number(0x3fb9_9999_9999_999a),
{
}

/// A peak is raised to a higher rate and kept before any other.
pub proof fn peaks_are_raised_to_the_rate(peak: Binary64, rate: Binary64)
    ensures
        !peak.is_nan() && !rate.is_nan() && rate.scaled() > peak.scaled() ==> raised(peak, rate)
            == rate,
        peak.is_nan() || rate.is_nan() || rate.scaled() <= peak.scaled() ==> raised(peak, rate)
            == peak,
{
}

/// A name is a loopback's wherever it starts with the two letters or holds the word,
/// in whatever case, and nowhere else.
pub proof fn loopback_is_known_by_its_name(name: Seq<char>, at: int)
    ensures
        name.len() >= 2 && lower(name[0]) == 'l' && lower(name[1]) == 'o' ==> loopback(name),
        0 <= at <= name.len() - 8 && (forall|i: int|
            0 <= i < 8 ==> lower(#[trigger] name[at + i]) == "loopback"@[i]) ==> loopback(name),
{
    reveal_strlit("lo");
    reveal_strlit("loopback");
    let small = lowered(name);
    if name.len() >= 2 && lower(name[0]) == 'l' && lower(name[1]) == 'o' {
        assert(small.subrange(0, 2) =~= "lo"@);
        assert(stands_at(small, "lo"@, 0));
    }
    if 0 <= at <= name.len() - 8 && (forall|i: int|
        0 <= i < 8 ==> lower(#[trigger] name[at + i]) == "loopback"@[i]) {
        let part = small.subrange(at, at + 8);
        assert forall|i: int| 0 <= i < 8 implies part[i] == "loopback"@[i] by {
            assert(lower(name[at + i]) == "loopback"@[i]);
        }
        assert(part =~= "loopback"@);
        assert(stands_at(small, "loopback"@, at));
    }
}

/// A loopback's name starts with the two letters or holds the word.
pub proof fn other_names_are_no_loopback(name: Seq<char>) -> (at: int)
    requires
        loopback(name),
    ensures
        ({
            ||| name.len() >= 2 && lower(name[0]) == 'l' && lower(name[1]) == 'o'
            ||| 0 <= at <= name.len() - 8 && forall|i: int|
                0 <= i < 8 ==> lower(#[trigger] name[at + i]) == "loopback"@[i]
        }),
{
    reveal_strlit("lo");
    reveal_strlit("loopback");
    let small = lowered(name);
    if stands_at(small, "lo"@, 0) {
        let part = small.subrange(0, 2);
        assert(part[0] == 'l' && part[1] == 'o');
        0
    } else {
        let at = choose|at: int| #[trigger] stands_at(small, "loopback"@, at);
        let part = small.subrange(at, at + 8);
        assert forall|i: int| 0 <= i < 8 implies lower(#[trigger] name[at + i])
            == "loopback"@[i] by {
            assert(part[i] == "loopback"@[i]);
        }
        at
    }
}

} // verus!
