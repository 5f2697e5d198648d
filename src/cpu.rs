use vstd::prelude::*;
use vstd::string::StringSliceAdditionalSpecFns;

use crate::error::SampleError;
use crate::text::{
    decimal_text, decimal_value, is_u64_text, lines, parse_u64, push_all, push_decimal,
    split_lines, split_words, string_from_bytes, text_of_bytes, words, views,
};

verus! {

/// One read of the aggregate CPU line: ticks in all accounted states, in the idle
/// state, and waiting for I/O.
#[derive(Debug, Clone, Copy, PartialEq, Eq, Structural)]
pub struct CpuCounters {
    pub total: u64,
    pub idle: u64,
    pub iowait: u64,
}

/// The counters of the first line of the CPU counter table, whose columns after the
/// label are user, nice, system, idle and iowait; `total` is the sum of the first four.
pub open spec fn cpu_counters_of(content: Seq<u8>) -> Option<CpuCounters> {
    let ls = lines(content);
    if ls.len() == 0 {
        None
    } else {
        let w = words(ls[0]);
        if w.len() < 6 || !is_u64_text(w[1]) || !is_u64_text(w[2]) || !is_u64_text(w[3])
            || !is_u64_text(w[4]) || !is_u64_text(w[5]) {
            None
        } else {
            let total = decimal_value(w[1]) + decimal_value(w[2]) + decimal_value(w[3])
                + decimal_value(w[4]);
            if total > u64::MAX {
                None
            } else {
                Some(
                    CpuCounters {
                        total: total as u64,
                        idle: decimal_value(w[4]) as u64,
                        iowait: decimal_value(w[5]) as u64,
                    },
                )
            }
        }
    }
}

/// Parses the CPU counter table; fails with `Parse` when its first line lacks a counter.
pub fn parse_cpu_counters(content: &str) -> (r: Result<CpuCounters, SampleError>)
    ensures
        r == (match cpu_counters_of(content.spec_bytes()) {
            Some(c) => Ok::<CpuCounters, SampleError>(c),
            None => Err(SampleError::Parse),
        }),
{
    let ls = split_lines(content.as_bytes());
    if ls.len() == 0 {
        return Err(SampleError::Parse);
    }
    let w = split_words(ls[0].as_slice());
    assert(views(ls@)[0] == ls@[0]@);
    if w.len() < 6 {
        return Err(SampleError::Parse);
    }
    assert(views(w@)[1] == w@[1]@ && views(w@)[2] == w@[2]@ && views(w@)[3] == w@[3]@);
    assert(views(w@)[4] == w@[4]@ && views(w@)[5] == w@[5]@);
    let user = match parse_u64(w[1].as_slice()) {
        Some(v) => v,
        None => return Err(SampleError::Parse),
    };
    let nice = match parse_u64(w[2].as_slice()) {
        Some(v) => v,
        None => return Err(SampleError::Parse),
    };
    let system = match parse_u64(w[3].as_slice()) {
        Some(v) => v,
        None => return Err(SampleError::Parse),
    };
    let idle = match parse_u64(w[4].as_slice()) {
        Some(v) => v,
        None => return Err(SampleError::Parse),
    };
    let iowait = match parse_u64(w[5].as_slice()) {
        Some(v) => v,
        None => return Err(SampleError::Parse),
    };
    let total = match user.checked_add(nice) {
        Some(a) => match a.checked_add(system) {
            Some(b) => b.checked_add(idle),
            None => None,
        },
        None => None,
    };
    match total {
        Some(t) => Ok(CpuCounters { total: t, idle, iowait }),
        None => Err(SampleError::Parse),
    }
}

/// The tick deltas between two reads: busy and total ticks, and ticks waiting for I/O.
/// The busy share is `busy_ticks / total_ticks`; the I/O-wait share is
/// `iowait_ticks / (total_ticks + iowait_ticks)`.
#[derive(Debug, Clone, Copy, PartialEq, Eq, Structural)]
pub struct CpuRate {
    pub busy_ticks: u64,
    pub total_ticks: u64,
    pub iowait_ticks: u64,
}

impl CpuRate {
    pub open spec fn wf(self) -> bool {
        0 < self.total_ticks && self.busy_ticks <= self.total_ticks
    }

    /// Busy share in hundredths of a percent, rounded half up.
    pub open spec fn busy_hundredths_spec(self) -> int {
        (20000 * self.busy_ticks + self.total_ticks) / (2 * self.total_ticks as int)
    }

    /// I/O-wait share in hundredths of a percent, rounded half up.
    pub open spec fn iowait_hundredths_spec(self) -> int {
        let d = self.total_ticks + self.iowait_ticks;
        (20000 * self.iowait_ticks + d) / (2 * d)
    }

    pub fn busy_hundredths(&self) -> (r: u64)
        requires
            self.wf(),
        ensures
            r == self.busy_hundredths_spec(),
            r <= 10000,
    {
        let n: u128 = 20000u128 * (self.busy_ticks as u128) + (self.total_ticks as u128);
        let d: u128 = 2u128 * (self.total_ticks as u128);
        proof {
            lemma_rounded_share_bounded(self.busy_ticks as int, self.total_ticks as int);
        }
        (n / d) as u64
    }

    pub fn iowait_hundredths(&self) -> (r: u64)
        requires
            self.wf(),
        ensures
            r == self.iowait_hundredths_spec(),
            r <= 10000,
    {
        let total: u128 = (self.total_ticks as u128) + (self.iowait_ticks as u128);
        let n: u128 = 20000u128 * (self.iowait_ticks as u128) + total;
        let d: u128 = 2u128 * total;
        proof {
            lemma_rounded_share_bounded(self.iowait_ticks as int, total as int);
        }
        (n / d) as u64
    }
}

proof fn lemma_rounded_share_bounded(part: int, whole: int)
    requires
        0 <= part <= whole,
        0 < whole,
    ensures
        0 <= (20000 * part + whole) / (2 * whole) <= 10000,
{
    assert(20000 * part + whole < 2 * whole * 10001) by (nonlinear_arith)
        requires
            0 <= part <= whole,
            0 < whole,
    ;
    assert((20000 * part + whole) / (2 * whole) < 10001) by (nonlinear_arith)
        requires
            20000 * part + whole < 2 * whole * 10001,
            0 < whole,
    ;
    assert(0 <= (20000 * part + whole) / (2 * whole)) by (nonlinear_arith)
        requires
            0 <= part,
            0 < whole,
    ;
}

/// Whether two reads, taken in this order, form a usable interval: total ticks
/// advanced and no counter went backwards.
pub open spec fn is_valid_interval(first: CpuCounters, second: CpuCounters) -> bool {
    first.total < second.total && first.idle <= second.idle && first.iowait <= second.iowait
        && second.idle - first.idle <= second.total - first.total
}

pub open spec fn rate_of(first: CpuCounters, second: CpuCounters) -> CpuRate {
    CpuRate {
        busy_ticks: ((second.total - first.total) - (second.idle - first.idle)) as u64,
        total_ticks: (second.total - first.total) as u64,
        iowait_ticks: (second.iowait - first.iowait) as u64,
    }
}

/// The rate between two reads; fails with `Delta` when total ticks did not advance or
/// a counter went backwards.
pub fn cpu_rate(first: &CpuCounters, second: &CpuCounters) -> (r: Result<CpuRate, SampleError>)
    ensures
        is_valid_interval(*first, *second) ==> r == Ok::<CpuRate, SampleError>(
            rate_of(*first, *second),
        ),
        !is_valid_interval(*first, *second) ==> r == Err::<CpuRate, SampleError>(
            SampleError::Delta,
        ),
        r is Ok ==> r->Ok_0.wf(),
{
    if second.total <= first.total || second.idle < first.idle || second.iowait < first.iowait {
        return Err(SampleError::Delta);
    }
    let total_ticks = second.total - first.total;
    let idle_ticks = second.idle - first.idle;
    if idle_ticks > total_ticks {
        return Err(SampleError::Delta);
    }
    Ok(
        CpuRate {
            busy_ticks: total_ticks - idle_ticks,
            total_ticks,
            iowait_ticks: second.iowait - first.iowait,
        },
    )
}

/// A share given in hundredths of a percent, written with two decimal places.
pub open spec fn percent_text(hundredths: nat) -> Seq<u8> {
    decimal_text(hundredths / 100) + seq![46u8, (48 + hundredths % 100 / 10) as u8, (48
        + hundredths % 10) as u8]
}

/// The body of the on-demand CPU report: `My CPU Usage: <busy percent>%` and a newline.
pub open spec fn usage_report(rate: CpuRate) -> Seq<u8> {
    "My CPU Usage: ".spec_bytes() + percent_text(rate.busy_hundredths_spec() as nat)
        + "%\n".spec_bytes()
}

/// Writes a share given in hundredths of a percent with two decimal places.
pub fn push_percent(out: &mut Vec<u8>, hundredths: u64)
    ensures
        final(out)@ == old(out)@ + percent_text(hundredths as nat),
{
    push_decimal(out, hundredths / 100);
    out.push(46u8);
    out.push((48 + hundredths % 100 / 10) as u8);
    out.push((48 + hundredths % 10) as u8);
    assert(out@ =~= old(out)@ + percent_text(hundredths as nat));
}

/// The on-demand CPU report for one rate.
pub fn cpu_usage_text(rate: &CpuRate) -> (r: String)
    requires
        rate.wf(),
    ensures
        r@ == text_of_bytes(usage_report(*rate)),
{
    let mut out: Vec<u8> = Vec::new();
    push_all(&mut out, "My CPU Usage: ".as_bytes());
    push_percent(&mut out, rate.busy_hundredths());
    push_all(&mut out, "%\n".as_bytes());
    assert(out@ =~= usage_report(*rate));
    string_from_bytes(out.as_slice())
}

/// Between two valid reads the busy share lies between 0 and 100 percent, and so does
/// its rounded value in hundredths of a percent.
pub proof fn lemma_busy_share_bounded(first: CpuCounters, second: CpuCounters)
    requires
        is_valid_interval(first, second),
    ensures
        rate_of(first, second).wf(),
        0 <= rate_of(first, second).busy_ticks <= rate_of(first, second).total_ticks,
        0 <= rate_of(first, second).busy_hundredths_spec() <= 10000,
{
    let r = rate_of(first, second);
    lemma_rounded_share_bounded(r.busy_ticks as int, r.total_ticks as int);
}

/// A sample whose total ticks did not advance is a `Delta` failure.
pub proof fn lemma_stalled_counters_fail(first: CpuCounters, second: CpuCounters)
    requires
        first.total == second.total,
    ensures
        !is_valid_interval(first, second),
{
}

} // verus!
