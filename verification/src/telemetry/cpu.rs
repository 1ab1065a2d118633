//! `/proc/stat` and `/proc/loadavg` parsing and CPU utilization.
use vstd::prelude::*;

use crate::protocol::{CpuTelemetry, TelemetryAvailability};
use crate::text::{
    all_digits, all_digits_exec, chars_of, copy_range, decimal_value, eq_str, lines,
    parse_unsigned, parse_unsigned_spec, split_ascii_whitespace, split_lines, split_once,
    split_once_spec, starts_with_str, tokens, views,
};

verus! {

#[derive(Debug, Clone, Copy, PartialEq, Eq, Structural)]
pub struct CpuCounters {
    pub busy_ticks: u64,
    pub idle_ticks: u64,
    pub total_ticks: u64,
    pub logical_cpu_count: u16,
}

#[derive(Debug, Clone, Copy, PartialEq, Eq, Structural)]
pub struct LoadAverages {
    pub one_milli: u32,
    pub five_milli: u32,
    pub fifteen_milli: u32,
}

#[derive(Debug, Clone, Copy, PartialEq, Eq, Structural)]
pub enum CpuParseError {
    MissingAggregate,
    MissingLogicalCpu,
    TruncatedAggregate,
    InvalidCounter,
    CounterOverflow,
    CpuCountOverflow,
    TruncatedLoadAverage,
    InvalidLoadAverage,
    LoadAverageOverflow,
}

impl CpuParseError {
    /// The human-readable description of the error.
    pub fn message(&self) -> (m: &'static str)
        ensures
            m@ == (match *self {
            CpuParseError::MissingAggregate => "/proc/stat does not contain an aggregate CPU line"@,
            CpuParseError::MissingLogicalCpu => "/proc/stat does not contain a logical CPU"@,
            CpuParseError::TruncatedAggregate => "aggregate CPU line has too few counters"@,
            CpuParseError::InvalidCounter => "CPU counter is not an unsigned integer"@,
            CpuParseError::CounterOverflow => "CPU counter total overflowed"@,
            CpuParseError::CpuCountOverflow => "logical CPU count exceeds the protocol limit"@,
            CpuParseError::TruncatedLoadAverage => "/proc/loadavg does not contain three load averages"@,
            CpuParseError::InvalidLoadAverage => "load average is not a supported non-negative decimal"@,
            CpuParseError::LoadAverageOverflow => "fixed-point load average overflowed"@,
        }),
    {
        match self {
            CpuParseError::MissingAggregate => "/proc/stat does not contain an aggregate CPU line",
            CpuParseError::MissingLogicalCpu => "/proc/stat does not contain a logical CPU",
            CpuParseError::TruncatedAggregate => "aggregate CPU line has too few counters",
            CpuParseError::InvalidCounter => "CPU counter is not an unsigned integer",
            CpuParseError::CounterOverflow => "CPU counter total overflowed",
            CpuParseError::CpuCountOverflow => "logical CPU count exceeds the protocol limit",
            CpuParseError::TruncatedLoadAverage => "/proc/loadavg does not contain three load averages",
            CpuParseError::InvalidLoadAverage => "load average is not a supported non-negative decimal",
            CpuParseError::LoadAverageOverflow => "fixed-point load average overflowed",
        }
    }
}

/// The first whitespace-separated word of a line is `word`.
pub open spec fn first_token_is(line: Seq<char>, word: Seq<char>) -> bool {
    tokens(line).len() > 0 && tokens(line)[0] == word
}

/// The first line at or after `i` whose first word is `cpu`.
pub open spec fn aggregate_line_from(ls: Seq<Seq<char>>, i: int) -> Option<Seq<char>>
    decreases ls.len() - i,
{
    if i < 0 || i >= ls.len() {
        None
    } else if first_token_is(ls[i], "cpu"@) {
        Some(ls[i])
    } else {
        aggregate_line_from(ls, i + 1)
    }
}

/// A per-CPU label: `cpu` followed by one or more ASCII digits.
pub open spec fn is_logical_cpu_label(t: Seq<char>) -> bool {
    t.len() > 3 && t.take(3) == "cpu"@ && all_digits(t.skip(3))
}

pub open spec fn is_logical_cpu_line(line: Seq<char>) -> bool {
    tokens(line).len() > 0 && is_logical_cpu_label(tokens(line)[0])
}

/// How many lines carry a per-CPU label.
pub open spec fn logical_cpu_lines(ls: Seq<Seq<char>>) -> nat
    decreases ls.len(),
{
    if ls.len() == 0 {
        0
    } else {
        logical_cpu_lines(ls.drop_last()) + if is_logical_cpu_line(ls.last()) {
            1nat
        } else {
            0nat
        }
    }
}

/// Counter `k` of the aggregate line: a missing field reads as zero.
pub open spec fn field_counter(fields: Seq<Seq<char>>, k: int) -> Option<nat> {
    if k < fields.len() {
        parse_unsigned_spec(fields[k], u64::MAX as nat)
    } else {
        Some(0)
    }
}

/// The eight counters user, nice, system, idle, iowait, irq, softirq and
/// steal all parse.
pub open spec fn counters_parse(f: Seq<Seq<char>>) -> bool {
    &&& field_counter(f, 0) is Some
    &&& field_counter(f, 1) is Some
    &&& field_counter(f, 2) is Some
    &&& field_counter(f, 3) is Some
    &&& field_counter(f, 4) is Some
    &&& field_counter(f, 5) is Some
    &&& field_counter(f, 6) is Some
    &&& field_counter(f, 7) is Some
}

pub open spec fn counter(f: Seq<Seq<char>>, k: int) -> nat {
    field_counter(f, k).unwrap()
}

/// Busy time: user, nice, system, irq, softirq and steal. Guest time is
/// already part of user and nice, so it is not added again.
pub open spec fn busy_sum(f: Seq<Seq<char>>) -> nat {
    counter(f, 0) + counter(f, 1) + counter(f, 2) + counter(f, 5) + counter(f, 6) + counter(f, 7)
}

/// Idle time: idle and iowait.
pub open spec fn idle_sum(f: Seq<Seq<char>>) -> nat {
    counter(f, 3) + counter(f, 4)
}

/// What `parse_proc_stat` yields for the text `s`.
pub open spec fn proc_stat_result(s: Seq<char>) -> Result<CpuCounters, CpuParseError> {
    let ls = lines(s);
    match aggregate_line_from(ls, 0) {
        None => Err(CpuParseError::MissingAggregate),
        Some(line) => {
            let f = tokens(line).drop_first();
            if f.len() < 4 {
                Err(CpuParseError::TruncatedAggregate)
            } else if !counters_parse(f) {
                Err(CpuParseError::InvalidCounter)
            } else if busy_sum(f) + idle_sum(f) > u64::MAX {
                Err(CpuParseError::CounterOverflow)
            } else if logical_cpu_lines(ls) == 0 {
                Err(CpuParseError::MissingLogicalCpu)
            } else if logical_cpu_lines(ls) > u16::MAX {
                Err(CpuParseError::CpuCountOverflow)
            } else {
                Ok(
                    CpuCounters {
                        busy_ticks: busy_sum(f) as u64,
                        idle_ticks: idle_sum(f) as u64,
                        total_ticks: (busy_sum(f) + idle_sum(f)) as u64,
                        logical_cpu_count: logical_cpu_lines(ls) as u16,
                    },
                )
            }
        },
    }
}

fn first_token_is_cpu(line: &[char]) -> (b: bool)
    ensures
        b == first_token_is(line@, "cpu"@),
{
    let toks = split_ascii_whitespace(line);
    if toks.len() == 0 {
        return false;
    }
    assert(views(toks@)[0] == toks@[0]@);
    eq_str(toks[0].as_slice(), "cpu")
}

fn is_logical_cpu_label_exec(t: &[char]) -> (b: bool)
    ensures
        b == is_logical_cpu_label(t@),
{
    proof {
        reveal_strlit("cpu");
    }
    if t.len() <= 3 || !starts_with_str(t, "cpu") {
        return false;
    }
    let rest = copy_range(t, 3, t.len());
    assert(rest@ =~= t@.skip(3));
    all_digits_exec(rest.as_slice())
}

fn is_logical_cpu_line_exec(line: &[char]) -> (b: bool)
    ensures
        b == is_logical_cpu_line(line@),
{
    let toks = split_ascii_whitespace(line);
    if toks.len() == 0 {
        return false;
    }
    assert(views(toks@)[0] == toks@[0]@);
    is_logical_cpu_label_exec(toks[0].as_slice())
}

/// Counter `k` of the aggregate line whose words (label included) are `toks`.
fn counter_at(toks: &Vec<Vec<char>>, k: usize) -> (r: Option<u64>)
    requires
        toks@.len() >= 1,
        k < 8,
    ensures
        match r {
            Some(v) => field_counter(views(toks@).drop_first(), k as int) == Some(v as nat),
            None => field_counter(views(toks@).drop_first(), k as int) is None,
        },
{
    let ghost f = views(toks@).drop_first();
    if k + 1 < toks.len() {
        assert(f[k as int] == toks@[k + 1]@);
        parse_unsigned(toks[k + 1].as_slice(), u64::MAX)
    } else {
        Some(0)
    }
}

/// Parses the aggregate counters and the logical CPU count of `/proc/stat`.
pub fn parse_proc_stat(input: &str) -> (r: Result<CpuCounters, CpuParseError>)
    ensures
        r == proc_stat_result(input@),
{
    let chars = chars_of(input);
    let ls = split_lines(chars.as_slice());
    let ghost lsv = views(ls@);
    let mut i: usize = 0;
    let mut found = false;
    while !found && i < ls.len()
        invariant
            i <= ls@.len(),
            lsv == views(ls@),
            lsv == lines(input@),
            found ==> i < ls@.len() && first_token_is(lsv[i as int], "cpu"@),
            aggregate_line_from(lsv, 0) == aggregate_line_from(lsv, i as int),
        decreases ls@.len() - i + if found {
            0int
        } else {
            1int
        },
    {
        assert(lsv[i as int] == ls@[i as int]@);
        if first_token_is_cpu(ls[i].as_slice()) {
            found = true;
        } else {
            i = i + 1;
        }
    }
    if !found {
        return Err(CpuParseError::MissingAggregate);
    }
    assert(lsv[i as int] == ls@[i as int]@);
    let toks = split_ascii_whitespace(ls[i].as_slice());
    assert(aggregate_line_from(lsv, 0) == Some(ls@[i as int]@));
    assert(toks@.len() > 0);
    let ghost f = views(toks@).drop_first();
    if toks.len() < 5 {
        return Err(CpuParseError::TruncatedAggregate);
    }
    let user = match counter_at(&toks, 0) {
        Some(v) => v,
        None => return Err(CpuParseError::InvalidCounter),
    };
    let nice = match counter_at(&toks, 1) {
        Some(v) => v,
        None => return Err(CpuParseError::InvalidCounter),
    };
    let system = match counter_at(&toks, 2) {
        Some(v) => v,
        None => return Err(CpuParseError::InvalidCounter),
    };
    let idle = match counter_at(&toks, 3) {
        Some(v) => v,
        None => return Err(CpuParseError::InvalidCounter),
    };
    let iowait = match counter_at(&toks, 4) {
        Some(v) => v,
        None => return Err(CpuParseError::InvalidCounter),
    };
    let irq = match counter_at(&toks, 5) {
        Some(v) => v,
        None => return Err(CpuParseError::InvalidCounter),
    };
    let softirq = match counter_at(&toks, 6) {
        Some(v) => v,
        None => return Err(CpuParseError::InvalidCounter),
    };
    let steal = match counter_at(&toks, 7) {
        Some(v) => v,
        None => return Err(CpuParseError::InvalidCounter),
    };
    assert(counters_parse(f));
    let busy: u128 = user as u128 + nice as u128 + system as u128 + irq as u128 + softirq as u128
        + steal as u128;
    let idle_total: u128 = idle as u128 + iowait as u128;
    assert(busy == busy_sum(f));
    assert(idle_total == idle_sum(f));
    if busy + idle_total > u64::MAX as u128 {
        return Err(CpuParseError::CounterOverflow);
    }
    let mut count: usize = 0;
    let mut j: usize = 0;
    while j < ls.len()
        invariant
            j <= ls@.len(),
            lsv == views(ls@),
            count == logical_cpu_lines(lsv.take(j as int)),
            count <= j,
        decreases ls@.len() - j,
    {
        assert(lsv.take(j + 1).drop_last() =~= lsv.take(j as int));
        assert(lsv.take(j + 1).last() == ls@[j as int]@);
        if is_logical_cpu_line_exec(ls[j].as_slice()) {
            count = count + 1;
        }
        j = j + 1;
    }
    assert(lsv.take(j as int) =~= lsv);
    if count == 0 {
        return Err(CpuParseError::MissingLogicalCpu);
    }
    if count > 65535 {
        return Err(CpuParseError::CpuCountOverflow);
    }
    Ok(
        CpuCounters {
            busy_ticks: busy as u64,
            idle_ticks: idle_total as u64,
            total_ticks: (busy + idle_total) as u64,
            logical_cpu_count: count as u16,
        },
    )
}

/// The fractional digits of a load average scaled to thousandths.
pub open spec fn fraction_milli(f: Seq<char>) -> nat {
    if f.len() == 0 {
        0
    } else if f.len() == 1 {
        decimal_value(f) * 100
    } else if f.len() == 2 {
        decimal_value(f) * 10
    } else {
        decimal_value(f)
    }
}

/// What `parse_decimal_milli` yields: a non-negative decimal with at most
/// three fractional digits, as thousandths.
pub open spec fn decimal_milli_result(v: Seq<char>) -> Result<u32, CpuParseError> {
    if v.len() == 0 || v[0] == '-' {
        Err(CpuParseError::InvalidLoadAverage)
    } else {
        let (whole, fraction) = match split_once_spec(v, '.') {
            Some(p) => p,
            None => (v, Seq::<char>::empty()),
        };
        if whole.len() == 0 || !all_digits(whole) || fraction.len() > 3 || !all_digits(fraction) {
            Err(CpuParseError::InvalidLoadAverage)
        } else if decimal_value(whole) > u32::MAX {
            Err(CpuParseError::InvalidLoadAverage)
        } else if decimal_value(whole) * 1000 + fraction_milli(fraction) > u32::MAX {
            Err(CpuParseError::LoadAverageOverflow)
        } else {
            Ok((decimal_value(whole) * 1000 + fraction_milli(fraction)) as u32)
        }
    }
}

proof fn lemma_decimal_value_bound(s: Seq<char>)
    requires
        all_digits(s),
    ensures
        s.len() <= 3 ==> decimal_value(s) < 1000,
        s.len() <= 2 ==> decimal_value(s) < 100,
        s.len() <= 1 ==> decimal_value(s) < 10,
    decreases s.len(),
{
    if s.len() > 0 {
        lemma_decimal_value_bound(s.drop_last());
    }
}

/// The whole and fractional digit strings of a decimal.
fn split_decimal(value: &[char]) -> (r: (Vec<char>, Vec<char>))
    ensures
        (r.0@, r.1@) == (match split_once_spec(value@, '.') {
            Some(p) => p,
            None => (value@, Seq::<char>::empty()),
        }),
{
    match split_once(value, '.') {
        Some(p) => p,
        None => {
            let whole = copy_range(value, 0, value.len());
            assert(whole@ =~= value@);
            let empty: Vec<char> = Vec::new();
            assert(empty@ =~= Seq::<char>::empty());
            (whole, empty)
        },
    }
}

/// The fractional digits, at most three, as thousandths.
fn fraction_value(fraction: &[char]) -> (v: u64)
    requires
        fraction@.len() <= 3,
        all_digits(fraction@),
    ensures
        v == fraction_milli(fraction@),
        v < 1000,
{
    proof {
        lemma_decimal_value_bound(fraction@);
    }
    if fraction.len() == 0 {
        return 0;
    }
    let digits: u64 = match parse_unsigned(fraction, 999) {
        Some(d) => d,
        None => 0,
    };
    assert(digits == decimal_value(fraction@));
    if fraction.len() == 1 {
        digits * 100
    } else if fraction.len() == 2 {
        digits * 10
    } else {
        digits
    }
}

/// Parses a load average such as `1.25` into thousandths.
pub fn parse_decimal_milli(value: &[char]) -> (r: Result<u32, CpuParseError>)
    ensures
        r == decimal_milli_result(value@),
{
    if value.len() == 0 || value[0] == '-' {
        return Err(CpuParseError::InvalidLoadAverage);
    }
    let (whole, fraction) = split_decimal(value);
    if whole.len() == 0 || !all_digits_exec(whole.as_slice()) || fraction.len() > 3
        || !all_digits_exec(fraction.as_slice()) {
        return Err(CpuParseError::InvalidLoadAverage);
    }
    let w = match parse_unsigned(whole.as_slice(), 0xffff_ffff) {
        Some(w) => w,
        None => return Err(CpuParseError::InvalidLoadAverage),
    };
    let frac = fraction_value(fraction.as_slice());
    let total: u64 = w * 1000 + frac;
    if total > 0xffff_ffff {
        return Err(CpuParseError::LoadAverageOverflow);
    }
    Ok(total as u32)
}

/// What `parse_loadavg` yields: the first three words as thousandths.
pub open spec fn loadavg_result(s: Seq<char>) -> Result<LoadAverages, CpuParseError> {
    let t = tokens(s);
    if t.len() < 3 {
        Err(CpuParseError::TruncatedLoadAverage)
    } else if decimal_milli_result(t[0]) is Err {
        Err(decimal_milli_result(t[0])->Err_0)
    } else if decimal_milli_result(t[1]) is Err {
        Err(decimal_milli_result(t[1])->Err_0)
    } else if decimal_milli_result(t[2]) is Err {
        Err(decimal_milli_result(t[2])->Err_0)
    } else {
        Ok(
            LoadAverages {
                one_milli: decimal_milli_result(t[0])->Ok_0,
                five_milli: decimal_milli_result(t[1])->Ok_0,
                fifteen_milli: decimal_milli_result(t[2])->Ok_0,
            },
        )
    }
}

/// Parses the 1, 5 and 15 minute load averages of `/proc/loadavg`.
pub fn parse_loadavg(input: &str) -> (r: Result<LoadAverages, CpuParseError>)
    ensures
        r == loadavg_result(input@),
{
    let chars = chars_of(input);
    let t = split_ascii_whitespace(chars.as_slice());
    if t.len() < 3 {
        return Err(CpuParseError::TruncatedLoadAverage);
    }
    assert(views(t@)[0] == t@[0]@);
    assert(views(t@)[1] == t@[1]@);
    assert(views(t@)[2] == t@[2]@);
    let one = parse_decimal_milli(t[0].as_slice())?;
    let five = parse_decimal_milli(t[1].as_slice())?;
    let fifteen = parse_decimal_milli(t[2].as_slice())?;
    Ok(LoadAverages { one_milli: one, five_milli: five, fifteen_milli: fifteen })
}

/// Utilization in basis points between two samples, or `None` when the
/// baseline must restart: no previous sample, a changed CPU count, a counter
/// that went backwards, or no elapsed ticks.
pub open spec fn utilization(previous: Option<CpuCounters>, current: CpuCounters) -> Option<u16> {
    match previous {
        None => None,
        Some(p) => if p.logical_cpu_count != current.logical_cpu_count || current.total_ticks
            < p.total_ticks || current.busy_ticks < p.busy_ticks || current.total_ticks
            == p.total_ticks {
            None
        } else {
            let bp = (current.busy_ticks - p.busy_ticks) * 10000 / (current.total_ticks
                - p.total_ticks);
            Some(
                if bp > 10000 {
                    10000u16
                } else {
                    bp as u16
                },
            )
        },
    }
}

pub open spec fn deref_counters(previous: Option<&CpuCounters>) -> Option<CpuCounters> {
    match previous {
        Some(p) => Some(*p),
        None => None,
    }
}

/// CPU telemetry from the current counters, the previous sample if any, and
/// the load averages: available exactly when a utilization figure exists.
pub open spec fn cpu_telemetry(
    previous: Option<CpuCounters>,
    current: CpuCounters,
    load: LoadAverages,
) -> CpuTelemetry {
    CpuTelemetry {
        availability: if utilization(previous, current) is Some {
            TelemetryAvailability::Available
        } else {
            TelemetryAvailability::WarmingUp
        },
        utilization_basis_points: utilization(previous, current),
        logical_cpu_count: current.logical_cpu_count,
        load_1m_milli: load.one_milli,
        load_5m_milli: load.five_milli,
        load_15m_milli: load.fifteen_milli,
    }
}

pub fn calculate_cpu_telemetry(
    previous: Option<&CpuCounters>,
    current: &CpuCounters,
    load: LoadAverages,
) -> (t: CpuTelemetry)
    ensures
        t == cpu_telemetry(deref_counters(previous), *current, load),
{
    let utilization_basis_points: Option<u16> = match previous {
        None => None,
        Some(p) => {
            if p.logical_cpu_count != current.logical_cpu_count || current.total_ticks
                < p.total_ticks || current.busy_ticks < p.busy_ticks || current.total_ticks
                == p.total_ticks {
                None
            } else {
                let busy_delta = current.busy_ticks - p.busy_ticks;
                let total_delta = current.total_ticks - p.total_ticks;
                let bp: u128 = (busy_delta as u128) * 10000 / (total_delta as u128);
                Some(
                    if bp > 10000 {
                        10000u16
                    } else {
                        bp as u16
                    },
                )
            }
        },
    };
    CpuTelemetry {
        availability: if utilization_basis_points.is_some() {
            TelemetryAvailability::Available
        } else {
            TelemetryAvailability::WarmingUp
        },
        utilization_basis_points,
        logical_cpu_count: current.logical_cpu_count,
        load_1m_milli: load.one_milli,
        load_5m_milli: load.five_milli,
        load_15m_milli: load.fifteen_milli,
    }
}

/// Utilization never exceeds 100.00%, and is reported exactly when the
/// telemetry says it is available.
pub proof fn lemma_utilization_bounded(previous: Option<CpuCounters>, current: CpuCounters)
    ensures
        utilization(previous, current) is Some ==> utilization(previous, current).unwrap()
            <= 10000,
{
}

/// A counter reset, an unchanged total, or a CPU hotplug never yields a
/// utilization figure: the baseline restarts instead.
pub proof fn lemma_reset_restarts_baseline(previous: CpuCounters, current: CpuCounters)
    requires
        current.total_ticks < previous.total_ticks || current.busy_ticks < previous.busy_ticks
            || current.total_ticks == previous.total_ticks || current.logical_cpu_count
            != previous.logical_cpu_count,
    ensures
        utilization(Some(previous), current).is_none(),
{
}

} // verus!
