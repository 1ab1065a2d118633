//! `/proc/meminfo` parsing into byte totals.
use vstd::prelude::*;

use crate::protocol::{memory_consistent, MemoryTelemetry, TelemetryAvailability};
use crate::text::{
    chars_of, eq_str, lines, parse_unsigned, parse_unsigned_spec, split_ascii_whitespace,
    split_lines, split_once, split_once_spec, tokens, views,
};

verus! {

pub const KIBIBYTE_BYTES: u64 = 1024;

/// The number of `/proc/meminfo` fields that are read.
pub const INTERESTING_FIELD_COUNT: usize = 9;

#[derive(Debug, Clone, Copy, PartialEq, Eq)]
pub enum MemoryParseError {
    MissingField(&'static str),
    DuplicateField,
    InvalidValue,
    InvalidUnit,
    Overflow,
}

/// The slot of each field that is read, in the order `MemTotal`, `MemFree`,
/// `MemAvailable`, `Buffers`, `Cached`, `SReclaimable`, `Shmem`,
/// `SwapTotal`, `SwapFree`; other keys are ignored.
pub open spec fn field_slot(key: Seq<char>) -> Option<int> {
    if key == "MemTotal"@ {
        Some(0)
    } else if key == "MemFree"@ {
        Some(1)
    } else if key == "MemAvailable"@ {
        Some(2)
    } else if key == "Buffers"@ {
        Some(3)
    } else if key == "Cached"@ {
        Some(4)
    } else if key == "SReclaimable"@ {
        Some(5)
    } else if key == "Shmem"@ {
        Some(6)
    } else if key == "SwapTotal"@ {
        Some(7)
    } else if key == "SwapFree"@ {
        Some(8)
    } else {
        None
    }
}

fn field_slot_exec(key: &[char]) -> (r: Option<usize>)
    ensures
        match r {
            Some(i) => field_slot(key@) == Some(i as int),
            None => field_slot(key@) is None,
        },
{
    if eq_str(key, "MemTotal") {
        Some(0)
    } else if eq_str(key, "MemFree") {
        Some(1)
    } else if eq_str(key, "MemAvailable") {
        Some(2)
    } else if eq_str(key, "Buffers") {
        Some(3)
    } else if eq_str(key, "Cached") {
        Some(4)
    } else if eq_str(key, "SReclaimable") {
        Some(5)
    } else if eq_str(key, "Shmem") {
        Some(6)
    } else if eq_str(key, "SwapTotal") {
        Some(7)
    } else if eq_str(key, "SwapFree") {
        Some(8)
    } else {
        None
    }
}

/// A field's value text: a `u64` amount followed by exactly the unit `kB`.
pub open spec fn kib_value(value: Seq<char>) -> Result<u64, MemoryParseError> {
    let t = tokens(value);
    if t.len() == 0 || parse_unsigned_spec(t[0], u64::MAX as nat) is None {
        Err(MemoryParseError::InvalidValue)
    } else if t.len() != 2 || t[1] != "kB"@ {
        Err(MemoryParseError::InvalidUnit)
    } else {
        Ok(parse_unsigned_spec(t[0], u64::MAX as nat).unwrap() as u64)
    }
}

/// One line applied to the values read so far.
pub open spec fn meminfo_step(
    acc: Result<Seq<Option<u64>>, MemoryParseError>,
    line: Seq<char>,
) -> Result<Seq<Option<u64>>, MemoryParseError> {
    match acc {
        Err(e) => Err(e),
        Ok(slots) => match split_once_spec(line, ':') {
            None => Ok(slots),
            Some((key, value)) => match field_slot(key) {
                None => Ok(slots),
                Some(i) => if slots[i] is Some {
                    Err(MemoryParseError::DuplicateField)
                } else {
                    match kib_value(value) {
                        Err(e) => Err(e),
                        Ok(v) => Ok(slots.update(i, Some(v))),
                    }
                },
            },
        },
    }
}

/// The values read from the first lines, or the first error.
pub open spec fn meminfo_lines(ls: Seq<Seq<char>>) -> Result<Seq<Option<u64>>, MemoryParseError>
    decreases ls.len(),
{
    if ls.len() == 0 {
        Ok(Seq::new(9, |i: int| None))
    } else {
        meminfo_step(meminfo_lines(ls.drop_last()), ls.last())
    }
}

pub open spec fn or_zero(v: Option<u64>) -> nat {
    match v {
        Some(x) => x as nat,
        None => 0,
    }
}

pub open spec fn saturating_sub(a: nat, b: nat) -> nat {
    if a > b {
        (a - b) as nat
    } else {
        0
    }
}

pub open spec fn min_nat(a: nat, b: nat) -> nat {
    if a < b {
        a
    } else {
        b
    }
}

/// The kernel's estimate of available memory, or, on kernels without
/// `MemAvailable`, free plus buffers plus reclaimable caches less shared
/// memory.
pub open spec fn fallback_available(slots: Seq<Option<u64>>) -> nat {
    or_zero(slots[1]) + or_zero(slots[3]) + or_zero(slots[4]) + or_zero(slots[5])
}

pub open spec fn cache_sum(slots: Seq<Option<u64>>) -> nat {
    or_zero(slots[4]) + or_zero(slots[5])
}

/// Available memory in KiB, clamped to the total.
pub open spec fn available_kib(slots: Seq<Option<u64>>) -> nat {
    min_nat(
        match slots[2] {
            Some(a) => a as nat,
            None => saturating_sub(fallback_available(slots), or_zero(slots[6])),
        },
        or_zero(slots[0]),
    )
}

/// Page cache in KiB (cached plus reclaimable slab less shared memory),
/// clamped to the total.
pub open spec fn cached_kib(slots: Seq<Option<u64>>) -> nat {
    min_nat(saturating_sub(cache_sum(slots), or_zero(slots[6])), or_zero(slots[0]))
}

pub open spec fn swap_free_kib(slots: Seq<Option<u64>>) -> nat {
    min_nat(or_zero(slots[8]), or_zero(slots[7]))
}

/// The telemetry computed from the values read.
pub open spec fn meminfo_values(slots: Seq<Option<u64>>) -> Result<MemoryTelemetry, MemoryParseError> {
    if slots[0] is None {
        Err(MemoryParseError::MissingField("MemTotal"))
    } else if slots[2] is None && slots[1] is None {
        Err(MemoryParseError::MissingField("MemFree"))
    } else if (slots[2] is None && fallback_available(slots) > u64::MAX) || cache_sum(slots)
        > u64::MAX {
        Err(MemoryParseError::Overflow)
    } else if or_zero(slots[0]) * 1024 > u64::MAX || or_zero(slots[7]) * 1024 > u64::MAX {
        Err(MemoryParseError::Overflow)
    } else {
        let total = or_zero(slots[0]) * 1024;
        let available = available_kib(slots) * 1024;
        let swap_total = or_zero(slots[7]) * 1024;
        Ok(
            MemoryTelemetry {
                availability: TelemetryAvailability::Available,
                total_bytes: total as u64,
                available_bytes: available as u64,
                used_bytes: (total - available) as u64,
                cached_bytes: (cached_kib(slots) * 1024) as u64,
                swap_total_bytes: swap_total as u64,
                swap_used_bytes: (swap_total - swap_free_kib(slots) * 1024) as u64,
            },
        )
    }
}

/// What `parse_meminfo` yields for the text `s`.
pub open spec fn meminfo_result(s: Seq<char>) -> Result<MemoryTelemetry, MemoryParseError> {
    match meminfo_lines(lines(s)) {
        Err(e) => Err(e),
        Ok(slots) => meminfo_values(slots),
    }
}

fn kib_value_exec(value: &[char]) -> (r: Result<u64, MemoryParseError>)
    ensures
        r == kib_value(value@),
{
    let t = split_ascii_whitespace(value);
    if t.len() == 0 {
        return Err(MemoryParseError::InvalidValue);
    }
    assert(views(t@)[0] == t@[0]@);
    let amount = match parse_unsigned(t[0].as_slice(), u64::MAX) {
        Some(v) => v,
        None => return Err(MemoryParseError::InvalidValue),
    };
    if t.len() != 2 {
        return Err(MemoryParseError::InvalidUnit);
    }
    assert(views(t@)[1] == t@[1]@);
    if !eq_str(t[1].as_slice(), "kB") {
        return Err(MemoryParseError::InvalidUnit);
    }
    Ok(amount)
}

fn meminfo_line(slots: &mut Vec<Option<u64>>, line: &[char]) -> (r: Result<(), MemoryParseError>)
    requires
        old(slots)@.len() == 9,
    ensures
        final(slots)@.len() == 9,
        match r {
            Ok(()) => meminfo_step(Ok(old(slots)@), line@) == Ok::<
                Seq<Option<u64>>,
                MemoryParseError,
            >(final(slots)@),
            Err(e) => meminfo_step(Ok(old(slots)@), line@) == Err::<
                Seq<Option<u64>>,
                MemoryParseError,
            >(e),
        },
{
    let (key, value) = match split_once(line, ':') {
        Some(p) => p,
        None => return Ok(()),
    };
    let i = match field_slot_exec(key.as_slice()) {
        Some(i) => i,
        None => return Ok(()),
    };
    if slots[i].is_some() {
        return Err(MemoryParseError::DuplicateField);
    }
    let v = kib_value_exec(value.as_slice())?;
    slots.set(i, Some(v));
    Ok(())
}

fn kib(slots: &Vec<Option<u64>>, i: usize) -> (v: u64)
    requires
        i < slots@.len(),
    ensures
        v == or_zero(slots@[i as int]),
{
    match slots[i] {
        Some(v) => v,
        None => 0,
    }
}

fn meminfo_values_exec(slots: &Vec<Option<u64>>) -> (r: Result<MemoryTelemetry, MemoryParseError>)
    requires
        slots@.len() == 9,
    ensures
        r == meminfo_values(slots@),
{
    if slots[0].is_none() {
        return Err(MemoryParseError::MissingField("MemTotal"));
    }
    if slots[2].is_none() && slots[1].is_none() {
        return Err(MemoryParseError::MissingField("MemFree"));
    }
    let total: u128 = kib(slots, 0) as u128;
    let shmem: u128 = kib(slots, 6) as u128;
    let fallback: u128 = kib(slots, 1) as u128 + kib(slots, 3) as u128 + kib(slots, 4) as u128
        + kib(slots, 5) as u128;
    let caches: u128 = kib(slots, 4) as u128 + kib(slots, 5) as u128;
    if (slots[2].is_none() && fallback > u64::MAX as u128) || caches > u64::MAX as u128 {
        return Err(MemoryParseError::Overflow);
    }
    let swap_total: u128 = kib(slots, 7) as u128;
    if total * 1024 > u64::MAX as u128 || swap_total * 1024 > u64::MAX as u128 {
        return Err(MemoryParseError::Overflow);
    }
    let reported: u128 = match slots[2] {
        Some(a) => a as u128,
        None => if fallback > shmem {
            fallback - shmem
        } else {
            0
        },
    };
    let available: u128 = if reported < total {
        reported
    } else {
        total
    };
    let cache_left: u128 = if caches > shmem {
        caches - shmem
    } else {
        0
    };
    let cached: u128 = if cache_left < total {
        cache_left
    } else {
        total
    };
    let swap_free_raw: u128 = kib(slots, 8) as u128;
    let swap_free: u128 = if swap_free_raw < swap_total {
        swap_free_raw
    } else {
        swap_total
    };
    let total_bytes = (total * 1024) as u64;
    let available_bytes = (available * 1024) as u64;
    let swap_total_bytes = (swap_total * 1024) as u64;
    Ok(
        MemoryTelemetry {
            availability: TelemetryAvailability::Available,
            total_bytes,
            available_bytes,
            used_bytes: total_bytes - available_bytes,
            cached_bytes: (cached * 1024) as u64,
            swap_total_bytes,
            swap_used_bytes: swap_total_bytes - (swap_free * 1024) as u64,
        },
    )
}

/// Parses `/proc/meminfo` into byte totals.
pub fn parse_meminfo(input: &str) -> (r: Result<MemoryTelemetry, MemoryParseError>)
    ensures
        r == meminfo_result(input@),
        r is Ok ==> memory_consistent(r.unwrap()) && r.unwrap().swap_used_bytes
            <= r.unwrap().swap_total_bytes,
{
    let chars = chars_of(input);
    let ls = split_lines(chars.as_slice());
    let ghost lsv = views(ls@);
    let mut slots: Vec<Option<u64>> = Vec::new();
    let mut k: usize = 0;
    while k < 9
        invariant
            k <= 9,
            slots@ == Seq::new(k as nat, |i: int| None::<u64>),
        decreases 9 - k,
    {
        slots.push(None);
        k = k + 1;
        assert(slots@ =~= Seq::new(k as nat, |i: int| None::<u64>));
    }
    let mut i: usize = 0;
    while i < ls.len()
        invariant
            i <= ls@.len(),
            lsv == views(ls@),
            lsv == lines(input@),
            slots@.len() == 9,
            meminfo_lines(lsv.take(i as int)) == Ok::<Seq<Option<u64>>, MemoryParseError>(slots@),
        decreases ls@.len() - i,
    {
        assert(lsv.take(i + 1).drop_last() =~= lsv.take(i as int));
        assert(lsv.take(i + 1).last() == ls@[i as int]@);
        if let Err(e) = meminfo_line(&mut slots, ls[i].as_slice()) {
            proof {
                lemma_meminfo_error_sticks(lsv, i + 1);
            }
            return Err(e);
        }
        i = i + 1;
    }
    assert(lsv.take(i as int) =~= lsv);
    meminfo_values_exec(&slots)
}

proof fn lemma_meminfo_error_sticks(ls: Seq<Seq<char>>, k: int)
    requires
        0 <= k <= ls.len(),
        meminfo_lines(ls.take(k)) is Err,
    ensures
        meminfo_lines(ls) == meminfo_lines(ls.take(k)),
    decreases ls.len() - k,
{
    if k < ls.len() {
        assert(ls.take(k + 1).drop_last() =~= ls.take(k));
        lemma_meminfo_error_sticks(ls, k + 1);
    } else {
        assert(ls.take(k) =~= ls);
    }
}

} // verus!
