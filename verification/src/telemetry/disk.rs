//! `/proc/diskstats` parsing and aggregate disk throughput.
use vstd::prelude::*;

use crate::protocol::{DiskTelemetry, TelemetryAvailability};
use crate::named::{lookup, NamedCounters};
use crate::text::{
    all_digits, all_digits_exec, all_lowercase, all_lowercase_exec, chars_of, lines,
    parse_unsigned, parse_unsigned_spec, split_ascii_whitespace, split_lines, split_once,
    split_once_spec, starts_with, strip_prefix_str, string_of, tokens, views,
};

verus! {

/// Bytes per sector in `/proc/diskstats`, whatever the device's real sector size.
pub const DISKSTAT_SECTOR_BYTES: u128 = 512;

#[derive(Debug, Clone, Copy, PartialEq, Eq, Structural)]
pub struct DiskDeviceCounters {
    pub read_sectors: u64,
    pub written_sectors: u64,
}

/// One device's name and counters.
pub type DeviceEntry = (Seq<char>, DiskDeviceCounters);

/// The counters of every accepted whole device, keyed by device name.
#[derive(Debug)]
pub struct DiskCountersSnapshot {
    devices: NamedCounters<DiskDeviceCounters>,
}

#[derive(Debug, Clone, Copy, PartialEq, Eq, Structural)]
pub enum DiskParseError {
    TruncatedEntry,
    InvalidCounter,
    DuplicateDevice,
    TooManyDevices,
}

impl DiskParseError {
    /// The human-readable description of the error.
    pub fn message(&self) -> (m: &'static str)
        ensures
            m@ == (match *self {
            DiskParseError::TruncatedEntry => "diskstats entry for an accepted device is truncated"@,
            DiskParseError::InvalidCounter => "diskstats entry contains an invalid counter"@,
            DiskParseError::DuplicateDevice => "diskstats contains a duplicate accepted device"@,
            DiskParseError::TooManyDevices => "diskstats exceeds the configured device limit"@,
        }),
    {
        match self {
            DiskParseError::TruncatedEntry => "diskstats entry for an accepted device is truncated",
            DiskParseError::InvalidCounter => "diskstats entry contains an invalid counter",
            DiskParseError::DuplicateDevice => "diskstats contains a duplicate accepted device",
            DiskParseError::TooManyDevices => "diskstats exceeds the configured device limit",
        }
    }
}

/// A name made of `prefix` and one or more ASCII lowercase letters.
pub open spec fn alphabetic_suffix(name: Seq<char>, prefix: Seq<char>) -> bool {
    starts_with(name, prefix) && name.len() > prefix.len() && all_lowercase(
        name.skip(prefix.len() as int),
    )
}

/// Loop, RAM, floppy, optical, device-mapper and software RAID devices.
pub open spec fn has_virtual_prefix(name: Seq<char>) -> bool {
    ||| starts_with(name, "loop"@)
    ||| starts_with(name, "ram"@)
    ||| starts_with(name, "zram"@)
    ||| starts_with(name, "fd"@)
    ||| starts_with(name, "sr"@)
    ||| starts_with(name, "dm-"@)
    ||| starts_with(name, "md"@)
}

/// `<digits>n<digits>`: an NVMe controller and namespace.
pub open spec fn nvme_namespace(rest: Seq<char>) -> bool {
    match split_once_spec(rest, 'n') {
        Some((controller, namespace)) => controller.len() > 0 && all_digits(controller)
            && namespace.len() > 0 && all_digits(namespace),
        None => false,
    }
}

/// Whole physical disks only: partitions, virtual devices and anything that
/// looks like a path are rejected.
pub open spec fn allowed_whole_device(name: Seq<char>) -> bool {
    if has_virtual_prefix(name) {
        false
    } else if alphabetic_suffix(name, "xvd"@) || alphabetic_suffix(name, "sd"@)
        || alphabetic_suffix(name, "hd"@) || alphabetic_suffix(name, "vd"@) {
        true
    } else if starts_with(name, "nvme"@) {
        nvme_namespace(name.skip("nvme"@.len() as int))
    } else if starts_with(name, "mmcblk"@) {
        name.len() > "mmcblk"@.len() && all_digits(name.skip("mmcblk"@.len() as int))
    } else {
        false
    }
}

fn alphabetic_suffix_exec(name: &[char], prefix: &str) -> (b: bool)
    ensures
        b == alphabetic_suffix(name@, prefix@),
{
    match strip_prefix_str(name, prefix) {
        Some(rest) => rest.len() > 0 && all_lowercase_exec(rest.as_slice()),
        None => false,
    }
}

fn has_virtual_prefix_exec(name: &[char]) -> (b: bool)
    ensures
        b == has_virtual_prefix(name@),
{
    strip_prefix_str(name, "loop").is_some() || strip_prefix_str(name, "ram").is_some()
        || strip_prefix_str(name, "zram").is_some() || strip_prefix_str(name, "fd").is_some()
        || strip_prefix_str(name, "sr").is_some() || strip_prefix_str(name, "dm-").is_some()
        || strip_prefix_str(name, "md").is_some()
}

fn allowed_device_chars(name: &[char]) -> (b: bool)
    ensures
        b == allowed_whole_device(name@),
{
    if has_virtual_prefix_exec(name) {
        return false;
    }
    if alphabetic_suffix_exec(name, "xvd") || alphabetic_suffix_exec(name, "sd")
        || alphabetic_suffix_exec(name, "hd") || alphabetic_suffix_exec(name, "vd") {
        return true;
    }
    if let Some(rest) = strip_prefix_str(name, "nvme") {
        return match split_once(rest.as_slice(), 'n') {
            Some((controller, namespace)) => controller.len() > 0 && all_digits_exec(
                controller.as_slice(),
            ) && namespace.len() > 0 && all_digits_exec(namespace.as_slice()),
            None => false,
        };
    }
    if let Some(rest) = strip_prefix_str(name, "mmcblk") {
        return rest.len() > 0 && all_digits_exec(rest.as_slice());
    }
    false
}

/// Whether `name` is a whole physical disk whose counters are aggregated.
pub fn is_allowed_whole_device(name: &str) -> (b: bool)
    ensures
        b == allowed_whole_device(name@),
{
    let chars = chars_of(name);
    allowed_device_chars(chars.as_slice())
}

/// A sector counter: an unsigned 64-bit decimal.
pub open spec fn sector_counter(t: Seq<char>) -> Option<nat> {
    parse_unsigned_spec(t, u64::MAX as nat)
}

/// One line of `/proc/diskstats` applied to the devices read so far.
pub open spec fn diskstats_step(
    acc: Result<Seq<DeviceEntry>, DiskParseError>,
    line: Seq<char>,
    max_devices: u16,
) -> Result<Seq<DeviceEntry>, DiskParseError> {
    match acc {
        Err(e) => Err(e),
        Ok(devices) => {
            let t = tokens(line);
            if t.len() < 3 || !allowed_whole_device(t[2]) {
                Ok(devices)
            } else if parse_unsigned_spec(t[0], u32::MAX as nat) is None || parse_unsigned_spec(
                t[1],
                u32::MAX as nat,
            ) is None {
                Err(DiskParseError::InvalidCounter)
            } else if t.len() < 6 {
                Err(DiskParseError::TruncatedEntry)
            } else if sector_counter(t[5]) is None {
                Err(DiskParseError::InvalidCounter)
            } else if t.len() < 10 {
                Err(DiskParseError::TruncatedEntry)
            } else if sector_counter(t[9]) is None {
                Err(DiskParseError::InvalidCounter)
            } else if devices.len() >= max_devices {
                Err(DiskParseError::TooManyDevices)
            } else if lookup(devices, t[2]) is Some {
                Err(DiskParseError::DuplicateDevice)
            } else {
                Ok(
                    devices.push(
                        (
                            t[2],
                            DiskDeviceCounters {
                                read_sectors: sector_counter(t[5]).unwrap() as u64,
                                written_sectors: sector_counter(t[9]).unwrap() as u64,
                            },
                        ),
                    ),
                )
            }
        },
    }
}

/// The devices read from the first lines, or the first error.
pub open spec fn diskstats_lines(ls: Seq<Seq<char>>, max_devices: u16) -> Result<
    Seq<DeviceEntry>,
    DiskParseError,
>
    decreases ls.len(),
{
    if ls.len() == 0 {
        Ok(Seq::empty())
    } else {
        diskstats_step(diskstats_lines(ls.drop_last(), max_devices), ls.last(), max_devices)
    }
}

fn diskstats_line(
    snapshot: &mut DiskCountersSnapshot,
    line: &[char],
    max_devices: u16,
) -> (r: Result<(), DiskParseError>)
    ensures
        match r {
            Ok(()) => diskstats_step(Ok(old(snapshot).entries()), line@, max_devices) == Ok::<
                Seq<DeviceEntry>,
                DiskParseError,
            >(final(snapshot).entries()),
            Err(e) => diskstats_step(Ok(old(snapshot).entries()), line@, max_devices) == Err::<
                Seq<DeviceEntry>,
                DiskParseError,
            >(e),
        },
{
    let t = split_ascii_whitespace(line);
    let ghost tv = views(t@);
    if t.len() < 3 {
        return Ok(());
    }
    assert(tv[0] == t@[0]@ && tv[1] == t@[1]@ && tv[2] == t@[2]@);
    if !allowed_device_chars(t[2].as_slice()) {
        return Ok(());
    }
    if parse_unsigned(t[0].as_slice(), 0xffff_ffff).is_none() || parse_unsigned(
        t[1].as_slice(),
        0xffff_ffff,
    ).is_none() {
        return Err(DiskParseError::InvalidCounter);
    }
    if t.len() < 6 {
        return Err(DiskParseError::TruncatedEntry);
    }
    assert(tv[5] == t@[5]@);
    let read_sectors = match parse_unsigned(t[5].as_slice(), u64::MAX) {
        Some(v) => v,
        None => return Err(DiskParseError::InvalidCounter),
    };
    if t.len() < 10 {
        return Err(DiskParseError::TruncatedEntry);
    }
    assert(tv[9] == t@[9]@);
    let written_sectors = match parse_unsigned(t[9].as_slice(), u64::MAX) {
        Some(v) => v,
        None => return Err(DiskParseError::InvalidCounter),
    };
    if snapshot.device_count() >= max_devices as usize {
        return Err(DiskParseError::TooManyDevices);
    }
    let counters = DiskDeviceCounters { read_sectors, written_sectors };
    let name = string_of(t[2].as_slice());
    let ghost before = snapshot.entries();
    if snapshot.insert(name, counters).is_some() {
        return Err(DiskParseError::DuplicateDevice);
    }
    Ok(())
}

/// Parses the accepted whole devices of `/proc/diskstats`, at most
/// `max_devices` of them.
pub fn parse_diskstats(input: &str, max_devices: u16) -> (r: Result<
    DiskCountersSnapshot,
    DiskParseError,
>)
    ensures
        match r {
            Ok(snapshot) => diskstats_lines(lines(input@), max_devices) == Ok::<
                Seq<DeviceEntry>,
                DiskParseError,
            >(snapshot.entries()),
            Err(e) => diskstats_lines(lines(input@), max_devices) == Err::<
                Seq<DeviceEntry>,
                DiskParseError,
            >(e),
        },
{
    let chars = chars_of(input);
    let ls = split_lines(chars.as_slice());
    let ghost lsv = views(ls@);
    let mut snapshot = DiskCountersSnapshot::new();
    let mut i: usize = 0;
    while i < ls.len()
        invariant
            i <= ls@.len(),
            lsv == views(ls@),
            lsv == lines(input@),
            diskstats_lines(lsv.take(i as int), max_devices) == Ok::<
                Seq<DeviceEntry>,
                DiskParseError,
            >(snapshot.entries()),
        decreases ls@.len() - i,
    {
        assert(lsv.take(i + 1).drop_last() =~= lsv.take(i as int));
        assert(lsv.take(i + 1).last() == ls@[i as int]@);
        if let Err(e) = diskstats_line(&mut snapshot, ls[i].as_slice(), max_devices) {
            proof {
                lemma_diskstats_error_sticks(lsv, i + 1, max_devices);
            }
            return Err(e);
        }
        i = i + 1;
    }
    assert(lsv.take(i as int) =~= lsv);
    Ok(snapshot)
}

/// Once a line is rejected, the whole text is rejected with that error.
proof fn lemma_diskstats_error_sticks(ls: Seq<Seq<char>>, k: int, max_devices: u16)
    requires
        0 <= k <= ls.len(),
        diskstats_lines(ls.take(k), max_devices) is Err,
    ensures
        diskstats_lines(ls, max_devices) == diskstats_lines(ls.take(k), max_devices),
    decreases ls.len() - k,
{
    if k < ls.len() {
        assert(ls.take(k + 1).drop_last() =~= ls.take(k));
        lemma_diskstats_error_sticks(ls, k + 1, max_devices);
    } else {
        assert(ls.take(k) =~= ls);
    }
}

impl DiskCountersSnapshot {
    /// The recorded devices, in the order they were first recorded.
    pub closed spec fn entries(&self) -> Seq<DeviceEntry> {
        self.devices.entries()
    }

    /// A snapshot with no devices.
    pub fn new() -> (s: Self)
        ensures
            s.entries() == Seq::<DeviceEntry>::empty(),
    {
        DiskCountersSnapshot { devices: NamedCounters::new() }
    }

    pub fn device_count(&self) -> (n: usize)
        ensures
            n == self.entries().len(),
    {
        self.devices.len()
    }

    /// The counters recorded for `name`, if any.
    pub fn get(&self, name: &str) -> (r: Option<DiskDeviceCounters>)
        ensures
            r == lookup(self.entries(), name@),
    {
        self.devices.get(name)
    }

    /// Records `counters` under `name`, replacing and returning what was
    /// recorded there before.
    pub fn insert(&mut self, name: String, counters: DiskDeviceCounters) -> (previous: Option<
        DiskDeviceCounters,
    >)
        ensures
            previous == lookup(old(self).entries(), name@),
            previous is None ==> final(self).entries() == old(self).entries().push(
                (name@, counters),
            ),
            forall|n: Seq<char>|
                lookup(final(self).entries(), n) == if n == name@ {
                    Some(counters)
                } else {
                    lookup(old(self).entries(), n)
                },
    {
        self.devices.insert(name, counters)
    }
}

impl Clone for DiskCountersSnapshot {
    fn clone(&self) -> (c: Self)
        ensures
            c.entries() == self.entries(),
    {
        DiskCountersSnapshot { devices: self.devices.clone() }
    }
}

/// Sectors read by a device since the previous sample: nothing for a device
/// that is new, or whose counters went backwards (a reset or a replaced
/// device).
pub open spec fn read_progress(previous: Seq<DeviceEntry>, e: DeviceEntry) -> nat {
    match lookup(previous, e.0) {
        Some(p) => if e.1.read_sectors < p.read_sectors || e.1.written_sectors < p.written_sectors {
            0
        } else {
            (e.1.read_sectors - p.read_sectors) as nat
        },
        None => 0,
    }
}

/// Sectors written by a device since the previous sample, under the same rule.
pub open spec fn write_progress(previous: Seq<DeviceEntry>, e: DeviceEntry) -> nat {
    match lookup(previous, e.0) {
        Some(p) => if e.1.read_sectors < p.read_sectors || e.1.written_sectors < p.written_sectors {
            0
        } else {
            (e.1.written_sectors - p.written_sectors) as nat
        },
        None => 0,
    }
}

pub open spec fn total_read(previous: Seq<DeviceEntry>, current: Seq<DeviceEntry>) -> nat
    decreases current.len(),
{
    if current.len() == 0 {
        0
    } else {
        total_read(previous, current.drop_last()) + read_progress(previous, current.last())
    }
}

pub open spec fn total_written(previous: Seq<DeviceEntry>, current: Seq<DeviceEntry>) -> nat
    decreases current.len(),
{
    if current.len() == 0 {
        0
    } else {
        total_written(previous, current.drop_last()) + write_progress(previous, current.last())
    }
}

/// `u128` multiplication that saturates at the largest value.
pub open spec fn saturating_mul_u128(a: nat, b: nat) -> nat {
    if a * b > u128::MAX {
        u128::MAX as nat
    } else {
        a * b
    }
}

/// Bytes per second for a sector count over an elapsed time in nanoseconds,
/// saturating at the largest `u64`; zero when no time elapsed.
pub open spec fn sector_rate(sectors: nat, elapsed_nanos: nat) -> u64 {
    if elapsed_nanos == 0 {
        0
    } else {
        let bytes = saturating_mul_u128(
            saturating_mul_u128(sectors, DISKSTAT_SECTOR_BYTES as nat),
            1_000_000_000,
        ) / elapsed_nanos;
        if bytes > u64::MAX {
            u64::MAX
        } else {
            bytes as u64
        }
    }
}

fn saturating_mul(a: u128, b: u128) -> (r: u128)
    ensures
        r == saturating_mul_u128(a as nat, b as nat),
{
    match a.checked_mul(b) {
        Some(v) => v,
        None => u128::MAX,
    }
}

/// Bytes per second for `sectors` over `elapsed_nanos` nanoseconds.
pub fn rate_from_sectors(sectors: u128, elapsed_nanos: u128) -> (r: u64)
    ensures
        r == sector_rate(sectors as nat, elapsed_nanos as nat),
{
    if elapsed_nanos == 0 {
        return 0;
    }
    let bytes_per_second = saturating_mul(saturating_mul(sectors, DISKSTAT_SECTOR_BYTES), 1_000_000_000)
        / elapsed_nanos;
    if bytes_per_second > u64::MAX as u128 {
        u64::MAX
    } else {
        bytes_per_second as u64
    }
}

pub open spec fn device_count_u16(n: nat) -> u16 {
    if n > u16::MAX {
        u16::MAX
    } else {
        n as u16
    }
}

/// Disk telemetry for the devices `current`, given the devices of the
/// previous sample, if any, taken `elapsed_nanos` nanoseconds earlier.
/// Without a previous sample, or with no elapsed time, the result is warming
/// up with zero rates.
pub open spec fn disk_telemetry(
    previous: Option<Seq<DeviceEntry>>,
    current: Seq<DeviceEntry>,
    elapsed_nanos: u128,
) -> DiskTelemetry {
    let device_count = device_count_u16(current.len());
    match previous {
        Some(p) if elapsed_nanos != 0 => DiskTelemetry {
            availability: TelemetryAvailability::Available,
            read_bytes_per_second: sector_rate(total_read(p, current), elapsed_nanos as nat),
            write_bytes_per_second: sector_rate(total_written(p, current), elapsed_nanos as nat),
            device_count,
        },
        _ => DiskTelemetry {
            availability: TelemetryAvailability::WarmingUp,
            read_bytes_per_second: 0,
            write_bytes_per_second: 0,
            device_count,
        },
    }
}

pub open spec fn disk_entries(s: Option<&DiskCountersSnapshot>) -> Option<Seq<DeviceEntry>> {
    match s {
        Some(v) => Some(v.entries()),
        None => None,
    }
}

/// Disk throughput between two samples taken `elapsed_nanos` nanoseconds
/// apart.
pub fn calculate_disk_telemetry(
    previous: Option<&DiskCountersSnapshot>,
    current: &DiskCountersSnapshot,
    elapsed_nanos: u128,
) -> (t: DiskTelemetry)
    ensures
        t == disk_telemetry(disk_entries(previous), current.entries(), elapsed_nanos),
{
    let n = current.device_count();
    let device_count: u16 = if n > 65535 {
        65535
    } else {
        n as u16
    };
    let previous = match previous {
        Some(p) => {
            if elapsed_nanos == 0 {
                return DiskTelemetry {
                    availability: TelemetryAvailability::WarmingUp,
                    read_bytes_per_second: 0,
                    write_bytes_per_second: 0,
                    device_count,
                };
            }
            p
        },
        None => {
            return DiskTelemetry {
                availability: TelemetryAvailability::WarmingUp,
                read_bytes_per_second: 0,
                write_bytes_per_second: 0,
                device_count,
            };
        },
    };
    let ghost p = previous.entries();
    let ghost c = current.entries();
    let mut read_sectors: u128 = 0;
    let mut written_sectors: u128 = 0;
    let mut i: usize = 0;
    while i < current.device_count()
        invariant
            i <= c.len(),
            c == current.entries(),
            p == previous.entries(),
            read_sectors == total_read(p, c.take(i as int)),
            written_sectors == total_written(p, c.take(i as int)),
            read_sectors <= i * 0xffff_ffff_ffff_ffffu128,
            written_sectors <= i * 0xffff_ffff_ffff_ffffu128,
        decreases c.len() - i,
    {
        let name = current.devices.name_at(i);
        let now = current.devices.value_at(i);
        assert(c.take(i + 1).drop_last() =~= c.take(i as int));
        assert(c.take(i + 1).last() == c[i as int]);
        match previous.devices.lookup_name(name) {
            Some(before) => {
                if now.read_sectors >= before.read_sectors && now.written_sectors
                    >= before.written_sectors {
                    read_sectors = read_sectors + (now.read_sectors - before.read_sectors) as u128;
                    written_sectors = written_sectors + (now.written_sectors
                        - before.written_sectors) as u128;
                }
            },
            None => {},
        }
        i = i + 1;
    }
    assert(c.take(i as int) =~= c);
    DiskTelemetry {
        availability: TelemetryAvailability::Available,
        read_bytes_per_second: rate_from_sectors(read_sectors, elapsed_nanos),
        write_bytes_per_second: rate_from_sectors(written_sectors, elapsed_nanos),
        device_count,
    }
}

/// A device that is new since the previous sample, or whose counters went
/// backwards, adds nothing to either rate: churn and resets never produce
/// false spikes.
pub proof fn lemma_churn_adds_nothing(previous: Seq<DeviceEntry>, current: Seq<DeviceEntry>)
    requires
        forall|i: int|
            0 <= i < current.len() ==> match #[trigger] lookup(previous, current[i].0) {
                None => true,
                Some(p) => current[i].1.read_sectors < p.read_sectors
                    || current[i].1.written_sectors < p.written_sectors,
            },
    ensures
        total_read(previous, current) == 0,
        total_written(previous, current) == 0,
    decreases current.len(),
{
    if current.len() > 0 {
        let rest = current.drop_last();
        assert forall|i: int| 0 <= i < rest.len() implies match #[trigger] lookup(
            previous,
            rest[i].0,
        ) {
            None => true,
            Some(p) => rest[i].1.read_sectors < p.read_sectors || rest[i].1.written_sectors
                < p.written_sectors,
        } by {
            assert(rest[i] == current[i]);
        }
        lemma_churn_adds_nothing(previous, rest);
        assert(lookup(previous, current[current.len() - 1].0) == lookup(previous, current.last().0));
    }
}


/// Disk totals add up over devices: the sectors counted for the devices of
/// `a` followed by those of `b` are those counted for `a` plus those counted
/// for `b`, for reads and for writes.
pub proof fn lemma_totals_add_over_devices(previous: Seq<DeviceEntry>, a: Seq<DeviceEntry>, b: Seq<DeviceEntry>)
    ensures
        total_read(previous, a + b) == total_read(previous, a) + total_read(previous, b),
        total_written(previous, a + b) == total_written(previous, a) + total_written(previous, b),
    decreases b.len(),
{
    if b.len() == 0 {
        assert(a + b =~= a);
    } else {
        lemma_totals_add_over_devices(previous, a, b.drop_last());
        assert((a + b).drop_last() =~= a + b.drop_last());
        assert((a + b).last() == b.last());
    }
}

/// One device counts exactly the sectors its counters moved forward since
/// the previous sample of the same device, and nothing when it is new or
/// either counter went backwards.
pub proof fn lemma_device_counts_its_forward_sectors(previous: Seq<DeviceEntry>, e: DeviceEntry)
    ensures
        total_read(previous, seq![e]) == match lookup(previous, e.0) {
            Some(p) => if p.read_sectors <= e.1.read_sectors && p.written_sectors <= e.1.written_sectors {
                e.1.read_sectors - p.read_sectors
            } else {
                0
            },
            None => 0,
        },
        total_written(previous, seq![e]) == match lookup(previous, e.0) {
            Some(p) => if p.read_sectors <= e.1.read_sectors && p.written_sectors <= e.1.written_sectors {
                e.1.written_sectors - p.written_sectors
            } else {
                0
            },
            None => 0,
        },
{
    let one = seq![e];
    assert(one.drop_last() =~= Seq::<DeviceEntry>::empty());
    assert(one.last() == e);
    assert(total_read(previous, one.drop_last()) == 0);
    assert(total_written(previous, one.drop_last()) == 0);
    assert(total_read(previous, one) == read_progress(previous, e));
    assert(total_written(previous, one) == write_progress(previous, e));
}

} // verus!
