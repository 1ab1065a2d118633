use std::sync::Arc;
use std::time::Duration;

use velora::protocol::{
    CpuTelemetry, DiskTelemetry, MemoryTelemetry, NetworkTelemetry, TelemetryAvailability,
    TelemetrySnapshot,
};
use velora::telemetry::cpu::{
    calculate_cpu_telemetry, parse_loadavg, parse_proc_stat, CpuCounters, CpuParseError,
    LoadAverages,
};
use velora::telemetry::disk::{
    calculate_disk_telemetry, is_allowed_whole_device, parse_diskstats, DiskCountersSnapshot,
    DiskDeviceCounters, DiskParseError,
};
use velora::telemetry::memory::{parse_meminfo, MemoryParseError};
use velora::telemetry::network::{calculate_network_telemetry, parse_net_dev, NetworkParseError};
use velora::telemetry::runtime::TelemetryStore;

const PROC_STAT: &str = "cpu  100 20 30 400 10 5 6 7 90 8\n\
cpu0 50 10 15 200 5 2 3 3 45 4\n\
cpu1 50 10 15 200 5 3 3 4 45 4\n\
intr 12345\n";

fn counters(busy: u64, idle: u64, cpus: u16) -> CpuCounters {
    CpuCounters {
        busy_ticks: busy,
        idle_ticks: idle,
        total_ticks: busy + idle,
        logical_cpu_count: cpus,
    }
}

fn loads() -> LoadAverages {
    LoadAverages {
        one_milli: 500,
        five_milli: 1_250,
        fifteen_milli: 2_000,
    }
}

fn nanos(d: Duration) -> u128 {
    d.as_nanos()
}

#[test]
fn parses_aggregate_counters_without_double_counting_guest_time() {
    let parsed = parse_proc_stat(PROC_STAT).unwrap();
    assert_eq!(parsed.busy_ticks, 168);
    assert_eq!(parsed.idle_ticks, 410);
    assert_eq!(parsed.total_ticks, 578);
    assert_eq!(parsed.logical_cpu_count, 2);

    let tab_separated = parse_proc_stat("cpu\t1 2 3 4\ncpu0 1 2 3 4\n").unwrap();
    assert_eq!(tab_separated.total_ticks, 10);
}

#[test]
fn rejects_missing_truncated_and_invalid_cpu_data() {
    assert_eq!(parse_proc_stat("intr 1\n"), Err(CpuParseError::MissingAggregate));
    assert_eq!(
        parse_proc_stat("cpu 1 2 3\ncpu0 1\n"),
        Err(CpuParseError::TruncatedAggregate)
    );
    assert_eq!(
        parse_proc_stat("cpu 1 x 3 4\ncpu0 1\n"),
        Err(CpuParseError::InvalidCounter)
    );
    assert_eq!(
        parse_proc_stat("cpu 1 2 3 4\n"),
        Err(CpuParseError::MissingLogicalCpu)
    );
}

#[test]
fn parses_load_averages_as_fixed_point_integers() {
    assert_eq!(parse_loadavg("0.50 1.25 2.000 1/100 42\n").unwrap(), loads());
    assert_eq!(
        parse_loadavg("0.1234 1.0 2.0"),
        Err(CpuParseError::InvalidLoadAverage)
    );
    assert_eq!(
        parse_loadavg("-1.0 1.0 2.0"),
        Err(CpuParseError::InvalidLoadAverage)
    );
    assert_eq!(
        parse_loadavg("1.0 2.0"),
        Err(CpuParseError::TruncatedLoadAverage)
    );
}

#[test]
fn first_sample_warms_up_instead_of_inventing_utilization() {
    let telemetry = calculate_cpu_telemetry(None, &counters(400, 600, 8), loads());
    assert_eq!(telemetry.availability, TelemetryAvailability::WarmingUp);
    assert_eq!(telemetry.utilization_basis_points, None);
    assert_eq!(telemetry.load_5m_milli, 1_250);
}

#[test]
fn calculates_bounded_utilization_from_counter_deltas() {
    let previous = counters(400, 600, 8);
    let current = counters(500, 700, 8);
    let telemetry = calculate_cpu_telemetry(Some(&previous), &current, loads());
    assert_eq!(telemetry.availability, TelemetryAvailability::Available);
    assert_eq!(telemetry.utilization_basis_points, Some(5_000));
}

#[test]
fn reset_zero_delta_and_hotplug_restart_the_baseline() {
    let previous = counters(400, 600, 8);
    for current in [
        counters(300, 500, 8),
        counters(400, 600, 8),
        counters(500, 700, 12),
    ] {
        let telemetry = calculate_cpu_telemetry(Some(&previous), &current, loads());
        assert_eq!(telemetry.availability, TelemetryAvailability::WarmingUp);
        assert_eq!(telemetry.utilization_basis_points, None);
    }
}

#[test]
fn cpu_utilization_is_all_busy_when_nothing_idled() {
    let previous = counters(100, 100, 4);
    let current = counters(300, 100, 4);
    let telemetry = calculate_cpu_telemetry(Some(&previous), &current, loads());
    assert_eq!(telemetry.utilization_basis_points, Some(10_000));
    assert_eq!(telemetry.logical_cpu_count, 4);
}

#[test]
fn load_average_overflow_is_rejected() {
    assert_eq!(
        parse_loadavg("5000000.0 1.0 2.0"),
        Err(CpuParseError::LoadAverageOverflow)
    );
}

const DISKSTATS: &str = "8 0 sda 100 0 200 0 50 0 80 0 0 0 0\n\
8 1 sda1 90 0 180 0 40 0 70 0 0 0 0\n\
259 0 nvme0n1 200 0 400 0 100 0 300 0 0 0 0\n\
259 1 nvme0n1p1 180 0 350 0 90 0 280 0 0 0 0\n\
252 0 vda 10 0 20 0 5 0 10 0 0 0 0\n\
7 0 loop0 500 0 900 0 400 0 800 0 0 0 0\n\
253 0 dm-0 400 0 700 0 300 0 600 0 0 0 0\n";

fn snapshot(entries: &[(&str, u64, u64)]) -> DiskCountersSnapshot {
    let mut snapshot = DiskCountersSnapshot::new();
    for (name, read, written) in entries {
        snapshot.insert(
            (*name).to_owned(),
            DiskDeviceCounters {
                read_sectors: *read,
                written_sectors: *written,
            },
        );
    }
    snapshot
}

#[test]
fn keeps_supported_whole_devices_and_filters_partitions_and_virtual_devices() {
    let parsed = parse_diskstats(DISKSTATS, 64).unwrap();
    assert_eq!(parsed.device_count(), 3);
    assert!(parsed.get("sda").is_some());
    assert!(parsed.get("nvme0n1").is_some());
    assert!(parsed.get("vda").is_some());
    assert!(parsed.get("sda1").is_none());
    assert!(parsed.get("nvme0n1p1").is_none());
    assert!(parsed.get("loop0").is_none());
    assert!(parsed.get("dm-0").is_none());
}

#[test]
fn recognizes_supported_names_without_accepting_path_syntax() {
    for name in ["sda", "xvdb", "vdc", "hdd", "nvme0n1", "mmcblk0"] {
        assert!(is_allowed_whole_device(name), "expected {name} to be allowed");
    }
    for name in [
        "sda1",
        "nvme0n1p2",
        "mmcblk0p1",
        "loop0",
        "zram0",
        "dm-0",
        "md1",
        "../sda",
        "sda/evil",
    ] {
        assert!(!is_allowed_whole_device(name), "expected {name} to be rejected");
    }
}

#[test]
fn rejects_malformed_duplicate_and_excess_device_entries() {
    assert_eq!(
        parse_diskstats("8 0 sda 1 0 bad 0 1 0 2 0 0 0 0\n", 64).err(),
        Some(DiskParseError::InvalidCounter)
    );
    assert_eq!(
        parse_diskstats("8 0 sda 1\n", 64).err(),
        Some(DiskParseError::TruncatedEntry)
    );
    let duplicate = "8 0 sda 1 0 2 0 1 0 2 0\n8 0 sda 2 0 3 0 2 0 3 0\n";
    assert_eq!(
        parse_diskstats(duplicate, 64).err(),
        Some(DiskParseError::DuplicateDevice)
    );
    assert_eq!(
        parse_diskstats(DISKSTATS, 2).err(),
        Some(DiskParseError::TooManyDevices)
    );
}

#[test]
fn first_sample_and_zero_elapsed_time_are_warming_up() {
    let current = snapshot(&[("sda", 100, 200)]);
    for telemetry in [
        calculate_disk_telemetry(None, &current, nanos(Duration::from_secs(1))),
        calculate_disk_telemetry(Some(&current), &current, nanos(Duration::ZERO)),
    ] {
        assert_eq!(telemetry.availability, TelemetryAvailability::WarmingUp);
        assert_eq!(telemetry.read_bytes_per_second, 0);
        assert_eq!(telemetry.write_bytes_per_second, 0);
    }
}

#[test]
fn calculates_aggregate_rates_from_deterministic_elapsed_time() {
    let previous = snapshot(&[("sda", 100, 200), ("vda", 50, 60)]);
    let current = snapshot(&[("sda", 300, 500), ("vda", 150, 160)]);
    let telemetry = calculate_disk_telemetry(
        Some(&previous),
        &current,
        nanos(Duration::from_millis(500)),
    );
    assert_eq!(telemetry.availability, TelemetryAvailability::Available);
    assert_eq!(telemetry.read_bytes_per_second, 300 * 512 * 2);
    assert_eq!(telemetry.write_bytes_per_second, 400 * 512 * 2);
    assert_eq!(telemetry.device_count, 2);
}

#[test]
fn device_churn_and_counter_reset_do_not_create_false_spikes() {
    let previous = snapshot(&[("sda", 500, 800), ("vda", 100, 100)]);
    let current = snapshot(&[("sda", 10, 20), ("nvme0n1", 9_000, 8_000)]);
    let telemetry =
        calculate_disk_telemetry(Some(&previous), &current, nanos(Duration::from_secs(1)));
    assert_eq!(telemetry.availability, TelemetryAvailability::Available);
    assert_eq!(telemetry.read_bytes_per_second, 0);
    assert_eq!(telemetry.write_bytes_per_second, 0);
    assert_eq!(telemetry.device_count, 2);
}

#[test]
fn disk_snapshot_insert_replaces_and_returns_previous_counters() {
    let mut snapshot = DiskCountersSnapshot::new();
    let first = DiskDeviceCounters {
        read_sectors: 1,
        written_sectors: 2,
    };
    let second = DiskDeviceCounters {
        read_sectors: 3,
        written_sectors: 4,
    };
    assert_eq!(snapshot.insert("sda".to_owned(), first), None);
    assert_eq!(snapshot.insert("sda".to_owned(), second), Some(first));
    assert_eq!(snapshot.device_count(), 1);
    assert_eq!(snapshot.get("sda"), Some(second));
}

const MODERN: &str = "MemTotal:       16000 kB\n\
MemFree:         1000 kB\n\
MemAvailable:    6000 kB\n\
Buffers:          500 kB\n\
Cached:          3000 kB\n\
SReclaimable:     700 kB\n\
Shmem:            200 kB\n\
SwapTotal:       4000 kB\n\
SwapFree:        3000 kB\n\
HugePages_Total:    0\n";

#[test]
fn parses_modern_memory_and_swap_values_in_bytes() {
    let memory = parse_meminfo(MODERN).unwrap();
    assert_eq!(memory.availability, TelemetryAvailability::Available);
    assert_eq!(memory.total_bytes, 16_000 * 1024);
    assert_eq!(memory.available_bytes, 6_000 * 1024);
    assert_eq!(memory.used_bytes, 10_000 * 1024);
    assert_eq!(memory.cached_bytes, 3_500 * 1024);
    assert_eq!(memory.swap_total_bytes, 4_000 * 1024);
    assert_eq!(memory.swap_used_bytes, 1_000 * 1024);
}

#[test]
fn falls_back_when_mem_available_is_absent() {
    let input = "MemTotal: 10000 kB\n\
MemFree: 1000 kB\n\
Buffers: 500 kB\n\
Cached: 2000 kB\n\
SReclaimable: 300 kB\n\
Shmem: 100 kB\n";
    let memory = parse_meminfo(input).unwrap();
    assert_eq!(memory.available_bytes, 3_700 * 1024);
    assert_eq!(memory.used_bytes, 6_300 * 1024);
    assert_eq!(memory.swap_total_bytes, 0);
    assert_eq!(memory.swap_used_bytes, 0);
}

#[test]
fn tolerates_missing_optional_cache_and_swap_fields() {
    let memory = parse_meminfo("MemTotal: 1000 kB\nMemAvailable: 400 kB\n").unwrap();
    assert_eq!(memory.cached_bytes, 0);
    assert_eq!(memory.swap_total_bytes, 0);
    assert_eq!(memory.swap_used_bytes, 0);
}

#[test]
fn clamps_derived_values_to_safe_totals() {
    let input = "MemTotal: 1000 kB\n\
MemAvailable: 2000 kB\n\
Cached: 3000 kB\n\
SwapTotal: 100 kB\n\
SwapFree: 200 kB\n";
    let memory = parse_meminfo(input).unwrap();
    assert_eq!(memory.available_bytes, memory.total_bytes);
    assert_eq!(memory.used_bytes, 0);
    assert_eq!(memory.cached_bytes, memory.total_bytes);
    assert_eq!(memory.swap_used_bytes, 0);
}

#[test]
fn rejects_missing_malformed_duplicate_and_overflowing_values() {
    assert_eq!(
        parse_meminfo("MemAvailable: 1 kB\n"),
        Err(MemoryParseError::MissingField("MemTotal"))
    );
    assert_eq!(
        parse_meminfo("MemTotal: many kB\n"),
        Err(MemoryParseError::InvalidValue)
    );
    assert_eq!(
        parse_meminfo("MemTotal: 1 MB\n"),
        Err(MemoryParseError::InvalidUnit)
    );
    assert_eq!(
        parse_meminfo("MemTotal: 1 kB\nMemTotal: 2 kB\n"),
        Err(MemoryParseError::DuplicateField)
    );
    let overflow = format!("MemTotal: {} kB\nMemAvailable: 0 kB\n", u64::MAX);
    assert_eq!(parse_meminfo(&overflow), Err(MemoryParseError::Overflow));
}

#[test]
fn memory_totals_stay_consistent() {
    let memory = parse_meminfo(MODERN).unwrap();
    assert!(memory.available_bytes <= memory.total_bytes);
    assert!(memory.used_bytes <= memory.total_bytes);
    assert_eq!(memory.used_bytes + memory.available_bytes, memory.total_bytes);
    assert!(memory.swap_used_bytes <= memory.swap_total_bytes);
}

const NET_HEADER: &str = "Inter-| Receive | Transmit\n face |bytes packets errs drop fifo frame compressed multicast|bytes packets errs drop fifo colls carrier compressed\n";

#[test]
fn parses_and_rates_non_loopback_interfaces() {
    let before = parse_net_dev(&format!("{NET_HEADER} lo: 99 0 0 0 0 0 0 0 99 0 0 0 0 0 0 0\n wlan0: 100 0 0 0 0 0 0 0 200 0 0 0 0 0 0 0\n"), 4).unwrap();
    let after = parse_net_dev(&format!("{NET_HEADER} wlan0: 600 0 0 0 0 0 0 0 900 0 0 0 0 0 0 0\n"), 4).unwrap();
    let telemetry =
        calculate_network_telemetry(Some(&before), &after, nanos(Duration::from_secs(1)));
    assert_eq!(telemetry.availability, TelemetryAvailability::Available);
    assert_eq!(
        (
            telemetry.receive_bytes_per_second,
            telemetry.transmit_bytes_per_second,
            telemetry.interface_count
        ),
        (500, 700, 1)
    );
}

#[test]
fn rejects_bad_entries_and_treats_churn_or_resets_as_zero_rate() {
    assert_eq!(
        parse_net_dev("header\nheader\n eth0: not-a-number\n", 4).err(),
        Some(NetworkParseError::InvalidCounter)
    );
    assert_eq!(
        parse_net_dev("header\nheader\n eth0: 1 2\n", 4).err(),
        Some(NetworkParseError::MalformedEntry)
    );
    let previous = parse_net_dev(
        "header\nheader\n eth0: 500 0 0 0 0 0 0 0 800 0 0 0 0 0 0 0\n",
        4,
    )
    .unwrap();
    let current = parse_net_dev("header\nheader\n wlan0: 10 0 0 0 0 0 0 0 20 0 0 0 0 0 0 0\n eth0: 100 0 0 0 0 0 0 0 200 0 0 0 0 0 0 0\n", 4).unwrap();
    let telemetry =
        calculate_network_telemetry(Some(&previous), &current, nanos(Duration::from_secs(1)));
    assert_eq!(telemetry.receive_bytes_per_second, 0);
    assert_eq!(telemetry.transmit_bytes_per_second, 0);
    assert_eq!(telemetry.interface_count, 2);
}

#[test]
fn returns_offline_when_previous_exists_but_current_is_empty() {
    let previous = parse_net_dev(
        "header\nheader\n wlan0: 500 0 0 0 0 0 0 0 800 0 0 0 0 0 0 0\n",
        4,
    )
    .unwrap();
    let current = parse_net_dev(
        "header\nheader\n lo: 99 0 0 0 0 0 0 0 99 0 0 0 0 0 0 0\n",
        4,
    )
    .unwrap();
    let telemetry =
        calculate_network_telemetry(Some(&previous), &current, nanos(Duration::from_secs(1)));
    assert_eq!(telemetry.availability, TelemetryAvailability::Offline);
    assert_eq!(telemetry.receive_bytes_per_second, 0);
    assert_eq!(telemetry.transmit_bytes_per_second, 0);
    assert_eq!(telemetry.interface_count, 0);
}

#[test]
fn saturates_rate_when_bytes_approach_u64_boundary() {
    let previous = parse_net_dev(
        "header\nheader\n eth0: 0 0 0 0 0 0 0 0 0 0 0 0 0 0 0 0\n",
        4,
    )
    .unwrap();
    let current = parse_net_dev(
        &format!(
            "header\nheader\n eth0: {} 0 0 0 0 0 0 0 0 0 0 0 0 0 0 0\n",
            u64::MAX
        ),
        4,
    )
    .unwrap();
    let telemetry =
        calculate_network_telemetry(Some(&previous), &current, nanos(Duration::from_nanos(1)));
    assert_eq!(telemetry.availability, TelemetryAvailability::Available);
    assert_eq!(telemetry.receive_bytes_per_second, u64::MAX);
}

fn test_snapshot(sequence: u64) -> TelemetrySnapshot {
    TelemetrySnapshot {
        sequence,
        sampled_at_unix_ms: 1_777_777_777_000,
        sample_interval_ms: 1_000,
        cpu: CpuTelemetry {
            availability: TelemetryAvailability::Available,
            utilization_basis_points: Some(3_725),
            logical_cpu_count: 8,
            load_1m_milli: 750,
            load_5m_milli: 1_250,
            load_15m_milli: 2_000,
        },
        memory: MemoryTelemetry {
            availability: TelemetryAvailability::Available,
            total_bytes: 16 * 1024 * 1024 * 1024,
            available_bytes: 10 * 1024 * 1024 * 1024,
            used_bytes: 6 * 1024 * 1024 * 1024,
            cached_bytes: 2 * 1024 * 1024 * 1024,
            swap_total_bytes: 4 * 1024 * 1024 * 1024,
            swap_used_bytes: 512 * 1024 * 1024,
        },
        disk: DiskTelemetry {
            availability: TelemetryAvailability::Available,
            read_bytes_per_second: 1_048_576,
            write_bytes_per_second: 524_288,
            device_count: 2,
        },
        network: NetworkTelemetry {
            availability: TelemetryAvailability::WarmingUp,
            receive_bytes_per_second: 0,
            transmit_bytes_per_second: 0,
            interface_count: 1,
        },
    }
}

#[test]
fn store_starts_empty() {
    let store = TelemetryStore::default();
    assert!(store.current().is_none());
}

#[test]
fn publish_makes_current_available() {
    let mut store = TelemetryStore::default();
    store.publish(test_snapshot(1));
    let current = store.current().unwrap();
    assert_eq!(current.sequence, 1);
    assert_eq!(current.cpu.logical_cpu_count, 8);
}

#[test]
fn publish_overwrites_previous() {
    let mut store = TelemetryStore::default();
    store.publish(test_snapshot(1));
    store.publish(test_snapshot(2));
    let current = store.current().unwrap();
    assert_eq!(current.sequence, 2);
}

#[test]
fn published_snapshot_is_shared_arc() {
    let mut store = TelemetryStore::default();
    store.publish(test_snapshot(5));
    let first = store.current().unwrap();
    let second = store.current().unwrap();
    assert!(Arc::ptr_eq(&first, &second));
}
