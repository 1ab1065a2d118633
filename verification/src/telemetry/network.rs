//! `/proc/net/dev` parsing and aggregate network throughput.
use vstd::prelude::*;

use crate::protocol::{NetworkTelemetry, TelemetryAvailability};
use crate::telemetry::disk::{device_count_u16, saturating_mul_u128};
use crate::named::{lookup, NamedCounters};
use crate::text::{
    chars_of, eq_str, lines, parse_unsigned, parse_unsigned_spec, split_ascii_whitespace,
    split_lines, split_once, split_once_spec, string_of, tokens, trim, trim_chars, views,
};

verus! {

#[derive(Debug, Clone, Copy, PartialEq, Eq, Structural)]
pub struct NetworkInterfaceCounters {
    pub received_bytes: u64,
    pub transmitted_bytes: u64,
}

/// One interface's name and counters.
pub type InterfaceEntry = (Seq<char>, NetworkInterfaceCounters);

/// The counters of every non-loopback interface, keyed by interface name.
#[derive(Debug)]
pub struct NetworkCountersSnapshot {
    interfaces: NamedCounters<NetworkInterfaceCounters>,
}

#[derive(Debug, Clone, Copy, PartialEq, Eq, Structural)]
pub enum NetworkParseError {
    MalformedEntry,
    InvalidCounter,
    TooManyInterfaces,
    DuplicateInterface,
}

impl NetworkParseError {
    /// The human-readable description of the error.
    pub fn message(&self) -> (m: &'static str)
        ensures
            m@ == (match *self {
            NetworkParseError::MalformedEntry => "network interface entry is malformed"@,
            NetworkParseError::InvalidCounter => "network counter is not an unsigned integer"@,
            NetworkParseError::TooManyInterfaces => "network interface limit exceeded"@,
            NetworkParseError::DuplicateInterface => "network interface appears more than once"@,
        }),
    {
        match self {
            NetworkParseError::MalformedEntry => "network interface entry is malformed",
            NetworkParseError::InvalidCounter => "network counter is not an unsigned integer",
            NetworkParseError::TooManyInterfaces => "network interface limit exceeded",
            NetworkParseError::DuplicateInterface => "network interface appears more than once",
        }
    }
}

impl NetworkCountersSnapshot {
    /// The recorded interfaces, in the order they were first recorded.
    pub closed spec fn entries(&self) -> Seq<InterfaceEntry> {
        self.interfaces.entries()
    }

    /// A snapshot with no interfaces.
    pub fn new() -> (s: Self)
        ensures
            s.entries() == Seq::<InterfaceEntry>::empty(),
    {
        NetworkCountersSnapshot { interfaces: NamedCounters::new() }
    }

    pub fn interface_count(&self) -> (n: usize)
        ensures
            n == self.entries().len(),
    {
        self.interfaces.len()
    }

    /// The counters recorded for `name`, if any.
    pub fn get(&self, name: &str) -> (r: Option<NetworkInterfaceCounters>)
        ensures
            r == lookup(self.entries(), name@),
    {
        self.interfaces.get(name)
    }

    /// Records `counters` under `name`, replacing and returning what was
    /// recorded there before.
    pub fn insert(&mut self, name: String, counters: NetworkInterfaceCounters) -> (previous:
        Option<NetworkInterfaceCounters>)
        ensures
            previous == lookup(old(self).entries(), name@),
            previous is None ==> final(self).entries() == old(self).entries().push(
                (name@, counters),
            ),
            forall|n: Seq<char>|
                lookup(final(self).entries(), n) == if n == name@ {
                    Some(counters)
                } else {
                    lookup(old(self).entries(), n)
                },
    {
        self.interfaces.insert(name, counters)
    }
}

impl Clone for NetworkCountersSnapshot {
    fn clone(&self) -> (c: Self)
        ensures
            c.entries() == self.entries(),
    {
        NetworkCountersSnapshot { interfaces: self.interfaces.clone() }
    }
}

/// A byte counter: an unsigned 64-bit decimal.
pub open spec fn byte_counter(t: Seq<char>) -> Option<nat> {
    parse_unsigned_spec(t, u64::MAX as nat)
}

/// One interface line applied to the interfaces read so far. The loopback
/// interface is never counted.
pub open spec fn net_dev_step(
    acc: Result<Seq<InterfaceEntry>, NetworkParseError>,
    line: Seq<char>,
    max_interfaces: u16,
) -> Result<Seq<InterfaceEntry>, NetworkParseError> {
    match acc {
        Err(e) => Err(e),
        Ok(interfaces) => match split_once_spec(line, ':') {
            None => Ok(interfaces),
            Some((raw_name, counters)) => {
                let name = trim(raw_name);
                let t = tokens(counters);
                if name.len() == 0 || name == "lo"@ {
                    Ok(interfaces)
                } else if t.len() == 0 {
                    Err(NetworkParseError::MalformedEntry)
                } else if byte_counter(t[0]) is None {
                    Err(NetworkParseError::InvalidCounter)
                } else if t.len() < 9 {
                    Err(NetworkParseError::MalformedEntry)
                } else if byte_counter(t[8]) is None {
                    Err(NetworkParseError::InvalidCounter)
                } else if interfaces.len() >= max_interfaces {
                    Err(NetworkParseError::TooManyInterfaces)
                } else if lookup(interfaces, name) is Some {
                    Err(NetworkParseError::DuplicateInterface)
                } else {
                    Ok(
                        interfaces.push(
                            (
                                name,
                                NetworkInterfaceCounters {
                                    received_bytes: byte_counter(t[0]).unwrap() as u64,
                                    transmitted_bytes: byte_counter(t[8]).unwrap() as u64,
                                },
                            ),
                        ),
                    )
                }
            },
        },
    }
}

/// The interfaces read from the given lines, or the first error.
pub open spec fn net_dev_lines(ls: Seq<Seq<char>>, max_interfaces: u16) -> Result<
    Seq<InterfaceEntry>,
    NetworkParseError,
>
    decreases ls.len(),
{
    if ls.len() == 0 {
        Ok(Seq::empty())
    } else {
        net_dev_step(net_dev_lines(ls.drop_last(), max_interfaces), ls.last(), max_interfaces)
    }
}

/// What `parse_net_dev` reads: every line after the two header lines.
pub open spec fn net_dev_result(s: Seq<char>, max_interfaces: u16) -> Result<
    Seq<InterfaceEntry>,
    NetworkParseError,
> {
    let ls = lines(s);
    net_dev_lines(if ls.len() > 2 { ls.skip(2) } else { Seq::empty() }, max_interfaces)
}

proof fn lemma_net_dev_error_sticks(ls: Seq<Seq<char>>, k: int, max_interfaces: u16)
    requires
        0 <= k <= ls.len(),
        net_dev_lines(ls.take(k), max_interfaces) is Err,
    ensures
        net_dev_lines(ls, max_interfaces) == net_dev_lines(ls.take(k), max_interfaces),
    decreases ls.len() - k,
{
    if k < ls.len() {
        assert(ls.take(k + 1).drop_last() =~= ls.take(k));
        lemma_net_dev_error_sticks(ls, k + 1, max_interfaces);
    } else {
        assert(ls.take(k) =~= ls);
    }
}

fn net_dev_line(
    snapshot: &mut NetworkCountersSnapshot,
    line: &[char],
    max_interfaces: u16,
) -> (r: Result<(), NetworkParseError>)
    ensures
        match r {
            Ok(()) => net_dev_step(Ok(old(snapshot).entries()), line@, max_interfaces) == Ok::<
                Seq<InterfaceEntry>,
                NetworkParseError,
            >(final(snapshot).entries()),
            Err(e) => net_dev_step(Ok(old(snapshot).entries()), line@, max_interfaces) == Err::<
                Seq<InterfaceEntry>,
                NetworkParseError,
            >(e),
        },
{
    let (raw_name, counters) = match split_once(line, ':') {
        Some(p) => p,
        None => return Ok(()),
    };
    let name = trim_chars(raw_name.as_slice());
    if name.len() == 0 || eq_str(name.as_slice(), "lo") {
        return Ok(());
    }
    let t = split_ascii_whitespace(counters.as_slice());
    let ghost tv = views(t@);
    if t.len() == 0 {
        return Err(NetworkParseError::MalformedEntry);
    }
    assert(tv[0] == t@[0]@);
    let received_bytes = match parse_unsigned(t[0].as_slice(), u64::MAX) {
        Some(v) => v,
        None => return Err(NetworkParseError::InvalidCounter),
    };
    if t.len() < 9 {
        return Err(NetworkParseError::MalformedEntry);
    }
    assert(tv[8] == t@[8]@);
    let transmitted_bytes = match parse_unsigned(t[8].as_slice(), u64::MAX) {
        Some(v) => v,
        None => return Err(NetworkParseError::InvalidCounter),
    };
    if snapshot.interface_count() >= max_interfaces as usize {
        return Err(NetworkParseError::TooManyInterfaces);
    }
    let key = string_of(name.as_slice());
    if snapshot.insert(key, NetworkInterfaceCounters { received_bytes, transmitted_bytes }).is_some() {
        return Err(NetworkParseError::DuplicateInterface);
    }
    Ok(())
}

/// Parses `/proc/net/dev`, skipping its two header lines and the loopback
/// interface, keeping at most `max_interfaces` interfaces.
pub fn parse_net_dev(input: &str, max_interfaces: u16) -> (r: Result<
    NetworkCountersSnapshot,
    NetworkParseError,
>)
    ensures
        match r {
            Ok(snapshot) => net_dev_result(input@, max_interfaces) == Ok::<
                Seq<InterfaceEntry>,
                NetworkParseError,
            >(snapshot.entries()),
            Err(e) => net_dev_result(input@, max_interfaces) == Err::<
                Seq<InterfaceEntry>,
                NetworkParseError,
            >(e),
        },
{
    let chars = chars_of(input);
    let ls = split_lines(chars.as_slice());
    let ghost all = views(ls@);
    let ghost body = if all.len() > 2 {
        all.skip(2)
    } else {
        Seq::<Seq<char>>::empty()
    };
    let mut snapshot = NetworkCountersSnapshot::new();
    if ls.len() <= 2 {
        assert(body =~= Seq::<Seq<char>>::empty());
        return Ok(snapshot);
    }
    let mut i: usize = 2;
    while i < ls.len()
        invariant
            2 <= i <= ls@.len(),
            all == views(ls@),
            all == lines(input@),
            all.len() > 2,
            body == all.skip(2),
            net_dev_lines(body.take(i - 2), max_interfaces) == Ok::<
                Seq<InterfaceEntry>,
                NetworkParseError,
            >(snapshot.entries()),
        decreases ls@.len() - i,
    {
        assert(body.take(i - 1).drop_last() =~= body.take(i - 2));
        assert(body.take(i - 1).last() == ls@[i as int]@);
        if let Err(e) = net_dev_line(&mut snapshot, ls[i].as_slice(), max_interfaces) {
            proof {
                lemma_net_dev_error_sticks(body, i - 1, max_interfaces);
            }
            return Err(e);
        }
        i = i + 1;
    }
    assert(body.take(i - 2) =~= body);
    Ok(snapshot)
}

/// Bytes received on an interface since the previous sample; an interface
/// that is new adds nothing, and a counter that went backwards adds nothing.
pub open spec fn received_progress(previous: Seq<InterfaceEntry>, e: InterfaceEntry) -> nat {
    match lookup(previous, e.0) {
        Some(p) => if e.1.received_bytes > p.received_bytes {
            (e.1.received_bytes - p.received_bytes) as nat
        } else {
            0
        },
        None => 0,
    }
}

/// Bytes transmitted on an interface since the previous sample, under the
/// same rule.
pub open spec fn transmitted_progress(previous: Seq<InterfaceEntry>, e: InterfaceEntry) -> nat {
    match lookup(previous, e.0) {
        Some(p) => if e.1.transmitted_bytes > p.transmitted_bytes {
            (e.1.transmitted_bytes - p.transmitted_bytes) as nat
        } else {
            0
        },
        None => 0,
    }
}

pub open spec fn total_received(previous: Seq<InterfaceEntry>, current: Seq<InterfaceEntry>) -> nat
    decreases current.len(),
{
    if current.len() == 0 {
        0
    } else {
        total_received(previous, current.drop_last()) + received_progress(previous, current.last())
    }
}

pub open spec fn total_transmitted(previous: Seq<InterfaceEntry>, current: Seq<InterfaceEntry>) -> nat
    decreases current.len(),
{
    if current.len() == 0 {
        0
    } else {
        total_transmitted(previous, current.drop_last()) + transmitted_progress(
            previous,
            current.last(),
        )
    }
}

/// Bytes per second over an elapsed time in nanoseconds, saturating at the
/// largest `u64`.
pub open spec fn byte_rate(bytes: nat, elapsed_nanos: nat) -> u64 {
    let r = saturating_mul_u128(bytes, 1_000_000_000) / elapsed_nanos;
    if r > u64::MAX {
        u64::MAX
    } else {
        r as u64
    }
}

fn byte_rate_exec(bytes: u128, elapsed_nanos: u128) -> (r: u64)
    requires
        elapsed_nanos > 0,
    ensures
        r == byte_rate(bytes as nat, elapsed_nanos as nat),
{
    let scaled: u128 = match bytes.checked_mul(1_000_000_000) {
        Some(v) => v,
        None => u128::MAX,
    };
    let per_second = scaled / elapsed_nanos;
    if per_second > u64::MAX as u128 {
        u64::MAX
    } else {
        per_second as u64
    }
}

/// Network telemetry for the interfaces `current`, given the interfaces of
/// the previous sample, if any, taken `elapsed_nanos` nanoseconds earlier.
/// Without a previous sample, or with no elapsed time, the result is warming
/// up; with no interface left it is offline.
pub open spec fn network_telemetry(
    previous: Option<Seq<InterfaceEntry>>,
    current: Seq<InterfaceEntry>,
    elapsed_nanos: u128,
) -> NetworkTelemetry {
    let interface_count = device_count_u16(current.len());
    match previous {
        Some(p) if elapsed_nanos != 0 => if current.len() == 0 {
            NetworkTelemetry {
                availability: TelemetryAvailability::Offline,
                receive_bytes_per_second: 0,
                transmit_bytes_per_second: 0,
                interface_count,
            }
        } else {
            NetworkTelemetry {
                availability: TelemetryAvailability::Available,
                receive_bytes_per_second: byte_rate(total_received(p, current), elapsed_nanos as nat),
                transmit_bytes_per_second: byte_rate(
                    total_transmitted(p, current),
                    elapsed_nanos as nat,
                ),
                interface_count,
            }
        },
        _ => NetworkTelemetry {
            availability: TelemetryAvailability::WarmingUp,
            receive_bytes_per_second: 0,
            transmit_bytes_per_second: 0,
            interface_count,
        },
    }
}

pub open spec fn network_entries(s: Option<&NetworkCountersSnapshot>) -> Option<Seq<InterfaceEntry>> {
    match s {
        Some(v) => Some(v.entries()),
        None => None,
    }
}

/// Network throughput between two samples taken `elapsed_nanos` nanoseconds
/// apart.
pub fn calculate_network_telemetry(
    previous: Option<&NetworkCountersSnapshot>,
    current: &NetworkCountersSnapshot,
    elapsed_nanos: u128,
) -> (t: NetworkTelemetry)
    ensures
        t == network_telemetry(network_entries(previous), current.entries(), elapsed_nanos),
{
    let n = current.interface_count();
    let interface_count: u16 = if n > 65535 {
        65535
    } else {
        n as u16
    };
    let previous = match previous {
        Some(p) => {
            if elapsed_nanos == 0 {
                return NetworkTelemetry {
                    availability: TelemetryAvailability::WarmingUp,
                    receive_bytes_per_second: 0,
                    transmit_bytes_per_second: 0,
                    interface_count,
                };
            }
            p
        },
        None => {
            return NetworkTelemetry {
                availability: TelemetryAvailability::WarmingUp,
                receive_bytes_per_second: 0,
                transmit_bytes_per_second: 0,
                interface_count,
            };
        },
    };
    if n == 0 {
        return NetworkTelemetry {
            availability: TelemetryAvailability::Offline,
            receive_bytes_per_second: 0,
            transmit_bytes_per_second: 0,
            interface_count,
        };
    }
    let ghost p = previous.entries();
    let ghost c = current.entries();
    let mut received: u128 = 0;
    let mut transmitted: u128 = 0;
    let mut i: usize = 0;
    while i < n
        invariant
            i <= n,
            n == c.len(),
            c == current.entries(),
            p == previous.entries(),
            received == total_received(p, c.take(i as int)),
            transmitted == total_transmitted(p, c.take(i as int)),
            received <= i * 0xffff_ffff_ffff_ffffu128,
            transmitted <= i * 0xffff_ffff_ffff_ffffu128,
        decreases n - i,
    {
        let name = current.interfaces.name_at(i);
        let now = current.interfaces.value_at(i);
        assert(c.take(i + 1).drop_last() =~= c.take(i as int));
        assert(c.take(i + 1).last() == c[i as int]);
        match previous.interfaces.lookup_name(name) {
            Some(before) => {
                if now.received_bytes > before.received_bytes {
                    received = received + (now.received_bytes - before.received_bytes) as u128;
                }
                if now.transmitted_bytes > before.transmitted_bytes {
                    transmitted = transmitted + (now.transmitted_bytes - before.transmitted_bytes) as u128;
                }
            },
            None => {},
        }
        i = i + 1;
    }
    assert(c.take(i as int) =~= c);
    NetworkTelemetry {
        availability: TelemetryAvailability::Available,
        receive_bytes_per_second: byte_rate_exec(received, elapsed_nanos),
        transmit_bytes_per_second: byte_rate_exec(transmitted, elapsed_nanos),
        interface_count,
    }
}

/// An interface that is new since the previous sample, or whose counters
/// went backwards, adds nothing: churn and resets never produce false spikes.
pub proof fn lemma_interface_churn_adds_nothing(
    previous: Seq<InterfaceEntry>,
    current: Seq<InterfaceEntry>,
)
    requires
        forall|i: int|
            0 <= i < current.len() ==> match #[trigger] lookup(previous, current[i].0) {
                None => true,
                Some(p) => current[i].1.received_bytes <= p.received_bytes
                    && current[i].1.transmitted_bytes <= p.transmitted_bytes,
            },
    ensures
        total_received(previous, current) == 0,
        total_transmitted(previous, current) == 0,
    decreases current.len(),
{
    if current.len() > 0 {
        let rest = current.drop_last();
        assert forall|i: int| 0 <= i < rest.len() implies match #[trigger] lookup(
            previous,
            rest[i].0,
        ) {
            None => true,
            Some(p) => rest[i].1.received_bytes <= p.received_bytes && rest[i].1.transmitted_bytes
                <= p.transmitted_bytes,
        } by {
            assert(rest[i] == current[i]);
        }
        lemma_interface_churn_adds_nothing(previous, rest);
        assert(lookup(previous, current[current.len() - 1].0) == lookup(previous, current.last().0));
    }
}


/// Throughput totals add up over interfaces: the bytes counted for the
/// interfaces of `a` followed by those of `b` are the bytes counted for `a`
/// plus those counted for `b`, in both directions.
pub proof fn lemma_totals_add_over_interfaces(
    previous: Seq<InterfaceEntry>,
    a: Seq<InterfaceEntry>,
    b: Seq<InterfaceEntry>,
)
    ensures
        total_received(previous, a + b) == total_received(previous, a) + total_received(previous, b),
        total_transmitted(previous, a + b) == total_transmitted(previous, a) + total_transmitted(
            previous,
            b,
        ),
    decreases b.len(),
{
    if b.len() == 0 {
        assert(a + b =~= a);
    } else {
        lemma_totals_add_over_interfaces(previous, a, b.drop_last());
        assert((a + b).drop_last() =~= a + b.drop_last());
        assert((a + b).last() == b.last());
    }
}

/// One interface counts exactly the bytes its counters moved forward since
/// the previous sample of the same interface, and nothing when it is new or
/// its counters went backwards.
pub proof fn lemma_interface_counts_its_forward_bytes(previous: Seq<InterfaceEntry>, e: InterfaceEntry)
    ensures
        total_received(previous, seq![e]) == match lookup(previous, e.0) {
            Some(p) => if p.received_bytes <= e.1.received_bytes {
                e.1.received_bytes - p.received_bytes
            } else {
                0
            },
            None => 0,
        },
        total_transmitted(previous, seq![e]) == match lookup(previous, e.0) {
            Some(p) => if p.transmitted_bytes <= e.1.transmitted_bytes {
                e.1.transmitted_bytes - p.transmitted_bytes
            } else {
                0
            },
            None => 0,
        },
{
    let one = seq![e];
    assert(one.drop_last() =~= Seq::<InterfaceEntry>::empty());
    assert(one.last() == e);
    assert(total_received(previous, one.drop_last()) == 0);
    assert(total_transmitted(previous, one.drop_last()) == 0);
    assert(total_received(previous, one) == received_progress(previous, e));
    assert(total_transmitted(previous, one) == transmitted_progress(previous, e));
}

/// With a previous sample and time elapsed, the reported rates are the
/// bytes of all current interfaces together, per second: the sum over the
/// interfaces, not any one of them. Adding an interface adds its own bytes.
pub proof fn lemma_rates_sum_over_interfaces(
    previous: Seq<InterfaceEntry>,
    current: Seq<InterfaceEntry>,
    e: InterfaceEntry,
    elapsed_nanos: u128,
)
    requires
        elapsed_nanos > 0,
    ensures
        total_received(previous, current.push(e)) == total_received(previous, current) + total_received(
            previous,
            seq![e],
        ),
        total_transmitted(previous, current.push(e)) == total_transmitted(previous, current)
            + total_transmitted(previous, seq![e]),
        network_telemetry(Some(previous), current.push(e), elapsed_nanos).receive_bytes_per_second
            == byte_rate(
            total_received(previous, current) + total_received(previous, seq![e]),
            elapsed_nanos as nat,
        ),
        network_telemetry(Some(previous), current.push(e), elapsed_nanos).transmit_bytes_per_second
            == byte_rate(
            total_transmitted(previous, current) + total_transmitted(previous, seq![e]),
            elapsed_nanos as nat,
        ),
{
    lemma_totals_add_over_interfaces(previous, current, seq![e]);
    assert(current + seq![e] =~= current.push(e));
}

} // verus!
