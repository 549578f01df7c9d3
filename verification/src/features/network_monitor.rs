//! Network monitoring data types

use crate::clock::Timestamp;
use crate::text::{begins_with, starts_with};
use std::collections::VecDeque;
use vstd::prelude::*;

verus! {

/// Network statistics for a single process
#[derive(Debug)]
pub struct ProcessNetworkStats {
    /// Process ID
    pub pid: u32,
    /// Process name
    pub process_name: String,
    /// Bytes sent by this process
    pub bytes_sent: u64,
    /// Bytes received by this process
    pub bytes_received: u64,
    /// Number of active connections
    pub connections: u32,
    /// Ports used by this process
    pub ports: Vec<u16>,
}

/// What the statistics of a process hold, as plain values.
pub struct ProcessNetworkStatsView {
    pub pid: u32,
    pub process_name: Seq<char>,
    pub bytes_sent: u64,
    pub bytes_received: u64,
    pub connections: u32,
    pub ports: Seq<u16>,
}

impl View for ProcessNetworkStats {
    type V = ProcessNetworkStatsView;

    open spec fn view(&self) -> ProcessNetworkStatsView {
        ProcessNetworkStatsView {
            pid: self.pid,
            process_name: self.process_name@,
            bytes_sent: self.bytes_sent,
            bytes_received: self.bytes_received,
            connections: self.connections,
            ports: self.ports@,
        }
    }
}

impl DeepView for ProcessNetworkStats {
    type V = ProcessNetworkStatsView;

    open spec fn deep_view(&self) -> ProcessNetworkStatsView {
        self@
    }
}

impl Clone for ProcessNetworkStats {
    fn clone(&self) -> (copy: Self)
        ensures
            copy@ == self@,
    {
        ProcessNetworkStats {
            pid: self.pid,
            process_name: self.process_name.clone(),
            bytes_sent: self.bytes_sent,
            bytes_received: self.bytes_received,
            connections: self.connections,
            ports: self.ports.clone(),
        }
    }
}

/// Protocol-level statistics
#[derive(Debug, Clone, Copy, PartialEq, Eq, Structural)]
pub struct ProtocolStats {
    /// TCP connections count
    pub tcp_connections: u32,
    /// UDP connections count
    pub udp_connections: u32,
    /// HTTP connections (port 80, 8080, etc.)
    pub http_connections: u32,
    /// HTTPS connections (port 443)
    pub https_connections: u32,
}

impl Default for ProtocolStats {
    fn default() -> (stats: Self)
        ensures
            stats == (ProtocolStats {
                tcp_connections: 0,
                udp_connections: 0,
                http_connections: 0,
                https_connections: 0,
            }),
    {
        ProtocolStats { tcp_connections: 0, udp_connections: 0, http_connections: 0, https_connections: 0 }
    }
}

/// Network interface statistics
#[derive(Debug, Clone)]
pub struct NetworkInterfaceStats {
    /// Interface name (e.g., en0, lo0, eth0)
    pub name: String,
    /// Total bytes transmitted
    pub bytes_sent: u64,
    /// Total bytes received
    pub bytes_received: u64,
    /// Total packets transmitted
    pub packets_sent: u64,
    /// Total packets received
    pub packets_received: u64,
    /// Errors on transmission
    pub errors_sent: u64,
    /// Errors on reception
    pub errors_received: u64,
    /// MAC address if available
    pub mac_address: Option<String>,
    /// Interface type/description
    pub interface_type: String,
    /// Is this interface active/up
    pub is_up: bool,
}

/// Network snapshot at a point in time
#[derive(Debug)]
pub struct NetworkSnapshot {
    /// Timestamp of this snapshot
    pub timestamp: Timestamp,
    /// Total bytes sent across all interfaces
    pub total_bytes_sent: u64,
    /// Total bytes received across all interfaces
    pub total_bytes_received: u64,
    /// Total packets sent
    pub total_packets_sent: u64,
    /// Total packets received
    pub total_packets_received: u64,
    /// Per-process network statistics
    pub processes: Vec<ProcessNetworkStats>,
    /// Protocol breakdown
    pub protocol_stats: ProtocolStats,
}

/// What a snapshot holds, as plain values.
pub struct NetworkSnapshotView {
    pub timestamp: Timestamp,
    pub total_bytes_sent: u64,
    pub total_bytes_received: u64,
    pub total_packets_sent: u64,
    pub total_packets_received: u64,
    pub processes: Seq<ProcessNetworkStatsView>,
    pub protocol_stats: ProtocolStats,
}

impl View for NetworkSnapshot {
    type V = NetworkSnapshotView;

    open spec fn view(&self) -> NetworkSnapshotView {
        NetworkSnapshotView {
            timestamp: self.timestamp,
            total_bytes_sent: self.total_bytes_sent,
            total_bytes_received: self.total_bytes_received,
            total_packets_sent: self.total_packets_sent,
            total_packets_received: self.total_packets_received,
            processes: self.processes.deep_view(),
            protocol_stats: self.protocol_stats,
        }
    }
}

impl Clone for NetworkSnapshot {
    fn clone(&self) -> (copy: Self)
        ensures
            copy@ == self@,
    {
        let mut processes: Vec<ProcessNetworkStats> = Vec::new();
        let mut i: usize = 0;
        while i < self.processes.len()
            invariant
                i <= self.processes.len(),
                processes@.len() == i,
                forall|j: int| 0 <= j < i ==> (#[trigger] processes@[j])@ == self.processes@[j]@,
            decreases self.processes.len() - i,
        {
            processes.push(self.processes[i].clone());
            i = i + 1;
        }
        assert(processes.deep_view() =~= self.processes.deep_view());
        NetworkSnapshot {
            timestamp: self.timestamp,
            total_bytes_sent: self.total_bytes_sent,
            total_bytes_received: self.total_bytes_received,
            total_packets_sent: self.total_packets_sent,
            total_packets_received: self.total_packets_received,
            processes,
            protocol_stats: self.protocol_stats,
        }
    }
}

/// Whether `copies` holds a copy of each snapshot of `snapshots`, in order.
pub open spec fn copies_of(copies: Seq<NetworkSnapshot>, snapshots: Seq<NetworkSnapshot>) -> bool {
    &&& copies.len() == snapshots.len()
    &&& forall|i: int| 0 <= i < copies.len() ==> (#[trigger] copies[i])@ == snapshots[i]@
}

/// Whether a snapshot was taken after the time that lies `seconds` seconds
/// before `now`.
pub open spec fn within_last(snapshot: NetworkSnapshot, now: Timestamp, seconds: u64) -> bool {
    snapshot.timestamp.secs - now.secs + seconds > 0 || (snapshot.timestamp.secs - now.secs + seconds
        == 0 && snapshot.timestamp.nanos > now.nanos)
}

/// The snapshots that were taken within the last `seconds` seconds before
/// `now`, in order.
pub open spec fn taken_within(snapshots: Seq<NetworkSnapshot>, now: Timestamp, seconds: u64) -> Seq<
    NetworkSnapshot,
> {
    snapshots.filter(|s: NetworkSnapshot| within_last(s, now, seconds))
}

/// Fixed-size circular buffer for network snapshots. A buffer made with
/// capacity zero still keeps the newest snapshot.
pub struct CircularBuffer {
    data: VecDeque<NetworkSnapshot>,
    capacity: usize,
}

impl View for CircularBuffer {
    type V = Seq<NetworkSnapshot>;

    /// The snapshots that are kept, oldest first.
    closed spec fn view(&self) -> Seq<NetworkSnapshot> {
        self.data@
    }
}

impl CircularBuffer {
    /// The number of snapshots that the buffer has room for.
    pub closed spec fn room(self) -> nat {
        self.capacity as nat
    }

    /// Create a new circular buffer with specified capacity
    pub fn new(capacity: usize) -> (buffer: Self)
        ensures
            buffer@ == Seq::<NetworkSnapshot>::empty(),
            buffer.room() == capacity,
    {
        CircularBuffer { data: VecDeque::new(), capacity }
    }

    /// Add a snapshot to the buffer
    /// If buffer is full, removes oldest entry
    pub fn push(&mut self, snapshot: NetworkSnapshot)
        ensures
            final(self).room() == old(self).room(),
            final(self)@ == if old(self)@.len() >= old(self).room() && old(self)@.len() > 0 {
                old(self)@.drop_first().push(snapshot)
            } else {
                old(self)@.push(snapshot)
            },
    {
        if self.data.len() >= self.capacity {
            self.data.pop_front();
        }
        self.data.push_back(snapshot);
        assert(self@ =~= if old(self)@.len() >= old(self).room() && old(self)@.len() > 0 {
            old(self)@.drop_first().push(snapshot)
        } else {
            old(self)@.push(snapshot)
        });
    }

    /// Get all snapshots in chronological order
    pub fn get_all(&self) -> (all: Vec<NetworkSnapshot>)
        ensures
            copies_of(all@, self@),
    {
        let mut out: Vec<NetworkSnapshot> = Vec::new();
        let mut i: usize = 0;
        while i < self.data.len()
            invariant
                i <= self.data@.len(),
                copies_of(out@, self.data@.take(i as int)),
            decreases self.data@.len() - i,
        {
            out.push(self.data[i].clone());
            i = i + 1;
        }
        assert(self.data@.take(i as int) =~= self.data@);
        out
    }

    /// Get snapshots from the last N seconds before `now`
    pub fn get_last_seconds_at(&self, seconds: u64, now: Timestamp) -> (recent: Vec<NetworkSnapshot>)
        ensures
            copies_of(recent@, taken_within(self@, now, seconds)),
    {
        let ghost pred = |s: NetworkSnapshot| within_last(s, now, seconds);
        let mut out: Vec<NetworkSnapshot> = Vec::new();
        let mut i: usize = 0;
        proof {
            reveal(Seq::filter);
        }
        while i < self.data.len()
            invariant
                i <= self.data@.len(),
                pred == |s: NetworkSnapshot| within_last(s, now, seconds),
                copies_of(out@, self.data@.take(i as int).filter(pred)),
            decreases self.data@.len() - i,
        {
            proof {
                reveal(Seq::filter);
                assert(self.data@.take(i + 1).drop_last() =~= self.data@.take(i as int));
            }
            let taken = self.data[i].timestamp;
            let distance: i128 = taken.secs as i128 - now.secs as i128 + seconds as i128;
            if distance > 0 || (distance == 0 && taken.nanos > now.nanos) {
                out.push(self.data[i].clone());
            }
            i = i + 1;
        }
        assert(self.data@.take(i as int) =~= self.data@);
        out
    }

    /// Get snapshots from the last N seconds
    pub fn get_last_seconds(&self, seconds: u64) -> (recent: Vec<NetworkSnapshot>)
        ensures
            exists|now: Timestamp| copies_of(recent@, #[trigger] taken_within(self@, now, seconds)),
    {
        let now = Timestamp::now();
        let recent = self.get_last_seconds_at(seconds, now);
        assert(copies_of(recent@, taken_within(self@, now, seconds)));
        recent
    }

    /// Get the most recent snapshot
    pub fn get_latest(&self) -> (latest: Option<&NetworkSnapshot>)
        ensures
            match latest {
                Some(snapshot) => self@.len() > 0 && *snapshot == self@.last(),
                None => self@.len() == 0,
            },
    {
        let n = self.data.len();
        if n == 0 {
            None
        } else {
            Some(&self.data[n - 1])
        }
    }

    /// Clear all data
    pub fn clear(&mut self)
        ensures
            final(self)@ == Seq::<NetworkSnapshot>::empty(),
            final(self).room() == old(self).room(),
    {
        self.data.clear();
    }

    /// Get buffer size
    pub fn len(&self) -> (n: usize)
        ensures
            n == self@.len(),
    {
        self.data.len()
    }

    /// Check if buffer is empty
    pub fn is_empty(&self) -> (r: bool)
        ensures
            r == (self@.len() == 0),
    {
        self.data.len() == 0
    }

    /// Get buffer capacity
    pub fn capacity(&self) -> (n: usize)
        ensures
            n == self.room(),
    {
        self.capacity
    }
}

/// The kind of network interface that a name stands for.
pub open spec fn interface_kind(name: Seq<char>) -> Seq<char> {
    if begins_with(name, "lo"@) {
        "Loopback"@
    } else if begins_with(name, "en"@) {
        "Ethernet"@
    } else if begins_with(name, "wlan"@) || begins_with(name, "wi"@) {
        "Wi-Fi"@
    } else if begins_with(name, "eth"@) {
        "Ethernet"@
    } else if begins_with(name, "utun"@) || begins_with(name, "tun"@) {
        "VPN Tunnel"@
    } else if begins_with(name, "awdl"@) {
        "Apple Wireless Direct Link"@
    } else if begins_with(name, "anpi"@) {
        "Apple Network Provider Interface"@
    } else if begins_with(name, "gif"@) {
        "Generic Tunnel Interface"@
    } else if begins_with(name, "bridge"@) {
        "Network Bridge"@
    } else {
        "Unknown"@
    }
}

/// Classify interface by name
pub fn classify_interface(name: &str) -> (kind: String)
    ensures
        kind@ == interface_kind(name@),
{
    if starts_with(name, "lo") {
        "Loopback".to_owned()
    } else if starts_with(name, "en") {
        "Ethernet".to_owned()
    } else if starts_with(name, "wlan") || starts_with(name, "wi") {
        "Wi-Fi".to_owned()
    } else if starts_with(name, "eth") {
        "Ethernet".to_owned()
    } else if starts_with(name, "utun") || starts_with(name, "tun") {
        "VPN Tunnel".to_owned()
    } else if starts_with(name, "awdl") {
        "Apple Wireless Direct Link".to_owned()
    } else if starts_with(name, "anpi") {
        "Apple Network Provider Interface".to_owned()
    } else if starts_with(name, "gif") {
        "Generic Tunnel Interface".to_owned()
    } else if starts_with(name, "bridge") {
        "Network Bridge".to_owned()
    } else {
        "Unknown".to_owned()
    }
}

} // verus!
