//! Metrics of the relay node and their Prometheus text rendering.
//!
//! Tracks active sessions, bytes forwarded, slots allocated and reclaimed,
//! packets dropped, and uptime. Counters wrap around on overflow, as the
//! atomic counters of a monitoring dashboard do.
use vstd::prelude::*;
use crate::text::{decimal, push_decimal};

verus! {

/// `x + y` wrapped to 64 bits.
pub open spec fn wrap_add(x: u64, y: u64) -> u64 {
    if x + y > u64::MAX {
        (x + y - 0x1_0000_0000_0000_0000) as u64
    } else {
        (x + y) as u64
    }
}

/// `x - y` wrapped to 64 bits.
pub open spec fn wrap_sub(x: u64, y: u64) -> u64 {
    if x >= y {
        (x - y) as u64
    } else {
        (x - y + 0x1_0000_0000_0000_0000) as u64
    }
}

/// Point-in-time values of all relay metrics.
#[derive(Debug, Clone, PartialEq, Eq, Structural)]
pub struct MetricsSnapshot {
    pub active_sessions: u64,
    pub total_bytes_forwarded: u64,
    pub slots_allocated: u64,
    pub slots_reclaimed: u64,
    pub packets_dropped: u64,
    pub uptime_secs: u64,
}

/// Metrics collector of a single relay node.
pub struct RelayMetrics {
    /// Number of currently active relay sessions (gauge).
    pub active_sessions: u64,
    /// Cumulative bytes forwarded through this relay (counter).
    pub total_bytes_forwarded: u64,
    /// Cumulative port-pair slots allocated (counter).
    pub slots_allocated: u64,
    /// Cumulative port-pair slots reclaimed (counter).
    pub slots_reclaimed: u64,
    /// Cumulative packets that could not be forwarded (counter).
    pub packets_dropped: u64,
    /// Seconds since the relay started (gauge, set by its owner).
    pub uptime_secs: u64,
}

/// The snapshot whose fields are the collector's counters.
pub open spec fn spec_snapshot(m: RelayMetrics) -> MetricsSnapshot {
    MetricsSnapshot {
        active_sessions: m.active_sessions,
        total_bytes_forwarded: m.total_bytes_forwarded,
        slots_allocated: m.slots_allocated,
        slots_reclaimed: m.slots_reclaimed,
        packets_dropped: m.packets_dropped,
        uptime_secs: m.uptime_secs,
    }
}

impl RelayMetrics {
    /// Create a new collector with all counters at zero.
    pub fn new() -> (m: Self)
        ensures
            spec_snapshot(m) == (MetricsSnapshot {
                active_sessions: 0,
                total_bytes_forwarded: 0,
                slots_allocated: 0,
                slots_reclaimed: 0,
                packets_dropped: 0,
                uptime_secs: 0,
            }),
    {
        RelayMetrics {
            active_sessions: 0,
            total_bytes_forwarded: 0,
            slots_allocated: 0,
            slots_reclaimed: 0,
            packets_dropped: 0,
            uptime_secs: 0,
        }
    }

    /// Increment the active session count by one.
    pub fn inc_session(&mut self)
        ensures
            spec_snapshot(*final(self)) == (MetricsSnapshot {
                active_sessions: wrap_add(old(self).active_sessions, 1),
                ..spec_snapshot(*old(self))
            }),
    {
        self.active_sessions = self.active_sessions.wrapping_add(1);
    }

    /// Decrement the active session count by one.
    pub fn dec_session(&mut self)
        ensures
            spec_snapshot(*final(self)) == (MetricsSnapshot {
                active_sessions: wrap_sub(old(self).active_sessions, 1),
                ..spec_snapshot(*old(self))
            }),
    {
        self.active_sessions = self.active_sessions.wrapping_sub(1);
    }

    /// Add `bytes` to the total-bytes-forwarded counter.
    pub fn add_bytes(&mut self, bytes: u64)
        ensures
            spec_snapshot(*final(self)) == (MetricsSnapshot {
                total_bytes_forwarded: wrap_add(old(self).total_bytes_forwarded, bytes),
                ..spec_snapshot(*old(self))
            }),
    {
        self.total_bytes_forwarded = self.total_bytes_forwarded.wrapping_add(bytes);
    }

    /// Increment the slots-allocated counter by one.
    pub fn inc_slot_alloc(&mut self)
        ensures
            spec_snapshot(*final(self)) == (MetricsSnapshot {
                slots_allocated: wrap_add(old(self).slots_allocated, 1),
                ..spec_snapshot(*old(self))
            }),
    {
        self.slots_allocated = self.slots_allocated.wrapping_add(1);
    }

    /// Increment the slots-reclaimed counter by one.
    pub fn inc_slot_reclaim(&mut self)
        ensures
            spec_snapshot(*final(self)) == (MetricsSnapshot {
                slots_reclaimed: wrap_add(old(self).slots_reclaimed, 1),
                ..spec_snapshot(*old(self))
            }),
    {
        self.slots_reclaimed = self.slots_reclaimed.wrapping_add(1);
    }

    /// Increment the packets-dropped counter by one.
    pub fn inc_dropped(&mut self)
        ensures
            spec_snapshot(*final(self)) == (MetricsSnapshot {
                packets_dropped: wrap_add(old(self).packets_dropped, 1),
                ..spec_snapshot(*old(self))
            }),
    {
        self.packets_dropped = self.packets_dropped.wrapping_add(1);
    }

    /// Take a point-in-time snapshot of all counters.
    pub fn snapshot(&self) -> (s: MetricsSnapshot)
        ensures
            s == spec_snapshot(*self),
    {
        MetricsSnapshot {
            active_sessions: self.active_sessions,
            total_bytes_forwarded: self.total_bytes_forwarded,
            slots_allocated: self.slots_allocated,
            slots_reclaimed: self.slots_reclaimed,
            packets_dropped: self.packets_dropped,
            uptime_secs: self.uptime_secs,
        }
    }
}

impl Default for RelayMetrics {
    fn default() -> (m: Self)
        ensures
            spec_snapshot(m) == (MetricsSnapshot {
                active_sessions: 0,
                total_bytes_forwarded: 0,
                slots_allocated: 0,
                slots_reclaimed: 0,
                packets_dropped: 0,
                uptime_secs: 0,
            }),
    {
        Self::new()
    }
}

/// One metric in the Prometheus text exposition format:
/// `# HELP`, `# TYPE` and value lines.
pub open spec fn metric_block(name: Seq<char>, help: Seq<char>, kind: Seq<char>, value: u64) -> Seq<char> {
    "# HELP "@ + name + " "@ + help + "\n"@ + "# TYPE "@ + name + " "@ + kind + "\n"@ + name + " "@
        + decimal(value as nat) + "\n"@
}

/// The full Prometheus rendering of a snapshot.
pub open spec fn spec_prometheus(s: MetricsSnapshot) -> Seq<char> {
    metric_block("rdcs_active_sessions"@, "Active relay sessions"@, "gauge"@, s.active_sessions)
        + metric_block(
        "rdcs_total_bytes_forwarded"@,
        "Total bytes forwarded through relay"@,
        "counter"@,
        s.total_bytes_forwarded,
    ) + metric_block(
        "rdcs_slots_allocated"@,
        "Total port-pair slots allocated"@,
        "counter"@,
        s.slots_allocated,
    ) + metric_block(
        "rdcs_slots_reclaimed"@,
        "Total port-pair slots reclaimed"@,
        "counter"@,
        s.slots_reclaimed,
    ) + metric_block(
        "rdcs_packets_dropped"@,
        "Total packets that could not be forwarded"@,
        "counter"@,
        s.packets_dropped,
    ) + metric_block("rdcs_uptime_secs"@, "Seconds since relay started"@, "gauge"@, s.uptime_secs)
}

/// Append one metric block of the given kind.
fn emit_metric(out: &mut String, name: &str, help: &str, kind: &str, value: u64)
    ensures
        final(out)@ == old(out)@ + metric_block(name@, help@, kind@, value),
{
    out.append("# HELP ");
    out.append(name);
    out.append(" ");
    out.append(help);
    out.append("\n");
    out.append("# TYPE ");
    out.append(name);
    out.append(" ");
    out.append(kind);
    out.append("\n");
    out.append(name);
    out.append(" ");
    push_decimal(out, value);
    out.append("\n");
    assert(final(out)@ =~= old(out)@ + metric_block(name@, help@, kind@, value));
}

/// Append a gauge metric.
pub fn emit_gauge(out: &mut String, name: &str, help: &str, value: u64)
    ensures
        final(out)@ == old(out)@ + metric_block(name@, help@, "gauge"@, value),
{
    emit_metric(out, name, help, "gauge", value);
}

/// Append a counter metric.
pub fn emit_counter(out: &mut String, name: &str, help: &str, value: u64)
    ensures
        final(out)@ == old(out)@ + metric_block(name@, help@, "counter"@, value),
{
    emit_metric(out, name, help, "counter", value);
}

/// Render a snapshot in the Prometheus text exposition format: for each
/// metric, a `# HELP` line, a `# TYPE` line (gauge or counter) and a value
/// line.
pub fn format_prometheus(snapshot: &MetricsSnapshot) -> (out: String)
    ensures
        out@ == spec_prometheus(*snapshot),
{
    let mut out = String::new();
    emit_gauge(&mut out, "rdcs_active_sessions", "Active relay sessions", snapshot.active_sessions);
    emit_counter(
        &mut out,
        "rdcs_total_bytes_forwarded",
        "Total bytes forwarded through relay",
        snapshot.total_bytes_forwarded,
    );
    emit_counter(
        &mut out,
        "rdcs_slots_allocated",
        "Total port-pair slots allocated",
        snapshot.slots_allocated,
    );
    emit_counter(
        &mut out,
        "rdcs_slots_reclaimed",
        "Total port-pair slots reclaimed",
        snapshot.slots_reclaimed,
    );
    emit_counter(
        &mut out,
        "rdcs_packets_dropped",
        "Total packets that could not be forwarded",
        snapshot.packets_dropped,
    );
    emit_gauge(&mut out, "rdcs_uptime_secs", "Seconds since relay started", snapshot.uptime_secs);
    assert(out@ =~= spec_prometheus(*snapshot));
    out
}

} // verus!
