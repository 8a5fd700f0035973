//! Packet and byte counters of one flow or host.

use crate::types::{PacketDir, Timeval};
use vstd::prelude::*;

verus! {

/// A throughput sample: `bytes` were counted over `micros` microseconds.
/// The rate is their quotient, which is left to the reader of the sample.
#[derive(Clone, Copy, Debug, PartialEq, Eq, Structural)]
pub struct Throughput {
    pub bytes: u64,
    pub micros: i128,
}

/// One call of `account_packet`, as data.
pub struct Accounted {
    pub when: Timeval,
    pub dir: PacketDir,
    pub bytes: u32,
}

#[derive(Clone, Copy, Debug)]
pub struct TrafficStats {
    pub last_seen: Timeval,
    pub src2dst_pkts: u32,
    pub dst2src_pkts: u32,
    pub src2dst_bytes: u64,
    pub dst2src_bytes: u64,
    pub last_update: Timeval,
    pub last_bytes: u64,
    pub throughput: Throughput,
}

impl Default for TrafficStats {
    fn default() -> (s: TrafficStats)
        ensures
            s == TrafficStats::fresh(),
            s.wf(),
    {
        TrafficStats {
            last_seen: Timeval { sec: 0, usec: 0 },
            src2dst_pkts: 0,
            dst2src_pkts: 0,
            src2dst_bytes: 0,
            dst2src_bytes: 0,
            last_update: Timeval { sec: 0, usec: 0 },
            last_bytes: 0,
            throughput: Throughput { bytes: 0, micros: 0 },
        }
    }
}

impl TrafficStats {
    /// Counters that have seen nothing yet.
    pub open spec fn fresh() -> TrafficStats {
        TrafficStats {
            last_seen: Timeval::zero(),
            src2dst_pkts: 0,
            dst2src_pkts: 0,
            src2dst_bytes: 0,
            dst2src_bytes: 0,
            last_update: Timeval::zero(),
            last_bytes: 0,
            throughput: Throughput { bytes: 0, micros: 0 },
        }
    }

    /// Packets in both directions.
    pub open spec fn packets_spec(self) -> int {
        self.src2dst_pkts + self.dst2src_pkts
    }

    /// Bytes in both directions.
    pub open spec fn bytes_spec(self) -> int {
        self.src2dst_bytes + self.dst2src_bytes
    }

    /// The totals fit their types, and the bytes of the last throughput
    /// sample are among those counted.
    pub open spec fn wf(self) -> bool {
        &&& self.packets_spec() <= u32::MAX
        &&& self.bytes_spec() <= u64::MAX
        &&& self.last_bytes <= self.bytes_spec()
    }

    /// How many packets one more call adds: one, unless the total is at its
    /// limit.
    pub open spec fn packet_room(self) -> int {
        if self.packets_spec() < u32::MAX { 1 } else { 0 }
    }

    /// How many of `bytes` one more call adds: all of them, or as many as
    /// keep the total within its limit.
    pub open spec fn byte_room(self, bytes: u32) -> int {
        if self.bytes_spec() + bytes <= u64::MAX { bytes as int } else { u64::MAX - self.bytes_spec() }
    }

    /// The counters after one packet of `bytes` bytes seen at `when` in
    /// direction `dir`.
    pub open spec fn accounted(self, when: Timeval, dir: PacketDir, bytes: u32) -> TrafficStats {
        let first = self.last_update == Timeval::zero();
        TrafficStats {
            last_seen: when,
            src2dst_pkts: if dir == PacketDir::Src2Dst {
                (self.src2dst_pkts + self.packet_room()) as u32
            } else {
                self.src2dst_pkts
            },
            dst2src_pkts: if dir == PacketDir::Dst2Src {
                (self.dst2src_pkts + self.packet_room()) as u32
            } else {
                self.dst2src_pkts
            },
            src2dst_bytes: if dir == PacketDir::Src2Dst {
                (self.src2dst_bytes + self.byte_room(bytes)) as u64
            } else {
                self.src2dst_bytes
            },
            dst2src_bytes: if dir == PacketDir::Dst2Src {
                (self.dst2src_bytes + self.byte_room(bytes)) as u64
            } else {
                self.dst2src_bytes
            },
            last_update: if first { when } else { self.last_update },
            last_bytes: self.last_bytes,
            throughput: self.throughput,
        }
    }

    /// The throughput sample that `update` takes at `when`.
    pub open spec fn sample(self, when: Timeval) -> Throughput {
        Throughput {
            bytes: (self.bytes_spec() - self.last_bytes) as u64,
            micros: when.micros_since_spec(self.last_update) as i128,
        }
    }

    /// The counters after `update` at `when`.
    pub open spec fn updated(self, when: Timeval) -> TrafficStats {
        TrafficStats {
            last_update: when,
            last_bytes: self.bytes_spec() as u64,
            throughput: self.sample(when),
            ..self
        }
    }

    /// The counters after a whole sequence of calls of `account_packet`.
    pub open spec fn replay(self, calls: Seq<Accounted>) -> TrafficStats
        decreases calls.len(),
    {
        if calls.len() == 0 {
            self
        } else {
            let c = calls.last();
            self.replay(calls.drop_last()).accounted(c.when, c.dir, c.bytes)
        }
    }

    /// Counts one packet. The counters of `dir` go up by one packet and by
    /// `bytes` bytes, and no further than the limits of the totals.
    pub fn account_packet(&mut self, when: Timeval, dir: PacketDir, bytes: u32)
        requires
            old(self).wf(),
        ensures
            *final(self) == old(self).accounted(when, dir, bytes),
            final(self).wf(),
    {
        if self.last_update.is_zero() {
            self.last_update = when;
        }
        let pkts: u32 = if self.packets() < u32::MAX { 1 } else { 0 };
        let room: u64 = u64::MAX - self.bytes();
        let add: u64 = if bytes as u64 <= room { bytes as u64 } else { room };
        match dir {
            PacketDir::Src2Dst => {
                self.src2dst_pkts = self.src2dst_pkts + pkts;
                self.src2dst_bytes = self.src2dst_bytes + add;
            },
            PacketDir::Dst2Src => {
                self.dst2src_pkts = self.dst2src_pkts + pkts;
                self.dst2src_bytes = self.dst2src_bytes + add;
            },
        }
        self.last_seen = when;
    }

    /// Takes a throughput sample: the bytes counted since the last sample and
    /// the time since then. The next sample starts here.
    pub fn update(&mut self, when: Timeval) -> (sample: Throughput)
        requires
            old(self).wf(),
        ensures
            *final(self) == old(self).updated(when),
            sample == old(self).sample(when),
            final(self).wf(),
    {
        let diff_bytes: u64 = self.bytes() - self.last_bytes;
        let sample = Throughput { bytes: diff_bytes, micros: when.micros_since(self.last_update) };
        self.throughput = sample;
        self.last_bytes = self.bytes();
        self.last_update = when;
        sample
    }

    /// The packets of both directions. Their sum has to fit the counter.
    pub fn packets(&self) -> (n: u32)
        requires
            self.packets_spec() <= u32::MAX,
        ensures
            n == self.packets_spec(),
    {
        self.src2dst_pkts + self.dst2src_pkts
    }

    /// The bytes of both directions. Their sum has to fit the counter.
    pub fn bytes(&self) -> (n: u64)
        requires
            self.bytes_spec() <= u64::MAX,
        ensures
            n == self.bytes_spec(),
    {
        self.src2dst_bytes + self.dst2src_bytes
    }
}

/// How many of the calls go in direction `dir`.
pub open spec fn count_dir(calls: Seq<Accounted>, dir: PacketDir) -> int
    decreases calls.len(),
{
    if calls.len() == 0 {
        0
    } else {
        count_dir(calls.drop_last(), dir) + (if calls.last().dir == dir { 1int } else { 0int })
    }
}

/// The bytes of the calls that go in direction `dir`, summed.
pub open spec fn bytes_dir(calls: Seq<Accounted>, dir: PacketDir) -> int
    decreases calls.len(),
{
    if calls.len() == 0 {
        0
    } else {
        bytes_dir(calls.drop_last(), dir) + (if calls.last().dir == dir {
            calls.last().bytes as int
        } else {
            0int
        })
    }
}

/// Each call goes in one of the two directions.
pub proof fn lemma_directions_partition(calls: Seq<Accounted>)
    ensures
        count_dir(calls, PacketDir::Src2Dst) + count_dir(calls, PacketDir::Dst2Src) == calls.len(),
        0 <= count_dir(calls, PacketDir::Src2Dst),
        0 <= count_dir(calls, PacketDir::Dst2Src),
        0 <= bytes_dir(calls, PacketDir::Src2Dst),
        0 <= bytes_dir(calls, PacketDir::Dst2Src),
    decreases calls.len(),
{
    if calls.len() > 0 {
        lemma_directions_partition(calls.drop_last());
    }
}

/// Counting never loses anything: after one more packet each counter is at
/// least what it was, and the counters are well-formed again.
pub proof fn lemma_account_monotonic(s: TrafficStats, when: Timeval, dir: PacketDir, bytes: u32)
    requires
        s.wf(),
    ensures
        s.accounted(when, dir, bytes).wf(),
        s.accounted(when, dir, bytes).src2dst_pkts >= s.src2dst_pkts,
        s.accounted(when, dir, bytes).dst2src_pkts >= s.dst2src_pkts,
        s.accounted(when, dir, bytes).src2dst_bytes >= s.src2dst_bytes,
        s.accounted(when, dir, bytes).dst2src_bytes >= s.dst2src_bytes,
        s.accounted(when, dir, bytes).packets_spec() >= s.packets_spec(),
        s.accounted(when, dir, bytes).bytes_spec() >= s.bytes_spec(),
{
}

/// After any sequence of calls on fresh counters, as long as the totals fit
/// their types: the packet counters hold the number of calls and the byte
/// counters the sum of their lengths, each split by direction.
pub proof fn lemma_counters_match_calls(calls: Seq<Accounted>)
    requires
        calls.len() <= u32::MAX,
        bytes_dir(calls, PacketDir::Src2Dst) + bytes_dir(calls, PacketDir::Dst2Src) <= u64::MAX,
    ensures
        TrafficStats::fresh().replay(calls).wf(),
        TrafficStats::fresh().replay(calls).src2dst_pkts == count_dir(calls, PacketDir::Src2Dst),
        TrafficStats::fresh().replay(calls).dst2src_pkts == count_dir(calls, PacketDir::Dst2Src),
        TrafficStats::fresh().replay(calls).src2dst_bytes == bytes_dir(calls, PacketDir::Src2Dst),
        TrafficStats::fresh().replay(calls).dst2src_bytes == bytes_dir(calls, PacketDir::Dst2Src),
        TrafficStats::fresh().replay(calls).packets_spec() == calls.len(),
        TrafficStats::fresh().replay(calls).bytes_spec() == bytes_dir(calls, PacketDir::Src2Dst)
            + bytes_dir(calls, PacketDir::Dst2Src),
        calls.len() > 0 ==> TrafficStats::fresh().replay(calls).last_seen == calls.last().when,
    decreases calls.len(),
{
    lemma_directions_partition(calls);
    if calls.len() > 0 {
        lemma_directions_partition(calls.drop_last());
        lemma_counters_match_calls(calls.drop_last());
    }
}

} // verus!
