//! Process metrics: readiness, connection and queue gauges, and the size of
//! the download cache on disk. Mutators mirror the gauge semantics exactly:
//! increments wrap as hardware counters do, decrements saturate at zero.

use vstd::prelude::*;

verus! {

/// The live counters. The holder serializes access; each operation is a
/// single atomic step of the model.
pub struct Metrics {
    pub ready: bool,
    pub active_voice_calls: usize,
    pub connected_guilds: usize,
    pub total_queue_len: usize,
    pub downloads_bytes: u64,
    pub downloads_files: u64,
}

/// A point-in-time copy of every counter.
#[derive(Clone, Debug)]
pub struct MetricsSnapshot {
    pub uptime_secs: u64,
    pub ready: bool,
    pub active_voice_calls: usize,
    pub connected_guilds: usize,
    pub total_queue_len: usize,
    pub downloads_bytes: u64,
    pub downloads_files: u64,
}

impl Metrics {
    pub fn new() -> (r: Metrics)
        ensures
            r.ready == false,
            r.active_voice_calls == 0,
            r.connected_guilds == 0,
            r.total_queue_len == 0,
            r.downloads_bytes == 0,
            r.downloads_files == 0,
    {
        Metrics {
            ready: false,
            active_voice_calls: 0,
            connected_guilds: 0,
            total_queue_len: 0,
            downloads_bytes: 0,
            downloads_files: 0,
        }
    }

    pub fn set_ready(&mut self, v: bool)
        ensures
            *final(self) == (Metrics { ready: v, ..*old(self) }),
    {
        self.ready = v;
    }

    pub fn is_ready(&self) -> (r: bool)
        ensures
            r == self.ready,
    {
        self.ready
    }

    /// Counts one more live voice call and one more connected guild.
    pub fn inc_connections(&mut self)
        ensures
            final(self).active_voice_calls == (if old(self).active_voice_calls == usize::MAX {
                0int
            } else {
                old(self).active_voice_calls + 1
            }),
            final(self).connected_guilds == (if old(self).connected_guilds == usize::MAX {
                0int
            } else {
                old(self).connected_guilds + 1
            }),
            final(self).ready == old(self).ready,
            final(self).total_queue_len == old(self).total_queue_len,
            final(self).downloads_bytes == old(self).downloads_bytes,
            final(self).downloads_files == old(self).downloads_files,
    {
        self.active_voice_calls = self.active_voice_calls.wrapping_add(1);
        self.connected_guilds = self.connected_guilds.wrapping_add(1);
    }

    /// Counts one voice call and one guild down, never below zero.
    pub fn dec_connections(&mut self)
        ensures
            final(self).active_voice_calls == (if old(self).active_voice_calls > 0 {
                old(self).active_voice_calls - 1
            } else {
                0int
            }),
            final(self).connected_guilds == (if old(self).connected_guilds > 0 {
                old(self).connected_guilds - 1
            } else {
                0int
            }),
            final(self).ready == old(self).ready,
            final(self).total_queue_len == old(self).total_queue_len,
            final(self).downloads_bytes == old(self).downloads_bytes,
            final(self).downloads_files == old(self).downloads_files,
    {
        self.active_voice_calls = self.active_voice_calls.saturating_sub(1);
        self.connected_guilds = self.connected_guilds.saturating_sub(1);
    }

    /// Adds `n` queued tracks to the gauge.
    pub fn inc_queue(&mut self, n: usize)
        ensures
            final(self).total_queue_len == (if old(self).total_queue_len + n <= usize::MAX {
                old(self).total_queue_len + n
            } else {
                old(self).total_queue_len + n - usize::MAX - 1
            }),
            final(self).ready == old(self).ready,
            final(self).active_voice_calls == old(self).active_voice_calls,
            final(self).connected_guilds == old(self).connected_guilds,
            final(self).downloads_bytes == old(self).downloads_bytes,
            final(self).downloads_files == old(self).downloads_files,
    {
        self.total_queue_len = self.total_queue_len.wrapping_add(n);
    }

    /// Takes `n` queued tracks off the gauge, never below zero.
    pub fn dec_queue(&mut self, n: usize)
        ensures
            final(self).total_queue_len == (if old(self).total_queue_len >= n {
                old(self).total_queue_len - n
            } else {
                0int
            }),
            final(self).ready == old(self).ready,
            final(self).active_voice_calls == old(self).active_voice_calls,
            final(self).connected_guilds == old(self).connected_guilds,
            final(self).downloads_bytes == old(self).downloads_bytes,
            final(self).downloads_files == old(self).downloads_files,
    {
        self.total_queue_len = self.total_queue_len.saturating_sub(n);
    }

    /// Replaces the download-folder gauges.
    pub fn set_downloads(&mut self, files: u64, bytes: u64)
        ensures
            *final(self) == (Metrics {
                downloads_files: files,
                downloads_bytes: bytes,
                ..*old(self)
            }),
    {
        self.downloads_files = files;
        self.downloads_bytes = bytes;
    }

    /// Copies every counter, stamped with the caller's uptime reading.
    pub fn snapshot(&self, uptime_secs: u64) -> (r: MetricsSnapshot)
        ensures
            r.uptime_secs == uptime_secs,
            r.ready == self.ready,
            r.active_voice_calls == self.active_voice_calls,
            r.connected_guilds == self.connected_guilds,
            r.total_queue_len == self.total_queue_len,
            r.downloads_bytes == self.downloads_bytes,
            r.downloads_files == self.downloads_files,
    {
        MetricsSnapshot {
            uptime_secs,
            ready: self.ready,
            active_voice_calls: self.active_voice_calls,
            connected_guilds: self.connected_guilds,
            total_queue_len: self.total_queue_len,
            downloads_bytes: self.downloads_bytes,
            downloads_files: self.downloads_files,
        }
    }
}

/// The true total of a list of file sizes.
pub open spec fn total_size(sizes: Seq<u64>) -> int
    decreases sizes.len(),
{
    if sizes.len() == 0 {
        0
    } else {
        total_size(sizes.drop_last()) + sizes.last()
    }
}

/// Tallies a download-folder scan: the file count and the byte total, the
/// latter saturating at the gauge's capacity.
pub fn tally_download_sizes(sizes: &Vec<u64>) -> (r: (u64, u64))
    requires
        sizes@.len() <= u64::MAX,
    ensures
        r.0 == sizes@.len(),
        r.1 == (if total_size(sizes@) <= u64::MAX {
            total_size(sizes@)
        } else {
            u64::MAX as int
        }),
{
    let n = sizes.len();
    let mut bytes: u64 = 0;
    let mut i: usize = 0;
    while i < n
        invariant
            0 <= i <= n,
            n == sizes@.len(),
            bytes == (if total_size(sizes@.take(i as int)) <= u64::MAX {
                total_size(sizes@.take(i as int))
            } else {
                u64::MAX as int
            }),
        decreases n - i,
    {
        proof {
            assert(sizes@.take(i + 1 as int).drop_last() =~= sizes@.take(i as int));
            assert(sizes@.take(i + 1 as int).last() == sizes@[i as int]);
        }
        bytes = bytes.saturating_add(sizes[i]);
        i = i + 1;
    }
    proof {
        assert(sizes@.take(n as int) =~= sizes@);
    }
    (n as u64, bytes)
}

} // verus!
