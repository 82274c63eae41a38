use vstd::prelude::*;

verus! {

/// Nanoseconds in one second: a checkpoint waits at least this long after the last one.
pub const CHECKPOINT_NANOS: u64 = 1_000_000_000;

/// What a checkpoint reports: the bytes copied since the last checkpoint and the time taken.
#[derive(Clone, Copy, PartialEq, Eq, Debug, Structural)]
pub struct Checkpoint {
    pub bytes: u64,
    pub elapsed_nanos: u64,
}

/// The running count of a copy: bytes copied in all, and the count and clock reading at the
/// last checkpoint. Clock readings are nanoseconds from any fixed start.
#[derive(Clone, Copy, PartialEq, Eq, Debug, Structural)]
pub struct TransferState {
    pub total_bytes: u64,
    pub last_bytes: u64,
    pub last_nanos: u64,
}

impl TransferState {
    /// The count is consistent: no more bytes were counted at the last checkpoint than in all.
    pub open spec fn wf(&self) -> bool {
        self.last_bytes <= self.total_bytes
    }

    /// A fresh count at clock reading `now_nanos`.
    pub fn new(now_nanos: u64) -> (r: TransferState)
        ensures
            r.wf(),
            r == (TransferState { total_bytes: 0, last_bytes: 0, last_nanos: now_nanos }),
    {
        TransferState { total_bytes: 0, last_bytes: 0, last_nanos: now_nanos }
    }

    /// Counts a chunk of `bytes` copied by clock reading `now_nanos`. When at least a second has
    /// passed since the last checkpoint, this is a new checkpoint: it reports the bytes and time
    /// since the last one and becomes the last one.
    pub fn record_chunk(&mut self, bytes: u64, now_nanos: u64) -> (r: Option<Checkpoint>)
        requires
            old(self).wf(),
            old(self).total_bytes + bytes <= u64::MAX,
            old(self).last_nanos <= now_nanos,
        ensures
            final(self).wf(),
            final(self).total_bytes == old(self).total_bytes + bytes,
            now_nanos - old(self).last_nanos >= CHECKPOINT_NANOS ==> {
                &&& r == Some(
                    Checkpoint {
                        bytes: (final(self).total_bytes - old(self).last_bytes) as u64,
                        elapsed_nanos: (now_nanos - old(self).last_nanos) as u64,
                    },
                )
                &&& final(self).last_bytes == final(self).total_bytes
                &&& final(self).last_nanos == now_nanos
            },
            now_nanos - old(self).last_nanos < CHECKPOINT_NANOS ==> {
                &&& r is None
                &&& final(self).last_bytes == old(self).last_bytes
                &&& final(self).last_nanos == old(self).last_nanos
            },
    {
        self.total_bytes = self.total_bytes + bytes;
        let elapsed = now_nanos - self.last_nanos;
        if elapsed >= CHECKPOINT_NANOS {
            let report = Checkpoint { bytes: self.total_bytes - self.last_bytes, elapsed_nanos: elapsed };
            self.last_bytes = self.total_bytes;
            self.last_nanos = now_nanos;
            Some(report)
        } else {
            None
        }
    }
}

/// The throughput `bytes * 8 / (1048576 * seconds)` in hundredths of a megabit per second,
/// rounded down, where `seconds` is `elapsed_nanos` over a billion.
pub open spec fn centi_mbps(bytes: nat, elapsed_nanos: nat) -> nat {
    (bytes * 800_000_000_000) / (1_048_576 * elapsed_nanos)
}

impl Checkpoint {
    /// The throughput since the last checkpoint, in hundredths of a megabit per second.
    pub fn rate_centi_mbps(&self) -> (r: u128)
        requires
            self.elapsed_nanos > 0,
        ensures
            r == centi_mbps(self.bytes as nat, self.elapsed_nanos as nat),
    {
        let b: u128 = self.bytes as u128;
        let e: u128 = self.elapsed_nanos as u128;
        assert(b * 800_000_000_000 <= u64::MAX * 800_000_000_000) by (nonlinear_arith)
            requires
                b <= u64::MAX,
        ;
        assert(1_048_576 * e <= 1_048_576 * u64::MAX) by (nonlinear_arith)
            requires
                e <= u64::MAX,
        ;
        (b * 800_000_000_000) / (1_048_576 * e)
    }
}

} // verus!
