use vstd::prelude::*;

verus! {

/// Progress accounting for a firmware upload: how much of the image has
/// been sent, and when progress was last reported, so reports are
/// throttled to one every half second.  The clock readings are handed in
/// by the caller as milliseconds.
pub struct ProgressTracker {
    total_size: u64,
    bytes_read: u64,
    last_update_ms: u64,
}

/// How often progress is reported, in milliseconds.
pub open spec fn report_interval_ms() -> int {
    500
}

impl ProgressTracker {
    /// The size of the whole image.
    pub closed spec fn total(&self) -> int {
        self.total_size as int
    }

    /// How many bytes have been accounted so far.
    pub closed spec fn read(&self) -> int {
        self.bytes_read as int
    }

    /// When progress was last reported.
    pub closed spec fn last_report(&self) -> int {
        self.last_update_ms as int
    }

    /// A fresh tracker for an image of `total_size` bytes, reported as of
    /// `now_ms`.
    pub fn new(total_size: u64, now_ms: u64) -> (r: ProgressTracker)
        ensures
            r.total() == total_size,
            r.read() == 0,
            r.last_report() == now_ms,
    {
        ProgressTracker { total_size, bytes_read: 0, last_update_ms: now_ms }
    }

    /// Accounts one sent chunk and says whether to report progress now:
    /// exactly when at least the report interval has passed since the last
    /// report (which this then becomes).
    pub fn update(&mut self, bytes: usize, now_ms: u64) -> (display: bool)
        requires
            old(self).read() + bytes <= u64::MAX,
        ensures
            final(self).total() == old(self).total(),
            final(self).read() == old(self).read() + bytes,
            display == (now_ms >= old(self).last_report() + report_interval_ms()),
            display ==> final(self).last_report() == now_ms,
            !display ==> final(self).last_report() == old(self).last_report(),
    {
        self.bytes_read = self.bytes_read + (bytes as u64);
        if now_ms >= self.last_update_ms && now_ms - self.last_update_ms >= 500 {
            self.last_update_ms = now_ms;
            true
        } else {
            false
        }
    }

    /// How many bytes have been accounted, for display.
    pub fn bytes_read(&self) -> (r: u64)
        ensures
            r == self.read(),
    {
        self.bytes_read
    }

    /// The size of the whole image, for display.
    pub fn total_size(&self) -> (r: u64)
        ensures
            r == self.total(),
    {
        self.total_size
    }
}

} // verus!
