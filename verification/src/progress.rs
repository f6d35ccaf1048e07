//! Byte-counting progress accounting for extraction streams.
//!
//! Each reader wraps an inner reader the caller drives; after every read the
//! caller records how many bytes arrived and learns whether a progress
//! observation is due. One reports absolute megabytes extracted, the other a
//! rounded percentage of a known total.

use vstd::prelude::*;

verus! {

/// One megabyte of bytes.
pub const MB: usize = 1024 * 1024;

/// How many bytes must accumulate beyond the last report before an absolute
/// progress report is due.
pub const REPORT_STEP: usize = 1000 * 1024 * 1024;

/// Counts the bytes drawn through a reader and asks for a report every
/// `REPORT_STEP` bytes, as whole megabytes extracted.
pub struct ReaderWithBytes<R> {
    reader: R,
    bytes_read: usize,
    last_reported: usize,
}

impl<R> ReaderWithBytes<R> {
    /// The wrapped reader.
    pub closed spec fn inner(&self) -> R {
        self.reader
    }

    /// Bytes counted so far.
    pub closed spec fn bytes_read(&self) -> usize {
        self.bytes_read
    }

    /// The count at the last report.
    pub closed spec fn last_reported(&self) -> usize {
        self.last_reported
    }

    /// Wraps `reader` with both counters at zero.
    pub fn new(reader: R) -> (r: ReaderWithBytes<R>)
        ensures
            r.bytes_read() == 0,
            r.last_reported() == 0,
    {
        ReaderWithBytes { reader, bytes_read: 0, last_reported: 0 }
    }

    /// The wrapped reader, to draw the next bytes from.
    pub fn reader_mut(&mut self) -> (r: &mut R)
        ensures
            *r == old(self).inner(),
            final(self).inner() == *final(r),
            final(self).bytes_read() == old(self).bytes_read(),
            final(self).last_reported() == old(self).last_reported(),
    {
        &mut self.reader
    }

    /// Counts `n` freshly read bytes. A due report carries the total
    /// megabytes extracted and resets the step.
    pub fn record_read(&mut self, n: usize) -> (report: Option<usize>)
        requires
            old(self).bytes_read() + n <= usize::MAX,
        ensures
            final(self).inner() == old(self).inner(),
            final(self).bytes_read() == old(self).bytes_read() + n,
            if old(self).bytes_read() + n > old(self).last_reported() + REPORT_STEP {
                report == Some(((old(self).bytes_read() + n) / MB as int) as usize)
                    && final(self).last_reported() == final(self).bytes_read()
            } else {
                report is None && final(self).last_reported() == old(self).last_reported()
            },
    {
        self.bytes_read = self.bytes_read + n;
        if self.bytes_read > REPORT_STEP && self.bytes_read - REPORT_STEP > self.last_reported {
            self.last_reported = self.bytes_read;
            Some(self.bytes_read / MB)
        } else {
            None
        }
    }
}

/// The share of `extracted` in `total`, as a whole percentage rounded to the
/// nearest point and capped at 100. An unknown or outrun total counts as
/// complete.
pub open spec fn rounded_percent(extracted: int, total: int) -> int {
    if total <= 0 || extracted >= total {
        100
    } else {
        (extracted * 100 + total / 2) / total
    }
}

/// Counts the bytes drawn through a reader of a stream of known total size
/// and asks for a report whenever the rounded percentage moves.
pub struct ReaderWithProgress<R> {
    reader: R,
    total: u64,
    extracted: u64,
    last_reported_progress: u64,
}

impl<R> ReaderWithProgress<R> {
    /// The wrapped reader.
    pub closed spec fn inner(&self) -> R {
        self.reader
    }

    /// The total the stream will deliver.
    pub closed spec fn total(&self) -> u64 {
        self.total
    }

    /// Bytes counted so far.
    pub closed spec fn extracted(&self) -> u64 {
        self.extracted
    }

    /// The last percentage reported.
    pub closed spec fn last_reported_progress(&self) -> u64 {
        self.last_reported_progress
    }

    /// Wraps `reader` for a stream of `total_size` bytes.
    pub fn new(reader: R, total_size: u64) -> (r: ReaderWithProgress<R>)
        ensures
            r.total() == total_size,
            r.extracted() == 0,
            r.last_reported_progress() == 0,
    {
        ReaderWithProgress { reader, total: total_size, extracted: 0, last_reported_progress: 0 }
    }

    /// The wrapped reader, to draw the next bytes from.
    pub fn reader_mut(&mut self) -> (r: &mut R)
        ensures
            *r == old(self).inner(),
            final(self).inner() == *final(r),
            final(self).total() == old(self).total(),
            final(self).extracted() == old(self).extracted(),
            final(self).last_reported_progress() == old(self).last_reported_progress(),
    {
        &mut self.reader
    }

    /// Counts `n` freshly read bytes. A report is due whenever the rounded
    /// percentage differs from the last one reported, and carries it.
    pub fn record_read(&mut self, n: usize) -> (report: Option<u64>)
        requires
            old(self).extracted() + n <= u64::MAX,
        ensures
            final(self).inner() == old(self).inner(),
            final(self).total() == old(self).total(),
            final(self).extracted() == old(self).extracted() + n,
            ({
                let percent = rounded_percent(
                    final(self).extracted() as int,
                    final(self).total() as int,
                );
                if percent != old(self).last_reported_progress() {
                    report == Some(percent as u64) && final(self).last_reported_progress()
                        == percent
                } else {
                    report is None && final(self).last_reported_progress() == old(
                        self,
                    ).last_reported_progress()
                }
            }),
    {
        self.extracted = self.extracted + n as u64;
        let percent: u64 = if self.total == 0 || self.extracted >= self.total {
            100
        } else {
            let wide = ((self.extracted as u128) * 100 + (self.total as u128) / 2) / (
            self.total as u128);
            proof {
                assert(((self.extracted as int) * 100 + (self.total as int) / 2) / (
                self.total as int) <= 100) by (nonlinear_arith)
                    requires
                        0 < self.total as int,
                        (self.extracted as int) < self.total as int,
                ;
            }
            wide as u64
        };
        if percent != self.last_reported_progress {
            self.last_reported_progress = percent;
            Some(percent)
        } else {
            None
        }
    }
}

} // verus!
