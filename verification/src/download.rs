//! Decisions of the byte-range resumable download protocol.
//!
//! The transfer itself is the caller's: it opens the sink, sends the request
//! and reads the body. Everything the protocol decides — where to resume,
//! which URL to follow, what a status code means, when to give up and when to
//! report progress — is here and verified. Resumption is exact: a transfer
//! picked up at the confirmed offset reproduces the remote bytes with nothing
//! missing and nothing repeated (`lemma_resume_round_trip`).

use vstd::prelude::*;

use crate::strutil::dec_of;
use crate::strutil::to_decimal;

verus! {

/// What an HTTP status means for a resumable request: 206 Partial Content is
/// the only acceptable answer; any other success status means the server
/// ignored the range request, which is fatal; anything else is a remote
/// failure.
#[derive(Clone, Copy, Debug, PartialEq, Eq, Structural)]
pub enum StatusClass {
    PartialContent,
    NotResumable,
    RemoteFailure,
}

/// The class of a status code: 206 resumes, any other 2xx is a protocol
/// violation, the rest are remote failures.
pub open spec fn classify_status_spec(code: u16) -> StatusClass {
    if code == 206 {
        StatusClass::PartialContent
    } else if 200 <= code < 300 {
        StatusClass::NotResumable
    } else {
        StatusClass::RemoteFailure
    }
}

/// Classifies the status code of the response to a range request.
pub fn classify_status(code: u16) -> (r: StatusClass)
    ensures
        r == classify_status_spec(code),
{
    if code == 206 {
        StatusClass::PartialContent
    } else if 200 <= code && code < 300 {
        StatusClass::NotResumable
    } else {
        StatusClass::RemoteFailure
    }
}

/// The URL a resume must follow: the pinned redirect of an earlier attempt
/// when one was persisted, else the caller's URL. Pinning keeps every resume
/// on the origin that holds the partial content.
pub fn resume_url(pinned: &Option<String>, fallback: &str) -> (r: String)
    ensures
        match pinned {
            Some(p) => r@ == p@,
            None => r@ == fallback@,
        },
{
    match pinned {
        Some(p) => p.clone(),
        None => {
            let mut r = String::new();
            r.append(fallback);
            r
        },
    }
}

/// The `Range` request header value asking for everything from `offset` on:
/// `bytes={offset}-`.
pub fn range_header_value(offset: u64) -> (r: String)
    ensures
        r@ == "bytes="@ + dec_of(offset as nat) + "-"@,
{
    let mut r = String::new();
    r.append("bytes=");
    let off = to_decimal(offset);
    r.append(off.as_str());
    r.append("-");
    r
}

/// The total expected size of the file: what the response announces plus
/// what the sink already holds. `None` when the sum does not fit.
pub fn total_size(content_length: u64, offset: u64) -> (r: Option<u64>)
    ensures
        r is Some <==> content_length + offset <= u64::MAX,
        r is Some ==> r->0 == content_length + offset,
{
    content_length.checked_add(offset)
}

/// The bounded retry budget of a download: a fixed number of retries after
/// the first attempt, every failure retryable until the budget is spent.
pub struct RetryState {
    failures: u32,
    max_retries: u32,
}

impl RetryState {
    /// Failures seen so far.
    pub closed spec fn failures(&self) -> u32 {
        self.failures
    }

    /// The budget: how many retries may follow the first attempt.
    pub closed spec fn max_retries(&self) -> u32 {
        self.max_retries
    }

    /// A fresh budget of `max_retries` retries.
    pub fn new(max_retries: u32) -> (r: RetryState)
        ensures
            r.failures() == 0,
            r.max_retries() == max_retries,
    {
        RetryState { failures: 0, max_retries }
    }

    /// Records one failed attempt and says whether to retry: yes exactly
    /// while the failures stay within the budget, so a download is attempted
    /// at most `max_retries + 1` times in all.
    pub fn on_failure(&mut self) -> (retry: bool)
        requires
            old(self).failures() < u32::MAX,
        ensures
            final(self).failures() == old(self).failures() + 1,
            final(self).max_retries() == old(self).max_retries(),
            retry == (final(self).failures() <= final(self).max_retries()),
    {
        self.failures = self.failures + 1;
        self.failures <= self.max_retries
    }
}

/// Progress accounting of one download attempt, in whole per-milles so that
/// observations are emitted only when the completed fraction has advanced by
/// more than one per-mille — never a flood.
pub struct DownloadProgress {
    offset: u64,
    total: u64,
    received: u64,
    last_reported: Option<u64>,
}

/// The completed fraction in per-mille, capped at 1000. An unknown or
/// outrun total counts as complete.
pub open spec fn per_mille(downloaded: int, total: int) -> int {
    if total <= 0 || downloaded >= total {
        1000
    } else {
        downloaded * 1000 / total
    }
}

impl DownloadProgress {
    /// The resume offset: bytes the sink held before this attempt.
    pub closed spec fn offset(&self) -> u64 {
        self.offset
    }

    /// The total expected size, resume offset included.
    pub closed spec fn total(&self) -> u64 {
        self.total
    }

    /// Bytes received in this attempt.
    pub closed spec fn received(&self) -> u64 {
        self.received
    }

    /// Bytes of the file confirmed so far.
    pub open spec fn downloaded(&self) -> int {
        self.offset() + self.received()
    }

    /// The last per-mille reported, if any.
    pub closed spec fn last_reported(&self) -> Option<u64> {
        self.last_reported
    }

    /// Starts accounting an attempt that resumes at `offset` of a file of
    /// `total` bytes.
    pub fn new(offset: u64, total: u64) -> (r: DownloadProgress)
        ensures
            r.offset() == offset,
            r.total() == total,
            r.received() == 0,
            r.last_reported() is None,
    {
        DownloadProgress { offset, total, received: 0, last_reported: None }
    }

    /// Accounts one chunk of `n` bytes and decides whether to report: a
    /// report carries the completed per-mille and is due when none was made
    /// yet or the fraction advanced by more than one per-mille since the
    /// last one.
    pub fn on_chunk(&mut self, n: u64) -> (report: Option<u64>)
        requires
            old(self).received() + n <= u64::MAX,
            old(self).downloaded() + n <= u64::MAX,
        ensures
            final(self).offset() == old(self).offset(),
            final(self).total() == old(self).total(),
            final(self).received() == old(self).received() + n,
            ({
                let milli = per_mille(final(self).downloaded(), final(self).total() as int);
                if match old(self).last_reported() {
                    None => true,
                    Some(last) => milli > last + 1,
                } {
                    report == Some(milli as u64) && final(self).last_reported() == Some(
                        milli as u64,
                    )
                } else {
                    report is None && final(self).last_reported() == old(self).last_reported()
                }
            }),
    {
        self.received = self.received + n;
        let downloaded = self.offset + self.received;
        let milli: u64 = if self.total == 0 || downloaded >= self.total {
            1000
        } else {
            let wide = (downloaded as u128) * 1000 / (self.total as u128);
            proof {
                assert((downloaded as int) * 1000 / (self.total as int) < 1000)
                    by (nonlinear_arith)
                    requires
                        0 < self.total as int,
                        (downloaded as int) < self.total as int,
                ;
            }
            wide as u64
        };
        let due = match self.last_reported {
            None => true,
            Some(last) => milli > 1 && milli - 1 > last,
        };
        if due {
            self.last_reported = Some(milli);
            Some(milli)
        } else {
            None
        }
    }
}

/// An in-memory download sink: a growable byte buffer offering exactly what
/// the downloader asks of a sink — its current length, which fixes the
/// resume offset, and appending writes.
pub struct MemSink {
    data: Vec<u8>,
}

impl View for MemSink {
    type V = Seq<u8>;

    closed spec fn view(&self) -> Seq<u8> {
        self.data@
    }
}

impl MemSink {
    /// An empty sink.
    pub fn new() -> (r: MemSink)
        ensures
            r@ == Seq::<u8>::empty(),
    {
        MemSink { data: Vec::new() }
    }

    /// Seeking to the end: the length, which a resume takes as its offset.
    pub fn len(&self) -> (r: usize)
        ensures
            r == self@.len(),
    {
        self.data.len()
    }

    /// Appends a whole chunk at the end.
    pub fn write_all(&mut self, buf: &[u8])
        ensures
            final(self)@ == old(self)@ + buf@,
    {
        let n = buf.len();
        let mut i: usize = 0;
        proof {
            assert(self.data@ + buf@.take(0) =~= self.data@);
        }
        while i < n
            invariant
                i <= n,
                n == buf@.len(),
                self.data@ == old(self).data@ + buf@.take(i as int),
            decreases n - i,
        {
            self.data.push(buf[i]);
            proof {
                assert(old(self).data@ + buf@.take(i + 1) =~= (old(self).data@ + buf@.take(
                    i as int,
                )).push(buf@[i as int]));
            }
            i = i + 1;
        }
        proof {
            assert(buf@.take(n as int) == buf@);
        }
    }

    /// The bytes written so far.
    pub fn as_bytes(&self) -> (r: &[u8])
        ensures
            r@ == self@,
    {
        self.data.as_slice()
    }

    /// Consumes the sink and hands its bytes out.
    pub fn into_bytes(self) -> (r: Vec<u8>)
        ensures
            r@ == self@,
    {
        self.data
    }
}

/// Resume idempotence: an attempt interrupted after some prefix of the
/// remote bytes, resumed by requesting everything from that confirmed offset
/// on, reassembles exactly the remote content — no byte missing or repeated
/// at the split — just as one uninterrupted transfer would.
pub proof fn lemma_resume_round_trip(remote: Seq<u8>, split: int)
    requires
        0 <= split <= remote.len(),
    ensures
        remote.take(split) + remote.skip(split) == remote,
{
    assert(remote.take(split) + remote.skip(split) =~= remote);
}

} // verus!
