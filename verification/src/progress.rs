//! Progress accounting for a chunked download.
//!
//! The tracker decides when a `(bytes so far, total)` report is owed: once at
//! the start, then whenever at least `REPORT_STEP_BYTES` arrived since the
//! last report or the known total is reached, and once more at the end if the
//! final count was not yet reported. The reports it has decided on are kept
//! as a ghost sequence, so their shape (monotone, complete) is stated and
//! proved rather than observed.

use vstd::prelude::*;

verus! {

/// A report is owed after every this many newly received bytes.
pub const REPORT_STEP_BYTES: u64 = 256 * 1024;

/// All byte counts ever reported are non-decreasing.
pub open spec fn reports_monotone(s: Seq<(u64, u64)>) -> bool {
    forall|i: int, j: int| 0 <= i <= j < s.len() ==> (#[trigger] s[i]).0 <= (#[trigger] s[j]).0
}

/// A report is owed after a chunk brings the running count to `downloaded`:
/// the bytes since the last report reach the step, or a known (nonzero)
/// expected total is reached.
pub open spec fn report_due(total: u64, downloaded: int, last_reported: int) -> bool {
    downloaded - last_reported >= REPORT_STEP_BYTES || (total > 0 && downloaded >= total)
}

/// The reports a download of `total` expected bytes still makes on the
/// remaining `chunks`, having received `downloaded` bytes so far of which
/// `last_reported` were reported, closed by the final catch-up report.
pub open spec fn reports_after(
    total: u64,
    chunks: Seq<u64>,
    downloaded: int,
    last_reported: int,
) -> Seq<(u64, u64)>
    decreases chunks.len(),
{
    if chunks.len() == 0 {
        if downloaded != last_reported {
            seq![(downloaded as u64, total)]
        } else {
            Seq::empty()
        }
    } else {
        let next = downloaded + chunks.first();
        if report_due(total, next, last_reported) {
            seq![(next as u64, total)] + reports_after(total, chunks.drop_first(), next, next)
        } else {
            reports_after(total, chunks.drop_first(), next, last_reported)
        }
    }
}

/// Every report of one whole download, in order: the starting `(0, total)`,
/// then the per-chunk cadence, then the final catch-up report if one is owed.
pub open spec fn progress_report_seq(total: u64, chunks: Seq<u64>) -> Seq<(u64, u64)> {
    seq![(0u64, total)] + reports_after(total, chunks, 0, 0)
}

/// Progress state of one download: cumulative bytes, the expected total
/// (0 when the server gave none), and the last byte count reported.
pub struct ProgressTracker {
    total: u64,
    downloaded: u64,
    last_reported: u64,
    reports: Ghost<Seq<(u64, u64)>>,
}

impl ProgressTracker {
    /// The expected total this tracker was started with.
    pub closed spec fn total_spec(&self) -> u64 {
        self.total
    }

    /// Cumulative bytes consumed so far.
    pub closed spec fn downloaded_spec(&self) -> u64 {
        self.downloaded
    }

    /// The byte count carried by the latest report.
    pub closed spec fn last_reported_spec(&self) -> u64 {
        self.last_reported
    }

    /// Every report this tracker has decided on, in order.
    pub closed spec fn reports(&self) -> Seq<(u64, u64)> {
        self.reports@
    }

    /// The tracker's invariant: at least the starting report `(0, total)`
    /// was made, every report carries the fixed total, the reported counts
    /// never decrease, the latest report is `last_reported`, and no report
    /// ran ahead of the bytes actually received.
    pub open spec fn wf(&self) -> bool {
        &&& self.reports().len() >= 1
        &&& self.reports()[0] == (0u64, self.total_spec())
        &&& forall|i: int|
            0 <= i < self.reports().len() ==> (#[trigger] self.reports()[i]).1
                == self.total_spec()
        &&& reports_monotone(self.reports())
        &&& self.reports().last().0 == self.last_reported_spec()
        &&& self.last_reported_spec() <= self.downloaded_spec()
    }

    /// Starts tracking a download of `total` expected bytes (0 for unknown)
    /// and returns the starting report `(0, total)`.
    pub fn new(total: u64) -> (r: (ProgressTracker, (u64, u64)))
        ensures
            r.0.wf(),
            r.0.total_spec() == total,
            r.0.downloaded_spec() == 0,
            r.0.reports() =~= seq![(0u64, total)],
            r.1 == (0u64, total),
    {
        let ghost initial: Seq<(u64, u64)> = seq![(0u64, total)];
        let t = ProgressTracker {
            total,
            downloaded: 0,
            last_reported: 0,
            reports: Ghost(initial),
        };
        (t, (0, total))
    }

    /// Accounts for one received chunk of `n` bytes. Returns the report now
    /// owed — exactly when the bytes since the last report reach the step,
    /// or the running count reaches a known expected total — and `None` when
    /// no report is due yet.
    pub fn on_chunk(&mut self, n: u64) -> (r: Option<(u64, u64)>)
        requires
            old(self).wf(),
            old(self).downloaded_spec() + n <= u64::MAX,
        ensures
            final(self).wf(),
            final(self).total_spec() == old(self).total_spec(),
            final(self).downloaded_spec() == old(self).downloaded_spec() + n,
            (r is Some) == report_due(
                old(self).total_spec(),
                old(self).downloaded_spec() + n,
                old(self).last_reported_spec() as int,
            ),
            r matches Some(p) ==> p == (final(self).downloaded_spec(), final(self).total_spec())
                && final(self).reports() =~= old(self).reports().push(p)
                && final(self).last_reported_spec() == final(self).downloaded_spec(),
            r is None ==> final(self).reports() == old(self).reports()
                && final(self).last_reported_spec() == old(self).last_reported_spec(),
    {
        self.downloaded = self.downloaded + n;
        if self.downloaded - self.last_reported >= REPORT_STEP_BYTES || (self.total > 0
            && self.downloaded >= self.total) {
            let report = (self.downloaded, self.total);
            self.last_reported = self.downloaded;
            proof {
                self.reports@ = self.reports@.push(report);
            }
            Some(report)
        } else {
            None
        }
    }

    /// Closes the download: if the latest report fell short of the bytes
    /// actually received, returns the one final report that makes the
    /// sequence complete; afterwards the last report equals the true count.
    pub fn finish(&mut self) -> (r: Option<(u64, u64)>)
        requires
            old(self).wf(),
        ensures
            final(self).wf(),
            final(self).total_spec() == old(self).total_spec(),
            final(self).downloaded_spec() == old(self).downloaded_spec(),
            (r is Some) == (old(self).last_reported_spec() != old(self).downloaded_spec()),
            r matches Some(p) ==> p == (final(self).downloaded_spec(), final(self).total_spec())
                && final(self).reports() =~= old(self).reports().push(p),
            r is None ==> final(self).reports() == old(self).reports(),
            final(self).reports().last().0 == final(self).downloaded_spec(),
            final(self).last_reported_spec() == final(self).downloaded_spec(),
    {
        if self.last_reported != self.downloaded {
            let report = (self.downloaded, self.total);
            self.last_reported = self.downloaded;
            proof {
                self.reports@ = self.reports@.push(report);
            }
            Some(report)
        } else {
            None
        }
    }
}

/// Progress monotonicity law: whatever chunks were fed, the reports start at
/// `(0, total)`, every report carries the fixed total, and the reported byte
/// counts never decrease.
pub proof fn lemma_progress_monotone(t: ProgressTracker)
    requires
        t.wf(),
    ensures
        t.reports().len() >= 1,
        t.reports()[0] == (0u64, t.total_spec()),
        forall|i: int|
            0 <= i < t.reports().len() ==> (#[trigger] t.reports()[i]).1 == t.total_spec(),
        reports_monotone(t.reports()),
{
}

/// Progress completeness under unknown size: when no total was supplied the
/// total is reported as 0 in every report, and at least one report exists
/// even before any byte arrives.
pub proof fn lemma_progress_unknown_total(t: ProgressTracker)
    requires
        t.wf(),
        t.total_spec() == 0,
    ensures
        t.reports().len() >= 1,
        forall|i: int| 0 <= i < t.reports().len() ==> (#[trigger] t.reports()[i]).1 == 0,
{
}

/// The sum of the chunk lengths.
pub open spec fn chunk_sum(chunks: Seq<u64>) -> int
    decreases chunks.len(),
{
    if chunks.len() == 0 {
        0
    } else {
        chunk_sum(chunks.drop_last()) + chunks.last()
    }
}

/// Any prefix of the chunks sums to no more than the whole.
proof fn lemma_chunk_sum_prefix(chunks: Seq<u64>, i: int)
    requires
        0 <= i <= chunks.len(),
    ensures
        chunk_sum(chunks.take(i)) <= chunk_sum(chunks),
    decreases chunks.len() - i,
{
    if i == chunks.len() {
        assert(chunks.take(i) =~= chunks);
    } else {
        lemma_chunk_sum_prefix(chunks, i + 1);
        assert(chunks.take(i + 1).drop_last() =~= chunks.take(i));
        assert(chunk_sum(chunks.take(i)) <= chunk_sum(chunks.take(i + 1)));
    }
}

/// Runs one simulated download of `total` expected bytes delivered as the
/// given chunks and returns every report made, in order: exactly the stated
/// cadence (`progress_report_seq`), whose first report is `(0, total)`, whose
/// counts are non-decreasing, whose every report carries `total`, and whose
/// last count equals the sum of the chunks exactly.
pub fn progress_reports(total: u64, chunks: &Vec<u64>) -> (r: Vec<(u64, u64)>)
    requires
        chunk_sum(chunks@) <= u64::MAX,
    ensures
        r@ =~= progress_report_seq(total, chunks@),
        r@.len() >= 1,
        r@[0] == (0u64, total),
        forall|i: int| 0 <= i < r@.len() ==> (#[trigger] r@[i]).1 == total,
        reports_monotone(r@),
        r@.last().0 == chunk_sum(chunks@),
{
    let (mut tracker, first) = ProgressTracker::new(total);
    let mut out: Vec<(u64, u64)> = Vec::new();
    out.push(first);
    proof {
        assert(chunks@.skip(0) =~= chunks@);
        assert(out@ =~= seq![(0u64, total)]);
    }
    let mut i: usize = 0;
    while i < chunks.len()
        invariant
            0 <= i <= chunks@.len(),
            tracker.wf(),
            tracker.total_spec() == total,
            tracker.downloaded_spec() == chunk_sum(chunks@.take(i as int)),
            chunk_sum(chunks@) <= u64::MAX,
            out@ =~= tracker.reports(),
            out@ + reports_after(
                total,
                chunks@.skip(i as int),
                tracker.downloaded_spec() as int,
                tracker.last_reported_spec() as int,
            ) =~= progress_report_seq(total, chunks@),
        decreases chunks@.len() - i,
    {
        let ghost d0 = tracker.downloaded_spec() as int;
        let ghost lr0 = tracker.last_reported_spec() as int;
        let ghost out0 = out@;
        proof {
            assert(chunks@.take(i + 1).drop_last() =~= chunks@.take(i as int));
            assert(chunks@.take(i + 1).last() == chunks@[i as int]);
            lemma_chunk_sum_prefix(chunks@, i + 1);
            assert(chunks@.skip(i as int)[0] == chunks@[i as int]);
            assert(chunks@.skip(i as int).drop_first() =~= chunks@.skip(i + 1));
        }
        let c = chunks[i];
        let report = tracker.on_chunk(c);
        match report {
            Some(p) => {
                out.push(p);
                proof {
                    let dn = tracker.downloaded_spec() as int;
                    assert(dn == d0 + c);
                    assert((d0 + c) as u64 == tracker.downloaded_spec());
                    assert(reports_after(total, chunks@.skip(i as int), d0, lr0) =~= seq![p]
                        + reports_after(total, chunks@.skip(i + 1), dn, dn));
                    assert(out@ =~= out0 + seq![p]);
                    assert(out@ + reports_after(total, chunks@.skip(i + 1), dn, dn)
                        =~= progress_report_seq(total, chunks@));
                }
            },
            None => {
                proof {
                    let dn = tracker.downloaded_spec() as int;
                    assert(reports_after(total, chunks@.skip(i as int), d0, lr0)
                        =~= reports_after(total, chunks@.skip(i + 1), dn, lr0));
                }
            },
        }
        i = i + 1;
    }
    proof {
        assert(chunks@.take(chunks@.len() as int) =~= chunks@);
        assert(chunks@.skip(chunks@.len() as int) =~= Seq::<u64>::empty());
    }
    let ghost d_end = tracker.downloaded_spec() as int;
    let ghost lr_end = tracker.last_reported_spec() as int;
    let ghost out_end = out@;
    let last = tracker.finish();
    match last {
        Some(p) => {
            out.push(p);
            proof {
                assert(d_end as u64 == tracker.downloaded_spec());
                assert(reports_after(total, chunks@.skip(chunks@.len() as int), d_end, lr_end)
                    =~= seq![p]);
                assert(out@ =~= out_end + seq![p]);
            }
        },
        None => {
            proof {
                assert(reports_after(total, chunks@.skip(chunks@.len() as int), d_end, lr_end)
                    =~= Seq::<(u64, u64)>::empty());
                assert(out@ =~= out_end + Seq::<(u64, u64)>::empty());
            }
        },
    }
    proof {
        assert(out@ =~= progress_report_seq(total, chunks@));
    }
    out
}

} // verus!
