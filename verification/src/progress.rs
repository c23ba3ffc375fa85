//! Progress of file operations: how processed bytes are counted, when a
//! report is due, and what a report says.

use vstd::prelude::*;
use vstd::string::StringExecFns;

verus! {

/// Bytes to process before the next report of a single file is due.
pub const REPORT_THRESHOLD: u64 = 4194304;

/// One report on the progress channel.
pub struct FileOperationProgress {
    pub read_bytes: u64,
    pub total_bytes: u64,
    pub current_file: String,
}

/// The byte count to report after `n` more bytes, if a report is due: all
/// bytes counted since the last report, once they reach the threshold.
pub open spec fn spec_release(pending: u64, n: u64, threshold: u64) -> Option<u64> {
    if pending + n >= threshold {
        Some((pending + n) as u64)
    } else {
        None
    }
}

/// Collects processed-byte counts and releases them in reports of at least
/// a threshold, and once more at the end of the stream.
pub struct Debounce {
    threshold: u64,
    pending: u64,
}

impl Debounce {
    /// The number of bytes that makes a report due.
    pub closed spec fn threshold(&self) -> u64 {
        self.threshold
    }

    /// The bytes counted and not yet reported.
    pub closed spec fn pending(&self) -> u64 {
        self.pending
    }

    /// A collector with the given threshold and nothing counted.
    pub fn new(threshold: u64) -> (debounce: Debounce)
        ensures
            debounce.threshold() == threshold,
            debounce.pending() == 0,
    {
        Debounce { threshold, pending: 0 }
    }

    /// Counts `n` processed bytes. When the bytes counted since the last
    /// report reach the threshold, they are all released for a report;
    /// otherwise they are kept.
    pub fn record(&mut self, n: u64) -> (report: Option<u64>)
        requires
            old(self).pending() + n <= u64::MAX,
        ensures
            final(self).threshold() == old(self).threshold(),
            report == spec_release(old(self).pending(), n, old(self).threshold()),
            final(self).pending() == if report is Some {
                0
            } else {
                old(self).pending() + n
            },
    {
        let sum = self.pending + n;
        if sum >= self.threshold {
            self.pending = 0;
            Some(sum)
        } else {
            self.pending = sum;
            None
        }
    }

    /// Ends the stream: whatever is still counted is released for the last
    /// report.
    pub fn finish(&mut self) -> (report: u64)
        ensures
            report == old(self).pending(),
            final(self).pending() == 0,
            final(self).threshold() == old(self).threshold(),
    {
        let report = self.pending;
        self.pending = 0;
        report
    }
}

/// The sum of some sizes.
pub open spec fn spec_sum(sizes: Seq<u64>) -> nat
    decreases sizes.len(),
{
    if sizes.len() == 0 {
        0
    } else {
        spec_sum(sizes.drop_last()) + sizes.last() as nat
    }
}

/// The sum of the sizes of the files of a batch, when it fits 64 bits.
pub fn total_size(sizes: &Vec<u64>) -> (total: Option<u64>)
    ensures
        match total {
            Some(t) => t == spec_sum(sizes@),
            None => spec_sum(sizes@) > u64::MAX,
        },
{
    let mut total: u64 = 0;
    let mut i: usize = 0;
    assert(sizes@.take(0) =~= Seq::<u64>::empty());
    while i < sizes.len()
        invariant
            i <= sizes@.len(),
            total == spec_sum(sizes@.take(i as int)),
        decreases sizes.len() - i,
    {
        proof {
            assert(sizes@.take(i + 1).drop_last() =~= sizes@.take(i as int));
            assert(sizes@.take(i + 1).last() == sizes@[i as int]);
        }
        if sizes[i] > u64::MAX - total {
            proof {
                lemma_sum_grows(sizes@, i + 1);
            }
            return None;
        }
        total = total + sizes[i];
        i = i + 1;
    }
    assert(sizes@.take(sizes@.len() as int) =~= sizes@);
    Some(total)
}

/// The sum of a list is at least the sum of each of its beginnings.
pub proof fn lemma_sum_grows(sizes: Seq<u64>, n: int)
    requires
        0 <= n <= sizes.len(),
    ensures
        spec_sum(sizes.take(n)) <= spec_sum(sizes),
    decreases sizes.len() - n,
{
    if n == sizes.len() {
        assert(sizes.take(n) =~= sizes);
    } else {
        lemma_sum_grows(sizes, n + 1);
        assert(sizes.take(n + 1).drop_last() =~= sizes.take(n));
    }
}

/// What happens during a batch of file operations.
#[derive(Clone, Copy, Debug, PartialEq, Eq, Structural)]
pub enum ProgressEvent {
    /// Some bytes of the current file were processed.
    Chunk(u64),
    /// The periodic timer fired.
    Tick,
    /// The current file, of the given size, is done.
    FileDone(u64),
    /// The batch is done.
    Finish,
}

/// The counters of a batch: the bytes of all files, the bytes processed so
/// far, and the bytes of the files that are done.
pub struct BatchModel {
    pub total: u64,
    pub read: u64,
    pub completed: u64,
}

/// The counters never exceed the total.
pub open spec fn batch_wf(batch: BatchModel) -> bool {
    batch.read <= batch.total && batch.completed <= batch.total
}

/// The smaller of two numbers.
pub open spec fn spec_min(a: int, b: int) -> int {
    if a <= b {
        a
    } else {
        b
    }
}

/// The larger of two numbers.
pub open spec fn spec_max(a: int, b: int) -> int {
    if a >= b {
        a
    } else {
        b
    }
}

/// The counters after an event. Processed bytes add up, never beyond the
/// total. A finished file brings the processed bytes up to the bytes of
/// all finished files. The end of the batch brings them up to the total.
pub open spec fn spec_advance(batch: BatchModel, event: ProgressEvent) -> BatchModel {
    match event {
        ProgressEvent::Chunk(n) => BatchModel {
            read: spec_min(batch.read + n, batch.total as int) as u64,
            ..batch
        },
        ProgressEvent::Tick => batch,
        ProgressEvent::FileDone(size) => {
            let completed = spec_min(batch.completed + size, batch.total as int) as u64;
            BatchModel {
                completed,
                read: spec_max(batch.read as int, completed as int) as u64,
                ..batch
            }
        },
        ProgressEvent::Finish => BatchModel { read: batch.total, completed: batch.total, ..batch },
    }
}

/// Whether an event is followed by a report.
pub open spec fn spec_reports_on(event: ProgressEvent) -> bool {
    !(event is Chunk)
}

/// The `read_bytes` values of the reports that a run of events produces.
pub open spec fn spec_reports(batch: BatchModel, events: Seq<ProgressEvent>) -> Seq<u64>
    decreases events.len(),
{
    if events.len() == 0 {
        Seq::empty()
    } else {
        let next = spec_advance(batch, events[0]);
        let rest = spec_reports(next, events.skip(1));
        if spec_reports_on(events[0]) {
            seq![next.read] + rest
        } else {
            rest
        }
    }
}

/// Across a batch the reported `read_bytes` never decrease and never exceed
/// the total, and the report that follows the end of the batch carries the
/// total.
pub proof fn law_progress_monotonic(batch: BatchModel, events: Seq<ProgressEvent>)
    requires
        batch_wf(batch),
    ensures
        forall|i: int|
            0 <= i < spec_reports(batch, events).len() ==> batch.read <= #[trigger] spec_reports(
                batch,
                events,
            )[i] <= batch.total,
        forall|i: int, j: int|
            0 <= i <= j < spec_reports(batch, events).len() ==> spec_reports(batch, events)[i]
                <= spec_reports(batch, events)[j],
        events.len() > 0 && events.last() is Finish ==> spec_reports(batch, events).len() > 0
            && spec_reports(batch, events).last() == batch.total,
    decreases events.len(),
{
    if events.len() > 0 {
        let next = spec_advance(batch, events[0]);
        let tail = events.skip(1);
        law_progress_monotonic(next, tail);
        let rest = spec_reports(next, tail);
        let all = spec_reports(batch, events);
        if spec_reports_on(events[0]) {
            assert(all =~= seq![next.read] + rest);
            assert forall|i: int| 0 <= i < all.len() implies batch.read <= #[trigger] all[i]
                <= batch.total by {
                if i > 0 {
                    assert(all[i] == rest[i - 1]);
                }
            }
            assert forall|i: int, j: int| 0 <= i <= j < all.len() implies all[i] <= all[j] by {
                if i > 0 {
                    assert(all[i] == rest[i - 1] && all[j] == rest[j - 1]);
                } else if j > 0 {
                    assert(all[j] == rest[j - 1]);
                }
            }
        } else {
            assert(all =~= rest);
        }
        if events.last() is Finish {
            if tail.len() > 0 {
                assert(tail.last() == events.last());
                assert(all.last() == rest.last());
            }
        }
    }
}

/// The counters of a batch of file operations.
pub struct BatchProgress {
    total: u64,
    read: u64,
    completed: u64,
}

impl View for BatchProgress {
    type V = BatchModel;

    closed spec fn view(&self) -> BatchModel {
        BatchModel { total: self.total, read: self.read, completed: self.completed }
    }
}

impl BatchProgress {
    /// The counters at the start of a batch of files with the given sizes;
    /// nothing when the sizes add up to more than 64 bits hold.
    pub fn new(sizes: &Vec<u64>) -> (batch: Option<BatchProgress>)
        ensures
            match batch {
                Some(b) => b@ == (BatchModel {
                    total: spec_sum(sizes@) as u64,
                    read: 0,
                    completed: 0,
                }) && spec_sum(sizes@) <= u64::MAX && batch_wf(b@),
                None => spec_sum(sizes@) > u64::MAX,
            },
    {
        match total_size(sizes) {
            Some(total) => Some(BatchProgress { total, read: 0, completed: 0 }),
            None => None,
        }
    }

    /// Takes an event into account and gives the report that follows it, if
    /// one does. The report names the current file, and no file once the
    /// batch is done.
    pub fn advance(&mut self, event: ProgressEvent, current_file: &str) -> (report: Option<
        FileOperationProgress,
    >)
        requires
            batch_wf(old(self)@),
        ensures
            batch_wf(final(self)@),
            final(self)@ == spec_advance(old(self)@, event),
            report is Some <==> spec_reports_on(event),
            report matches Some(r) ==> {
                &&& r.read_bytes == final(self)@.read
                &&& r.total_bytes == final(self)@.total
                &&& r.read_bytes >= old(self)@.read
                &&& r.read_bytes <= r.total_bytes
                &&& r.current_file@ == if event is Finish {
                    Seq::<char>::empty()
                } else {
                    current_file@
                }
            },
    {
        match event {
            ProgressEvent::Chunk(n) => {
                if n >= self.total - self.read {
                    self.read = self.total;
                } else {
                    self.read = self.read + n;
                }
                None
            },
            ProgressEvent::Tick => Some(
                FileOperationProgress {
                    read_bytes: self.read,
                    total_bytes: self.total,
                    current_file: String::from_str(current_file),
                },
            ),
            ProgressEvent::FileDone(size) => {
                if size >= self.total - self.completed {
                    self.completed = self.total;
                } else {
                    self.completed = self.completed + size;
                }
                if self.completed > self.read {
                    self.read = self.completed;
                }
                Some(
                    FileOperationProgress {
                        read_bytes: self.read,
                        total_bytes: self.total,
                        current_file: String::from_str(current_file),
                    },
                )
            },
            ProgressEvent::Finish => {
                self.read = self.total;
                self.completed = self.total;
                Some(
                    FileOperationProgress {
                        read_bytes: self.read,
                        total_bytes: self.total,
                        current_file: String::new(),
                    },
                )
            },
        }
    }
}

} // verus!
