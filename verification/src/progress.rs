use vstd::prelude::*;

verus! {

/// The state a bulk move keeps between the progress reports of the system
/// (one report per chunk copied, with the bytes of the current file
/// transferred so far).
pub struct ProgressData {
    /// The operation whose registry entry answers the system.
    pub cancel_id: Option<u32>,
    /// The bytes of all files of the move.
    pub total: i64,
    /// The transferred count of the previous report.
    pub prev: i64,
    /// The bytes counted as moved so far.
    pub processed: i64,
}

/// The count of processed bytes after a report of `transferred` bytes: a
/// rise over the previous report is added, a drop (the next file began) is not.
pub open spec fn processed_step(prev: int, processed: int, transferred: int) -> int {
    if transferred - prev > 0 {
        processed + (transferred - prev)
    } else {
        processed
    }
}

/// The count of processed bytes after a series of reports.
pub open spec fn processed_after(prev: int, processed: int, reports: Seq<int>) -> int
    decreases reports.len(),
{
    if reports.len() == 0 {
        processed
    } else {
        processed_after(
            reports[0],
            processed_step(prev, processed, reports[0]),
            reports.drop_first(),
        )
    }
}

impl ProgressData {
    /// The state at the start of a bulk move of `total` bytes.
    pub fn new(cancel_id: Option<u32>, total: i64) -> (data: ProgressData)
        ensures
            data.cancel_id == cancel_id,
            data.total == total,
            data.prev == 0,
            data.processed == 0,
    {
        ProgressData { cancel_id, total, prev: 0, processed: 0 }
    }

    /// Takes a progress report of the bulk move and gives the arguments for
    /// the caller's callback: the total and the bytes processed so far.
    pub fn on_files_progress(&mut self, transferred: i64) -> (args: (i64, i64))
        requires
            i64::MIN <= transferred - old(self).prev <= i64::MAX,
            processed_step(old(self).prev as int, old(self).processed as int, transferred as int)
                <= i64::MAX,
        ensures
            final(self).processed == processed_step(
                old(self).prev as int,
                old(self).processed as int,
                transferred as int,
            ),
            final(self).prev == transferred,
            final(self).total == old(self).total,
            final(self).cancel_id == old(self).cancel_id,
            args == (final(self).total, final(self).processed),
    {
        let delta: i64 = transferred - self.prev;
        if delta > 0 {
            self.processed = self.processed + delta;
        }
        self.prev = transferred;
        (self.total, self.processed)
    }
}

/// The processed count never goes down.
pub proof fn law_processed_grows(prev: int, processed: int, transferred: int)
    ensures
        processed_step(prev, processed, transferred) >= processed,
{
}

/// Over the reports of one file, starting where the previous report left off
/// and never going down, the processed count grows by exactly the bytes the
/// file transferred.
pub proof fn law_file_fully_counted(prev: int, processed: int, reports: Seq<int>)
    requires
        reports.len() > 0,
        prev <= reports[0],
        forall|i: int, j: int| 0 <= i <= j < reports.len() ==> reports[i] <= reports[j],
    ensures
        processed_after(prev, processed, reports) == processed + (reports.last() - prev),
    decreases reports.len(),
{
    if reports.len() > 1 {
        let rest = reports.drop_first();
        assert(rest[0] == reports[1]);
        assert forall|i: int, j: int| 0 <= i <= j < rest.len() implies rest[i] <= rest[j] by {
            assert(rest[i] == reports[i + 1]);
            assert(rest[j] == reports[j + 1]);
        }
        law_file_fully_counted(reports[0], processed_step(prev, processed, reports[0]), rest);
        assert(rest.last() == reports.last());
        assert(reports[0] <= reports[1]);
    } else {
        let s = processed_step(prev, processed, reports[0]);
        assert(reports.drop_first().len() == 0);
        assert(processed_after(reports[0], s, reports.drop_first()) == s);
        assert(reports.last() == reports[0]);
    }
}

/// The state a bulk move keeps between the progress reports of a copy
/// service that reports, for the current file, the bytes done and the file's
/// size. A report whose bytes done equal the size flips `in_process`; reports
/// are passed on only while `in_process` holds.
pub struct BulkProgressData {
    /// The bytes of all files of the move.
    pub total: i64,
    /// The bytes of the files completed so far.
    pub processed: i64,
    /// Whether reports are passed on.
    pub in_process: bool,
}

/// Whether reports are passed on after a report of `current` of `size` bytes.
pub open spec fn in_process_after(in_process: bool, current: int, size: int) -> bool {
    if current == size {
        !in_process
    } else {
        in_process
    }
}

/// The bytes of the completed files after a report of `current` of `size`
/// bytes: the file's size is added when the report ends a file and reports
/// are passed on afterwards.
pub open spec fn completed_after(in_process: bool, processed: int, current: int, size: int) -> int {
    if in_process_after(in_process, current, size) && current == size {
        processed + size
    } else {
        processed
    }
}

/// With files of non-negative size, the bytes of the completed files never
/// go down.
pub proof fn law_completed_grows(in_process: bool, processed: int, current: int, size: int)
    requires
        size >= 0,
    ensures
        completed_after(in_process, processed, current, size) >= processed,
{
}

/// Two reports that each end a file restore whether reports are passed on.
pub proof fn law_completion_toggles(in_process: bool, size: int)
    ensures
        in_process_after(in_process_after(in_process, size, size), size, size) == in_process,
{
}

/// Whether reports are passed on, and the bytes of the completed files, after
/// a series of reports (each the bytes done of the current file and its size).
pub open spec fn bulk_after(in_process: bool, processed: int, reports: Seq<(int, int)>) -> (bool, int)
    decreases reports.len(),
{
    if reports.len() == 0 {
        (in_process, processed)
    } else {
        bulk_after(
            in_process_after(in_process, reports[0].0, reports[0].1),
            completed_after(in_process, processed, reports[0].0, reports[0].1),
            reports.drop_first(),
        )
    }
}

/// Over the reports of one file of `size` bytes that start while reports are
/// passed on, report less than `size` until the file ends, and then report
/// its end twice, the completed bytes grow by exactly `size` and reports are
/// passed on again afterwards.
pub proof fn law_bulk_file_counted(processed: int, size: int, reports: Seq<(int, int)>)
    requires
        reports.len() >= 2,
        reports[reports.len() - 2] == (size, size),
        reports[reports.len() - 1] == (size, size),
        forall|i: int| 0 <= i < reports.len() - 2 ==> (#[trigger] reports[i]).1 == size
            && reports[i].0 < size,
    ensures
        bulk_after(true, processed, reports) == (true, processed + size),
    decreases reports.len(),
{
    if reports.len() > 2 {
        let rest = reports.drop_first();
        assert(reports[0].1 == size && reports[0].0 < size);
        assert forall|i: int| 0 <= i < rest.len() - 2 implies (#[trigger] rest[i]).1 == size
            && rest[i].0 < size by {
            assert(rest[i] == reports[i + 1]);
        }
        assert(rest[rest.len() - 2] == reports[reports.len() - 2]);
        assert(rest[rest.len() - 1] == reports[reports.len() - 1]);
        law_bulk_file_counted(processed, size, rest);
    } else {
        let rest = reports.drop_first();
        assert(reports[0] == (size, size));
        assert(rest[0] == (size, size));
        assert(rest.drop_first().len() == 0);
        assert(bulk_after(true, processed + size, rest.drop_first()) == (true, processed + size));
        assert(bulk_after(false, processed, rest) == (true, processed + size));
        assert(bulk_after(true, processed, reports) == bulk_after(false, processed, rest));
    }
}

/// While reports within one file are passed on, the bytes done that they give
/// the callback never fall.
pub proof fn law_bulk_reports_rise(processed: int, size: int, first: int, second: int)
    requires
        first <= second < size,
    ensures
        in_process_after(true, first, size),
        in_process_after(true, second, size),
        completed_after(true, processed, first, size) == processed,
        processed + first <= completed_after(true, processed, first, size) + second,
{
}

impl BulkProgressData {
    /// The state at the start of a bulk move of `total` bytes.
    pub fn new(total: i64) -> (data: BulkProgressData)
        ensures
            data.total == total,
            data.processed == 0,
            data.in_process,
    {
        BulkProgressData { total, processed: 0, in_process: true }
    }

    /// Takes a report of `current` of `size` bytes of the current file. When
    /// reports are passed on, gives the arguments for the caller's callback
    /// (the bytes done over the whole move, and its total) and, at the end of
    /// a file, adds the file's size to the processed bytes.
    pub fn on_progress(&mut self, current: i64, size: i64) -> (args: Option<(i64, i64)>)
        requires
            in_process_after(old(self).in_process, current as int, size as int) ==> {
                &&& i64::MIN <= old(self).processed + current <= i64::MAX
                &&& current == size ==> old(self).processed + size <= i64::MAX
            },
        ensures
            final(self).in_process == in_process_after(
                old(self).in_process,
                current as int,
                size as int,
            ),
            final(self).total == old(self).total,
            final(self).processed == completed_after(
                old(self).in_process,
                old(self).processed as int,
                current as int,
                size as int,
            ),
            args == if final(self).in_process {
                Some(((old(self).processed + current) as i64, old(self).total))
            } else {
                None::<(i64, i64)>
            },
    {
        if size == current {
            self.in_process = !self.in_process;
        }
        if self.in_process {
            let done: i64 = self.processed + current;
            if size == current {
                self.processed = self.processed + size;
            }
            Some((done, self.total))
        } else {
            None
        }
    }
}

} // verus!
