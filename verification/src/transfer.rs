use vstd::prelude::*;
use vstd::string::*;
use crate::registry::{CancelRegistry, clean_up, cleaned};
use crate::wide::texts;

verus! {

/// The error code the system reports for a move that its progress routine
/// cancelled (`ERROR_REQUEST_ABORTED` as an HRESULT).
pub const CANCEL_ERROR_CODE: i32 = -2147023661;

/// What the system reported for one attempted move of a file.
#[derive(Debug, Clone)]
pub enum MoveReport {
    /// The move call succeeded. `source_exists` and `dest_exists` tell which
    /// of the two paths existed afterwards; `delete_error` is the message of a
    /// failed deletion of the source, which is attempted only when both
    /// existed (`None` when it succeeded or was not attempted).
    Moved { source_exists: bool, dest_exists: bool, delete_error: Option<String> },
    /// The move call failed with an error code and its message.
    Failed { code: i32, message: String },
}

/// What is left to do after the system reported a move done.
#[derive(Debug, Clone, Copy, PartialEq, Eq, Structural)]
pub enum FallbackStep {
    /// Both paths exist: the source is a leftover copy and is to be deleted.
    DeleteSource,
    /// Only the source exists: the move did not happen.
    Fail,
    /// Nothing more to do.
    Done,
}

/// The step that follows a reported move, from which paths exist afterwards.
pub open spec fn fallback_step(source_exists: bool, dest_exists: bool) -> FallbackStep {
    if source_exists && dest_exists {
        FallbackStep::DeleteSource
    } else if source_exists {
        FallbackStep::Fail
    } else {
        FallbackStep::Done
    }
}

/// Decides what follows a reported move from which paths exist afterwards.
pub fn move_fallback(source_exists: bool, dest_exists: bool) -> (step: FallbackStep)
    ensures
        step == fallback_step(source_exists, dest_exists),
{
    if source_exists && dest_exists {
        FallbackStep::DeleteSource
    } else if source_exists && !dest_exists {
        FallbackStep::Fail
    } else {
        FallbackStep::Done
    }
}

/// The outcome of a failed move: an error naming the file unless the move
/// was cancelled; a cancelled move counts as done, or, when
/// `treat_cancel_as_error`, as the signal to stop (`Ok(false)`).
pub open spec fn error_outcome(
    code: i32,
    message: Seq<char>,
    file: Seq<char>,
    treat_cancel_as_error: bool,
) -> Result<bool, Seq<char>> {
    if code != CANCEL_ERROR_CODE {
        Err("File: "@ + file + ", Message: "@ + message)
    } else {
        Ok(!treat_cancel_as_error)
    }
}

/// Turns the error of a failed move into its outcome.
pub fn handel_error(code: i32, message: &str, file: &str, treat_cancel_as_error: bool) -> (r: Result<
    bool,
    String,
>)
    ensures
        match r {
            Ok(b) => error_outcome(code, message@, file@, treat_cancel_as_error) == Ok::<
                bool,
                Seq<char>,
            >(b),
            Err(e) => error_outcome(code, message@, file@, treat_cancel_as_error) == Err::<
                bool,
                Seq<char>,
            >(e@),
        },
{
    if code != CANCEL_ERROR_CODE {
        let mut e = String::from_str("File: ");
        e.append(file);
        e.append(", Message: ");
        e.append(message);
        return Err(e);
    }
    if treat_cancel_as_error && code == CANCEL_ERROR_CODE {
        return Ok(false);
    }
    Ok(true)
}

/// The outcome of one attempted move: `Ok(true)` to go on, `Ok(false)` to
/// stop after a cancellation, or an error message.
pub open spec fn report_outcome(report: MoveReport, file: Seq<char>, treat_cancel_as_error: bool) -> Result<
    bool,
    Seq<char>,
> {
    match report {
        MoveReport::Moved { source_exists, dest_exists, delete_error } => match fallback_step(
            source_exists,
            dest_exists,
        ) {
            FallbackStep::DeleteSource => match delete_error {
                None => Ok(true),
                Some(m) => Err(m@),
            },
            FallbackStep::Fail => Err("Failed to move file."@),
            FallbackStep::Done => Ok(true),
        },
        MoveReport::Failed { code, message } => error_outcome(
            code,
            message@,
            file,
            treat_cancel_as_error,
        ),
    }
}

/// A move that the system reported done ends in an error only when the
/// source still exists: either nothing was moved, or the leftover source
/// could not be deleted.
pub proof fn law_error_keeps_source(report: MoveReport, file: Seq<char>, treat_cancel_as_error: bool)
    requires
        report is Moved,
        report_outcome(report, file, treat_cancel_as_error) is Err,
    ensures
        report->source_exists,
{
}

/// A move the system reported done, after which the source is gone, or was
/// left over and then deleted, lets a move go on, whether or not a
/// cancellation counts as the signal to stop.
pub proof fn law_done_move_goes_on(
    source_exists: bool,
    dest_exists: bool,
    file: Seq<char>,
    treat_cancel_as_error: bool,
)
    requires
        !source_exists || dest_exists,
    ensures
        report_outcome(
            MoveReport::Moved { source_exists, dest_exists, delete_error: None },
            file,
            treat_cancel_as_error,
        ) == Ok::<bool, Seq<char>>(true),
{
}

/// A move the system reported done but after which only the source exists
/// fails with "Failed to move file.".
pub proof fn law_unmoved_source_fails(file: Seq<char>, treat_cancel_as_error: bool, delete_error: Option<String>)
    ensures
        report_outcome(
            MoveReport::Moved { source_exists: true, dest_exists: false, delete_error },
            file,
            treat_cancel_as_error,
        ) == Err::<bool, Seq<char>>("Failed to move file."@),
{
}

/// Every system error other than the cancellation code fails the move with
/// a message naming the file and giving the system's message; the
/// cancellation code never fails it, and stops a bulk move only when
/// cancellations are the signal to stop.
pub proof fn law_system_errors(
    code: i32,
    message: Seq<char>,
    file: Seq<char>,
    treat_cancel_as_error: bool,
)
    ensures
        code != CANCEL_ERROR_CODE ==> error_outcome(code, message, file, treat_cancel_as_error)
            == Err::<bool, Seq<char>>("File: "@ + file + ", Message: "@ + message),
        code == CANCEL_ERROR_CODE ==> error_outcome(code, message, file, treat_cancel_as_error)
            == Ok::<bool, Seq<char>>(!treat_cancel_as_error),
{
}

/// A move that the system failed with any code other than the cancellation
/// code fails with the file's name and the system's message.
pub proof fn law_failed_move_fails(report: MoveReport, file: Seq<char>, treat_cancel_as_error: bool)
    requires
        report is Failed,
        report->code != CANCEL_ERROR_CODE,
    ensures
        report_outcome(report, file, treat_cancel_as_error) == Err::<bool, Seq<char>>(
            "File: "@ + file + ", Message: "@ + report->message@,
        ),
{
}

/// A file that moved cleanly does not change the outcome of a bulk move:
/// the move goes on with the next file.
pub proof fn law_bulk_goes_on(files: Seq<Seq<char>>, reports: Seq<MoveReport>)
    requires
        reports.len() > 0,
        reports[0] matches MoveReport::Moved { source_exists, dest_exists, delete_error }
            && !source_exists && delete_error is None,
    ensures
        bulk_outcome(files, reports) == bulk_outcome(files.drop_first(), reports.drop_first()),
{
}

/// Whether an exec result matches a result over texts.
pub open spec fn same_result<T>(r: Result<T, String>, s: Result<T, Seq<char>>) -> bool {
    match r {
        Ok(v) => s == Ok::<T, Seq<char>>(v),
        Err(e) => s == Err::<T, Seq<char>>(e@),
    }
}

/// The outcome of one attempted move of `file`.
pub fn move_result(report: &MoveReport, file: &str, treat_cancel_as_error: bool) -> (r: Result<
    bool,
    String,
>)
    ensures
        same_result(r, report_outcome(*report, file@, treat_cancel_as_error)),
{
    match report {
        MoveReport::Moved { source_exists, dest_exists, delete_error } => {
            match move_fallback(*source_exists, *dest_exists) {
                FallbackStep::DeleteSource => match delete_error {
                    None => Ok(true),
                    Some(m) => Err(m.clone()),
                },
                FallbackStep::Fail => Err(String::from_str("Failed to move file.")),
                FallbackStep::Done => Ok(true),
            }
        },
        MoveReport::Failed { code, message } => handel_error(
            *code,
            message.as_str(),
            file,
            treat_cancel_as_error,
        ),
    }
}

/// Finishes the move of one file: its outcome, with a cancellation counting
/// as success, and the entry of `cancel_id` dropped from the registry.
pub fn mv(
    registry: &mut CancelRegistry,
    source_file: &str,
    report: &MoveReport,
    cancel_id: Option<u32>,
) -> (r: Result<(), String>)
    ensures
        match report_outcome(*report, source_file@, false) {
            Ok(_) => r is Ok,
            Err(m) => r matches Err(e) && e@ == m,
        },
        final(registry).tokens() == cleaned(old(registry).tokens(), cancel_id),
        final(registry).next_id() == old(registry).next_id(),
{
    let result = match move_result(report, source_file, false) {
        Ok(_) => Ok(()),
        Err(e) => Err(e),
    };
    clean_up(registry, cancel_id);
    result
}

/// The outcome of moving several files one after the other: the first error
/// ends it with that error, the first cancellation ends it successfully.
pub open spec fn bulk_outcome(files: Seq<Seq<char>>, reports: Seq<MoveReport>) -> Result<(), Seq<char>>
    decreases reports.len(),
{
    if reports.len() == 0 {
        Ok(())
    } else {
        match report_outcome(reports[0], files[0], true) {
            Err(m) => Err(m),
            Ok(false) => Ok(()),
            Ok(true) => bulk_outcome(files.drop_first(), reports.drop_first()),
        }
    }
}

/// Once a file's report stops a bulk move (an error or a cancellation),
/// whatever is reported for later files does not change its outcome.
pub proof fn law_bulk_stop_is_final(
    files: Seq<Seq<char>>,
    reports: Seq<MoveReport>,
    more: Seq<MoveReport>,
    k: int,
)
    requires
        0 <= k < reports.len(),
        reports.len() <= files.len(),
        report_outcome(reports[k], files[k], true) != Ok::<bool, Seq<char>>(true),
    ensures
        bulk_outcome(files, reports + more) == bulk_outcome(files, reports),
    decreases k,
{
    let all = reports + more;
    assert(all[0] == reports[0]);
    if k > 0 {
        assert(all.drop_first() =~= reports.drop_first() + more);
        assert(reports.drop_first()[k - 1] == reports[k]);
        assert(files.drop_first()[k - 1] == files[k]);
        law_bulk_stop_is_final(files.drop_first(), reports.drop_first(), more, k - 1);
    }
}

/// Finishes the move of several files into a directory. A destination that
/// is a file fails the whole move; otherwise the outcome is that of the
/// reports of the files attempted, in order. The entry of `cancel_id` is
/// dropped from the registry either way.
pub fn mv_bulk(
    registry: &mut CancelRegistry,
    source_files: &Vec<String>,
    dest_is_file: bool,
    reports: &Vec<MoveReport>,
    cancel_id: Option<u32>,
) -> (r: Result<(), String>)
    requires
        reports@.len() <= source_files@.len(),
    ensures
        dest_is_file ==> (r matches Err(e) && e@ == "Destination is file"@),
        !dest_is_file ==> match bulk_outcome(texts(source_files@), reports@) {
            Ok(_) => r is Ok,
            Err(m) => r matches Err(e) && e@ == m,
        },
        final(registry).tokens() == cleaned(old(registry).tokens(), cancel_id),
        final(registry).next_id() == old(registry).next_id(),
{
    let result = if dest_is_file {
        Err(String::from_str("Destination is file"))
    } else {
        bulk_result(source_files, reports)
    };
    clean_up(registry, cancel_id);
    result
}

/// The outcome of the reports of the files attempted in a bulk move.
fn bulk_result(source_files: &Vec<String>, reports: &Vec<MoveReport>) -> (r: Result<(), String>)
    requires
        reports@.len() <= source_files@.len(),
    ensures
        match bulk_outcome(texts(source_files@), reports@) {
            Ok(_) => r is Ok,
            Err(m) => r matches Err(e) && e@ == m,
        },
{
    let ghost files = texts(source_files@);
    assert(files.skip(0) =~= files);
    assert(reports@.skip(0) =~= reports@);
    for i in 0..reports.len()
        invariant
            reports@.len() <= source_files@.len(),
            files == texts(source_files@),
            bulk_outcome(files, reports@) == bulk_outcome(
                files.skip(i as int),
                reports@.skip(i as int),
            ),
    {
        proof {
            assert(files.skip(i as int)[0] == files[i as int]);
            assert(reports@.skip(i as int)[0] == reports@[i as int]);
            assert(files.skip(i as int).drop_first() =~= files.skip(i + 1));
            assert(reports@.skip(i as int).drop_first() =~= reports@.skip(i + 1));
        }
        match move_result(&reports[i], source_files[i].as_str(), true) {
            Err(e) => {
                return Err(e);
            },
            Ok(done) => {
                if !done {
                    return Ok(());
                }
            },
        }
    }
    assert(reports@.skip(reports@.len() as int).len() == 0);
    Ok(())
}

/// The last component of a path, as `Path::file_name` gives it (`None` for a
/// path that ends in `..` or is a root or prefix alone). Paths are split by
/// the rules of the platform the crate is built for (`\` and `/` on Windows,
/// `/` elsewhere).
pub uninterp spec fn path_file_name(path: Seq<char>) -> Option<Seq<char>>;

/// A directory joined with a name, as `Path::join` gives it, by the rules of
/// the platform the crate is built for (its separator, and a name that is an
/// absolute path replacing the directory).
pub uninterp spec fn path_joined(dir: Seq<char>, name: Seq<char>) -> Seq<char>;

/// Calls `Path::file_name` on the path. Claimed: the result is
/// `path_file_name` of the path.
#[verifier::external_body]
fn file_name_of(path: &str) -> (name: Option<String>)
    ensures
        match name {
            Some(n) => path_file_name(path@) == Some(n@),
            None => path_file_name(path@) is None,
        },
{
    std::path::Path::new(path).file_name().map(|n| n.to_string_lossy().into_owned())
}

/// Calls `Path::join` on a directory and a name. Claimed: the result is
/// `path_joined` of the two.
#[verifier::external_body]
fn join_path(dir: &str, name: &str) -> (joined: String)
    ensures
        joined@ == path_joined(dir@, name@),
{
    std::path::Path::new(dir).join(name).to_string_lossy().into_owned()
}

/// Whether every path has a last component.
pub open spec fn all_named(files: Seq<Seq<char>>) -> bool {
    forall|i: int| 0 <= i < files.len() ==> (#[trigger] path_file_name(files[i])) is Some
}

/// The destination of each file moved into `dest_dir`: the directory joined
/// with the file's name.
pub fn bulk_destinations(source_files: &Vec<String>, dest_dir: &str) -> (dests: Vec<String>)
    requires
        all_named(texts(source_files@)),
    ensures
        dests@.len() == source_files@.len(),
        forall|i: int|
            0 <= i < source_files@.len() ==> #[trigger] dests@[i]@ == path_joined(
                dest_dir@,
                path_file_name(source_files@[i]@)->0,
            ),
{
    let mut dests: Vec<String> = Vec::new();
    for i in 0..source_files.len()
        invariant
            all_named(texts(source_files@)),
            dests@.len() == i,
            forall|j: int|
                0 <= j < i ==> #[trigger] dests@[j]@ == path_joined(
                    dest_dir@,
                    path_file_name(source_files@[j]@)->0,
                ),
    {
        assert(texts(source_files@)[i as int] == source_files@[i as int]@);
        let name = file_name_of(source_files[i].as_str());
        match name {
            Some(n) => {
                dests.push(join_path(dest_dir, n.as_str()));
            },
            None => {
                assert(false);
            },
        }
    }
    dests
}

/// The destinations of a bulk move, or `None` when some file has no name to
/// carry over (a path ending in `..`, or a root).
pub fn try_bulk_destinations(source_files: &Vec<String>, dest_dir: &str) -> (dests: Option<
    Vec<String>,
>)
    ensures
        dests is Some <==> all_named(texts(source_files@)),
        dests matches Some(d) ==> {
            &&& d@.len() == source_files@.len()
            &&& forall|i: int|
                0 <= i < source_files@.len() ==> #[trigger] d@[i]@ == path_joined(
                    dest_dir@,
                    path_file_name(source_files@[i]@)->0,
                )
        },
{
    for i in 0..source_files.len()
        invariant
            forall|j: int|
                0 <= j < i ==> (#[trigger] path_file_name(texts(source_files@)[j])) is Some,
    {
        assert(texts(source_files@)[i as int] == source_files@[i as int]@);
        if file_name_of(source_files[i].as_str()).is_none() {
            return None;
        }
    }
    Some(bulk_destinations(source_files, dest_dir))
}

/// The sum of the sizes of the files of a bulk move.
pub open spec fn sizes_total(sizes: Seq<u64>) -> int
    decreases sizes.len(),
{
    if sizes.len() == 0 {
        0
    } else {
        sizes_total(sizes.drop_last()) + sizes.last()
    }
}

proof fn lemma_sizes_total_grows(sizes: Seq<u64>, k: int)
    requires
        0 <= k <= sizes.len(),
    ensures
        sizes_total(sizes.take(k)) <= sizes_total(sizes),
        0 <= sizes_total(sizes.take(k)),
    decreases sizes.len() - k,
{
    lemma_sizes_total_nonneg(sizes.take(k));
    if k < sizes.len() {
        lemma_sizes_total_grows(sizes, k + 1);
        assert(sizes.take(k + 1).drop_last() =~= sizes.take(k));
    } else {
        assert(sizes.take(k) =~= sizes);
    }
}

proof fn lemma_sizes_total_nonneg(sizes: Seq<u64>)
    ensures
        0 <= sizes_total(sizes),
    decreases sizes.len(),
{
    if sizes.len() > 0 {
        lemma_sizes_total_nonneg(sizes.drop_last());
    }
}

/// The total of a bulk move is the arithmetic sum of the file sizes: adding a
/// file adds its whole size.
pub proof fn law_sizes_add_up(sizes: Seq<u64>, more: Seq<u64>, x: u64)
    ensures
        sizes_total(sizes.push(x)) == sizes_total(sizes) + x,
        sizes_total(seq![x]) == x,
        sizes_total(Seq::<u64>::empty()) == 0,
        sizes_total(sizes + more) == sizes_total(sizes) + sizes_total(more),
    decreases more.len(),
{
    assert(sizes.push(x).drop_last() =~= sizes);
    assert(seq![x].drop_last() =~= Seq::<u64>::empty());
    assert(sizes_total(seq![x].drop_last()) == 0);
    if more.len() == 0 {
        assert(sizes + more =~= sizes);
    } else {
        law_sizes_add_up(sizes, more.drop_last(), x);
        assert((sizes + more).drop_last() =~= sizes + more.drop_last());
        assert((sizes + more).last() == more.last());
    }
}

/// The number of bytes a bulk move transfers: the sizes of the files added up.
pub fn bulk_total(sizes: &Vec<u64>) -> (total: i64)
    requires
        sizes_total(sizes@) <= i64::MAX,
    ensures
        total == sizes_total(sizes@),
{
    let mut total: i64 = 0;
    for i in 0..sizes.len()
        invariant
            sizes_total(sizes@) <= i64::MAX,
            total == sizes_total(sizes@.take(i as int)),
    {
        proof {
            assert(sizes@.take(i + 1).drop_last() =~= sizes@.take(i as int));
            lemma_sizes_total_grows(sizes@, i + 1);
            lemma_sizes_total_nonneg(sizes@.take(i as int));
            assert(sizes@.take(i + 1).last() == sizes@[i as int]);
        }
        let size: u64 = sizes[i];
        assert(size <= i64::MAX);
        total = total + size as i64;
    }
    assert(sizes@.take(sizes@.len() as int) =~= sizes@);
    total
}

/// What a copy service reported for one copy-then-delete move of a file.
#[derive(Debug, Clone)]
pub enum CopyReport {
    /// The copy succeeded; `delete_error` is the message of a failed deletion
    /// of the source (`None` when it was deleted).
    Copied { delete_error: Option<String> },
    /// The copy failed with `message`. `dest_exists` tells whether a partial
    /// destination was left, `delete_error` the message of a failed deletion
    /// of it (attempted only when it exists), and `cancelled` whether the
    /// failure was a cancellation.
    Failed { message: String, dest_exists: bool, delete_error: Option<String>, cancelled: bool },
}

/// The outcome of a copy-then-delete move.
pub open spec fn copy_outcome(report: CopyReport) -> Result<(), Seq<char>> {
    match report {
        CopyReport::Copied { delete_error } => match delete_error {
            Some(m) => Err(m@),
            None => Ok(()),
        },
        CopyReport::Failed { message, dest_exists, delete_error, cancelled } => {
            if dest_exists && delete_error is Some {
                Err(delete_error->0@)
            } else if !cancelled {
                Err(message@)
            } else {
                Ok(())
            }
        },
    }
}

/// The outcome of one copy-then-delete move within a bulk move: `Ok(true)`
/// to go on, `Ok(false)` to stop after a cancellation, or an error message.
pub open spec fn copy_step(report: CopyReport) -> Result<bool, Seq<char>> {
    match report {
        CopyReport::Copied { delete_error } => match delete_error {
            Some(m) => Err(m@),
            None => Ok(true),
        },
        CopyReport::Failed { message, dest_exists, delete_error, cancelled } => {
            if dest_exists && delete_error is Some {
                Err(delete_error->0@)
            } else if !cancelled {
                Err(message@)
            } else {
                Ok(false)
            }
        },
    }
}

/// The outcome of one copy-then-delete move within a bulk move.
pub fn copy_result(report: &CopyReport) -> (r: Result<bool, String>)
    ensures
        same_result(r, copy_step(*report)),
{
    match report {
        CopyReport::Copied { delete_error } => match delete_error {
            Some(m) => Err(m.clone()),
            None => Ok(true),
        },
        CopyReport::Failed { message, dest_exists, delete_error, cancelled } => {
            if *dest_exists {
                if let Some(m) = delete_error {
                    return Err(m.clone());
                }
            }
            if !*cancelled {
                return Err(message.clone());
            }
            Ok(false)
        },
    }
}

/// The outcome of the copy-then-delete moves of a bulk move: the first error
/// ends it with that error, the first cancellation ends it successfully.
pub open spec fn copies_outcome(reports: Seq<CopyReport>) -> Result<(), Seq<char>>
    decreases reports.len(),
{
    if reports.len() == 0 {
        Ok(())
    } else {
        match copy_step(reports[0]) {
            Err(m) => Err(m),
            Ok(false) => Ok(()),
            Ok(true) => copies_outcome(reports.drop_first()),
        }
    }
}

/// Finishes a bulk move made of copy-then-delete moves. A destination that is
/// a file fails the whole move; otherwise the outcome is that of the reports
/// of the files attempted, in order. The entry of `cancel_id` is dropped from
/// the registry exactly when the move succeeds.
pub fn mv_bulk_copies(
    registry: &mut CancelRegistry,
    dest_is_file: bool,
    reports: &Vec<CopyReport>,
    cancel_id: Option<u32>,
) -> (r: Result<(), String>)
    ensures
        dest_is_file ==> (r matches Err(e) && e@ == "Destination is file"@),
        !dest_is_file ==> match copies_outcome(reports@) {
            Ok(_) => r is Ok,
            Err(m) => r matches Err(e) && e@ == m,
        },
        final(registry).tokens() == (if r is Ok {
            cleaned(old(registry).tokens(), cancel_id)
        } else {
            old(registry).tokens()
        }),
        final(registry).next_id() == old(registry).next_id(),
{
    if dest_is_file {
        return Err(String::from_str("Destination is file"));
    }
    let result = copies_result(reports);
    if result.is_ok() {
        clean_up(registry, cancel_id);
    }
    result
}

/// The outcome of the reports of the files attempted in a bulk move made of
/// copy-then-delete moves.
fn copies_result(reports: &Vec<CopyReport>) -> (r: Result<(), String>)
    ensures
        match copies_outcome(reports@) {
            Ok(_) => r is Ok,
            Err(m) => r matches Err(e) && e@ == m,
        },
{
    assert(reports@.skip(0) =~= reports@);
    for i in 0..reports.len()
        invariant
            copies_outcome(reports@) == copies_outcome(reports@.skip(i as int)),
    {
        proof {
            assert(reports@.skip(i as int)[0] == reports@[i as int]);
            assert(reports@.skip(i as int).drop_first() =~= reports@.skip(i + 1));
        }
        match copy_result(&reports[i]) {
            Err(e) => {
                return Err(e);
            },
            Ok(done) => {
                if !done {
                    return Ok(());
                }
            },
        }
    }
    assert(reports@.skip(reports@.len() as int).len() == 0);
    Ok(())
}

/// Finishes a copy-then-delete move: its outcome, with a cancellation
/// counting as success. The entry of `id` is dropped from the registry only
/// after a copy whose source was deleted.
pub fn cancellable_move(registry: &mut CancelRegistry, report: &CopyReport, id: Option<u32>) -> (r:
    Result<(), String>)
    ensures
        match copy_outcome(*report) {
            Ok(_) => r is Ok,
            Err(m) => r matches Err(e) && e@ == m,
        },
        final(registry).tokens() == (if (*report matches CopyReport::Copied { delete_error }
            && delete_error is None) {
            cleaned(old(registry).tokens(), id)
        } else {
            old(registry).tokens()
        }),
        final(registry).next_id() == old(registry).next_id(),
{
    match report {
        CopyReport::Copied { delete_error } => {
            if let Some(m) = delete_error {
                return Err(m.clone());
            }
            clean_up(registry, id);
            Ok(())
        },
        CopyReport::Failed { message, dest_exists, delete_error, cancelled } => {
            if *dest_exists {
                if let Some(m) = delete_error {
                    return Err(m.clone());
                }
            }
            if !*cancelled {
                return Err(message.clone());
            }
            Ok(())
        },
    }
}

} // verus!
