//! Deleting a song: the checks made before the file is touched, and the
//! order in which playback is told about it.

use vstd::prelude::*;
use crate::data::library::Library;
use crate::data::library::first_with_id;
use crate::domain::song::Song;
use crate::paths::spec_parent;
use crate::paths::parent_on;
use crate::paths::platform_uses_backslash;
use crate::text::push_str;
use crate::text::push_signed_decimal;
use crate::text::spec_signed_decimal;

verus! {

/// What a deletion did: which file went, and how many files of its folder
/// were renumbered.
#[derive(Debug)]
pub struct DeletionResult {
    pub deleted_path: String,
    pub renumbered: u32,
}

/// What a deletion asks for next. The caller performs it and reports back
/// with a `DeletionEvent`.
#[derive(Debug, Clone, Copy, PartialEq, Eq, Structural)]
pub enum DeletionCall {
    /// Ask playback whether song `id` is the current one.
    AskCurrent(i64),
    /// Tell playback to stop the current song so its file can go.
    PrepareCurrent(i64),
    /// Delete the song's file (and drop it from the library).
    DeleteFile(i64),
    /// Tell playback to take the song out of its queue.
    RemoveFromQueue(i64),
    /// The deletion is over.
    Finish,
}

/// How the last call went.
#[derive(Debug, Clone, Copy, PartialEq, Eq, Structural)]
pub enum DeletionEvent {
    /// The answer to `AskCurrent`.
    IsCurrent(bool),
    /// `PrepareCurrent` or `RemoveFromQueue` was made.
    Done,
    /// `DeleteFile` succeeded or not.
    Deleted(bool),
}

#[derive(Debug, Clone, Copy, PartialEq, Eq, Structural)]
pub enum DeletionStage {
    Asking,
    Preparing,
    Deleting,
    Removing,
    Finished,
}

/// A deletion of song `id` in progress.
#[derive(Debug, Clone, Copy, PartialEq, Eq, Structural)]
pub struct DeletionRun {
    pub id: i64,
    pub stage: DeletionStage,
}

/// The call a run in stage `st` waits on.
pub open spec fn call_of(id: i64, st: DeletionStage) -> DeletionCall {
    match st {
        DeletionStage::Asking => DeletionCall::AskCurrent(id),
        DeletionStage::Preparing => DeletionCall::PrepareCurrent(id),
        DeletionStage::Deleting => DeletionCall::DeleteFile(id),
        DeletionStage::Removing => DeletionCall::RemoveFromQueue(id),
        DeletionStage::Finished => DeletionCall::Finish,
    }
}

/// The stage after event `e` in stage `st`: the current song is prepared
/// before its file goes, and the song leaves the queue only after its file
/// went. An event that does not answer the pending call changes nothing.
pub open spec fn next_stage(st: DeletionStage, e: DeletionEvent) -> DeletionStage {
    match (st, e) {
        (DeletionStage::Asking, DeletionEvent::IsCurrent(true)) => DeletionStage::Preparing,
        (DeletionStage::Asking, DeletionEvent::IsCurrent(false)) => DeletionStage::Deleting,
        (DeletionStage::Preparing, DeletionEvent::Done) => DeletionStage::Deleting,
        (DeletionStage::Deleting, DeletionEvent::Deleted(true)) => DeletionStage::Removing,
        (DeletionStage::Deleting, DeletionEvent::Deleted(false)) => DeletionStage::Finished,
        (DeletionStage::Removing, DeletionEvent::Done) => DeletionStage::Finished,
        _ => st,
    }
}

/// The calls of a whole deletion of `id` when playback answers `current`
/// and the file deletion succeeds or not (`ok`), in order.
pub open spec fn deletion_calls(id: i64, current: bool, ok: bool) -> Seq<DeletionCall> {
    let asked = seq![DeletionCall::AskCurrent(id)];
    let prepared = if current { asked.push(DeletionCall::PrepareCurrent(id)) } else { asked };
    let deleted = prepared.push(DeletionCall::DeleteFile(id));
    let removed = if ok { deleted.push(DeletionCall::RemoveFromQueue(id)) } else { deleted };
    removed.push(DeletionCall::Finish)
}

/// Starts deleting song `id`: playback is asked first whether it is the
/// current song.
pub fn deletion_start(id: i64) -> (r: (DeletionRun, DeletionCall))
    ensures
        r.0 == (DeletionRun { id, stage: DeletionStage::Asking }),
        r.1 == DeletionCall::AskCurrent(id),
{
    (DeletionRun { id, stage: DeletionStage::Asking }, DeletionCall::AskCurrent(id))
}

/// Takes how the last call went and gives the next call (see `next_stage`).
pub fn deletion_next(run: &mut DeletionRun, event: DeletionEvent) -> (call: DeletionCall)
    ensures
        final(run).id == old(run).id,
        final(run).stage == next_stage(old(run).stage, event),
        call == call_of(old(run).id, final(run).stage),
{
    let next = match (run.stage, event) {
        (DeletionStage::Asking, DeletionEvent::IsCurrent(true)) => DeletionStage::Preparing,
        (DeletionStage::Asking, DeletionEvent::IsCurrent(false)) => DeletionStage::Deleting,
        (DeletionStage::Preparing, DeletionEvent::Done) => DeletionStage::Deleting,
        (DeletionStage::Deleting, DeletionEvent::Deleted(true)) => DeletionStage::Removing,
        (DeletionStage::Deleting, DeletionEvent::Deleted(false)) => DeletionStage::Finished,
        (DeletionStage::Removing, DeletionEvent::Done) => DeletionStage::Finished,
        (st, _) => st,
    };
    run.stage = next;
    let id = run.id;
    match next {
        DeletionStage::Asking => DeletionCall::AskCurrent(id),
        DeletionStage::Preparing => DeletionCall::PrepareCurrent(id),
        DeletionStage::Deleting => DeletionCall::DeleteFile(id),
        DeletionStage::Removing => DeletionCall::RemoveFromQueue(id),
        DeletionStage::Finished => DeletionCall::Finish,
    }
}

/// A deletion answered truthfully makes exactly the calls of
/// `deletion_calls`, in that order: ask, prepare the current song (only if it
/// is the current one), delete the file, take the song out of the queue
/// (only if the file went), finish.
pub proof fn lemma_deletion_makes_the_calls(id: i64, current: bool, ok: bool)
    ensures
        ({
            let s0 = DeletionStage::Asking;
            let s1 = next_stage(s0, DeletionEvent::IsCurrent(current));
            let s2 = if current { next_stage(s1, DeletionEvent::Done) } else { s1 };
            let s3 = next_stage(s2, DeletionEvent::Deleted(ok));
            let s4 = if ok { next_stage(s3, DeletionEvent::Done) } else { s3 };
            let trace = seq![call_of(id, s0), call_of(id, s1)]
                + (if current { seq![call_of(id, s2)] } else { Seq::empty() })
                + seq![call_of(id, s3)]
                + (if ok { seq![call_of(id, s4)] } else { Seq::empty() });
            &&& trace == deletion_calls(id, current, ok)
            &&& s4 == DeletionStage::Finished
        }),
{
    let s0 = DeletionStage::Asking;
    let s1 = next_stage(s0, DeletionEvent::IsCurrent(current));
    let s2 = if current { next_stage(s1, DeletionEvent::Done) } else { s1 };
    let s3 = next_stage(s2, DeletionEvent::Deleted(ok));
    let s4 = if ok { next_stage(s3, DeletionEvent::Done) } else { s3 };
    let trace = seq![call_of(id, s0), call_of(id, s1)]
        + (if current { seq![call_of(id, s2)] } else { Seq::empty() })
        + seq![call_of(id, s3)]
        + (if ok { seq![call_of(id, s4)] } else { Seq::empty() });
    assert(trace =~= deletion_calls(id, current, ok));
}

/// The file to delete and the folder it lies in.
#[derive(Debug)]
pub struct DeletionTarget {
    pub path: String,
    pub folder: String,
}

/// The error for an id the library does not hold.
pub open spec fn not_found_message(id: i64) -> Seq<char> {
    "song "@ + spec_signed_decimal(id as int) + " not found"@
}

/// The error for a path without a parent.
pub open spec fn no_parent_message(path: Seq<char>) -> Seq<char> {
    "song path has no parent: "@ + path
}

/// What looking up song `id` among `songs` for deletion gives, with
/// backslash separators when `windows`: the not-found error, the no-parent
/// error, or the song's path and folder.
pub open spec fn deletion_outcome(songs: Seq<Song>, id: i64, windows: bool, r: Result<DeletionTarget, String>) -> bool {
    match first_with_id(songs, id) {
        None => r matches Err(e) && e@ == not_found_message(id),
        Some(s) => match spec_parent(s.path@, windows) {
            None => r matches Err(e) && e@ == no_parent_message(s.path@),
            Some(f) => r matches Ok(t) && t.path@ == s.path@ && t.folder@ == f,
        },
    }
}

/// Finds what deleting song `id` means: its path and folder. Fails when the
/// library has no such song, or its path has no parent.
pub fn deletion_target_on(library: &Library, id: i64, windows: bool) -> (r: Result<DeletionTarget, String>)
    ensures
        deletion_outcome(library.spec_songs(), id, windows, r),
{
    let song = match library.find_by_id(id) {
        Some(s) => s,
        None => {
            let mut e = String::new();
            push_str(&mut e, "song ");
            push_signed_decimal(&mut e, id);
            push_str(&mut e, " not found");
            return Err(e);
        },
    };
    match parent_on(song.path.as_str(), windows) {
        Some(folder) => Ok(DeletionTarget { path: song.path, folder }),
        None => {
            let mut e = String::new();
            push_str(&mut e, "song path has no parent: ");
            push_str(&mut e, song.path.as_str());
            Err(e)
        },
    }
}

/// `deletion_target_on` for this platform.
pub fn deletion_target(library: &Library, id: i64) -> (r: Result<DeletionTarget, String>)
    ensures
        deletion_outcome(library.spec_songs(), id, false, r) || deletion_outcome(library.spec_songs(), id, true, r),
{
    deletion_target_on(library, id, platform_uses_backslash())
}

} // verus!
