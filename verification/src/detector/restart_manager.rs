//! The Restart Manager as the detector sees it: the interface that scans a
//! set of paths, its raw answers, and the decisions taken on the codes that
//! its calls return.
//!
//! A Restart Manager scan opens a session, registers the paths (at most a
//! thousand per call), asks for the size of the list of processes that hold
//! them, fetches the list, and closes the session. When the list grows
//! between the two calls the fetch is retried, three times at most.

use vstd::prelude::*;

use crate::error::{RmError, format_message_w, message_or_fallback};
use crate::process_info::FileTime;

verus! {

/// `ERROR_SUCCESS`.
pub const ERROR_SUCCESS: u32 = 0;

/// `ERROR_FILE_NOT_FOUND`.
pub const ERROR_FILE_NOT_FOUND: u32 = 2;

/// `ERROR_ACCESS_DENIED`.
pub const ERROR_ACCESS_DENIED: u32 = 5;

/// `ERROR_MORE_DATA`.
pub const ERROR_MORE_DATA: u32 = 234;

/// How many times the list is fetched before giving up.
pub const MAX_FETCH_ATTEMPTS: u32 = 3;

/// How many paths one registration call takes at most.
pub const REGISTER_BATCH: usize = 1000;

/// One process in the answer of the Restart Manager.
#[derive(Clone, Debug)]
pub struct RmProcessInfo {
    pub pid: u32,
    /// The process start time, when the Restart Manager gave one.
    pub start_time: Option<FileTime>,
    /// The application or image name.
    pub app_name: String,
    /// The raw `RM_APP_TYPE` value.
    pub app_type: u32,
}

/// Scans a set of paths for the processes that hold them.
pub trait RestartManagerApi: Send + Sync {
    /// The processes that hold any of `paths`.
    ///
    /// Fails with `AccessDenied` when the system refuses access, with
    /// `PathNotFound` when a path does not exist, with `Win32` on another
    /// Win32 failure and with `Other` on any other failure.
    fn scan(&self, paths: &[String]) -> Result<Vec<RmProcessInfo>, RmError>;
}

/// `e` is the `RmError` for the failing Win32 code `code`: `AccessDenied`
/// for `ERROR_ACCESS_DENIED`, `PathNotFound` for `ERROR_FILE_NOT_FOUND`, and
/// `Win32` with the code and the system's description of it otherwise.
pub open spec fn rm_error_for(code: u32, e: RmError) -> bool {
    if code == ERROR_ACCESS_DENIED {
        e == RmError::AccessDenied
    } else if code == ERROR_FILE_NOT_FOUND {
        e == RmError::PathNotFound
    } else {
        e matches RmError::Win32 { code: c, desc } && c == code && desc@.len() > 0 && exists|
            raw: Seq<char>,
        | desc@ == message_or_fallback(raw, code)
    }
}

/// The `RmError` for a failing Win32 code.
pub fn rm_error_from_code(code: u32) -> (e: RmError)
    ensures
        rm_error_for(code, e),
{
    if code == ERROR_ACCESS_DENIED {
        RmError::AccessDenied
    } else if code == ERROR_FILE_NOT_FOUND {
        RmError::PathNotFound
    } else {
        RmError::Win32 { code, desc: format_message_w(code) }
    }
}

/// The start time that the Restart Manager reports in two halves: none when
/// both are zero.
pub fn rm_start_time(low: u32, high: u32) -> (t: Option<FileTime>)
    ensures
        t == if low == 0 && high == 0 {
            None
        } else {
            Some(FileTime { low, high })
        },
{
    if low == 0 && high == 0 {
        None
    } else {
        Some(FileTime { low, high })
    }
}

/// The text of UTF-16 code units, as `String::from_utf16_lossy` decodes
/// them (an unpaired surrogate becomes U+FFFD).
pub uninterp spec fn utf16_lossy(units: Seq<u16>) -> Seq<char>;

/// Decodes UTF-16 code units with `String::from_utf16_lossy`.
#[verifier::external_body]
pub(crate) fn decode_utf16_lossy(units: &[u16]) -> (s: String)
    ensures
        s@ == utf16_lossy(units@),
{
    String::from_utf16_lossy(units)
}

/// The code units of `units` before the first NUL (all of them when there is
/// none).
pub open spec fn before_nul(units: Seq<u16>) -> Seq<u16>
    decreases units.len(),
{
    if units.len() == 0 {
        units
    } else if units[0] == 0 {
        Seq::empty()
    } else {
        seq![units[0]] + before_nul(units.skip(1))
    }
}

pub(crate) proof fn lemma_before_nul(units: Seq<u16>, n: int)
    requires
        0 <= n <= units.len(),
        forall|i: int| 0 <= i < n ==> units[i] != 0,
        n == units.len() || units[n] == 0,
    ensures
        before_nul(units) == units.take(n),
    decreases units.len(),
{
    if units.len() > 0 && units[0] != 0 {
        lemma_before_nul(units.skip(1), n - 1);
        assert(seq![units[0]] + units.skip(1).take(n - 1) =~= units.take(n));
    } else if units.len() > 0 {
        assert(units.take(n) =~= Seq::<u16>::empty());
    } else {
        assert(units.take(n) =~= units);
    }
}

/// The application name held in a NUL-terminated UTF-16 buffer, such as
/// `RM_PROCESS_INFO.strAppName`: the code units before the first NUL,
/// decoded.
pub fn app_name_from_units(units: &[u16]) -> (s: String)
    ensures
        s@ == utf16_lossy(before_nul(units@)),
{
    let mut n: usize = 0;
    while n < units.len() && units[n] != 0
        invariant
            n <= units@.len(),
            forall|i: int| 0 <= i < n ==> units@[i] != 0,
        decreases units@.len() - n,
    {
        n = n + 1;
    }
    let mut head: Vec<u16> = Vec::new();
    let mut i: usize = 0;
    while i < n
        invariant
            n <= units@.len(),
            i <= n,
            head@ == units@.take(i as int),
        decreases n - i,
    {
        head.push(units[i]);
        i = i + 1;
        assert(head@ =~= units@.take(i as int));
    }
    proof {
        lemma_before_nul(units@, n as int);
    }
    decode_utf16_lossy(head.as_slice())
}

/// What to do after asking for the size of the list.
#[derive(Debug)]
pub enum SizeStep {
    /// The call failed.
    Fail(RmError),
    /// No process holds the paths.
    NoProcess,
    /// Fetch this many entries.
    Fetch(u32),
}

/// The decision after asking for the size of the list: a code other than
/// `ERROR_SUCCESS` and `ERROR_MORE_DATA` fails the scan; a size of zero
/// means that no process holds the paths; otherwise the list is fetched.
pub fn after_size_query(code: u32, needed: u32) -> (step: SizeStep)
    ensures
        code != ERROR_SUCCESS && code != ERROR_MORE_DATA ==> (step matches SizeStep::Fail(e)
            && rm_error_for(code, e)),
        (code == ERROR_SUCCESS || code == ERROR_MORE_DATA) && needed == 0 ==> step is NoProcess,
        (code == ERROR_SUCCESS || code == ERROR_MORE_DATA) && needed > 0 ==> step == SizeStep::Fetch(
            needed,
        ),
{
    if code != ERROR_SUCCESS && code != ERROR_MORE_DATA {
        return SizeStep::Fail(rm_error_from_code(code));
    }
    if needed == 0 {
        SizeStep::NoProcess
    } else {
        SizeStep::Fetch(needed)
    }
}

/// What to do after fetching the list.
#[derive(Debug)]
pub enum FetchStep {
    /// The list was read.
    Done,
    /// The list grew in between: ask for its size again.
    Retry,
    /// The call failed, or the list kept growing.
    Fail(RmError),
}

/// The text of the failure when the list keeps growing.
pub open spec fn exhausted_text() -> Seq<char> {
    "RmGetList 持续返回 ERROR_MORE_DATA，重试耗尽"@
}

/// The decision after fetching the list on the attempt `attempt` (counted
/// from 0): `ERROR_MORE_DATA` retries while attempts are left and gives up
/// with `Other` after the last; another failing code fails the scan; success
/// ends it.
pub fn after_fetch(code: u32, attempt: u32) -> (step: FetchStep)
    ensures
        code == ERROR_SUCCESS ==> step is Done,
        code == ERROR_MORE_DATA && attempt + 1 < MAX_FETCH_ATTEMPTS ==> step is Retry,
        code == ERROR_MORE_DATA && attempt + 1 >= MAX_FETCH_ATTEMPTS ==> (step matches FetchStep::Fail(
            RmError::Other(msg),
        ) && msg@ == exhausted_text()),
        code != ERROR_SUCCESS && code != ERROR_MORE_DATA ==> (step matches FetchStep::Fail(e)
            && rm_error_for(code, e)),
{
    if code == ERROR_MORE_DATA {
        if attempt < MAX_FETCH_ATTEMPTS - 1 {
            FetchStep::Retry
        } else {
            FetchStep::Fail(RmError::Other(String::from_str("RmGetList 持续返回 ERROR_MORE_DATA，重试耗尽")))
        }
    } else if code != ERROR_SUCCESS {
        FetchStep::Fail(rm_error_from_code(code))
    } else {
        FetchStep::Done
    }
}

/// The end of the `i`-th batch of registered paths among `len`: a whole
/// batch of `REGISTER_BATCH` paths further, or `len` for the last.
pub open spec fn batch_end(i: int, len: int) -> int {
    if (i + 1) * 1000 < len {
        (i + 1) * 1000
    } else {
        len
    }
}

/// The ranges `[start, end)` in which `len` paths are registered, as
/// `chunks(REGISTER_BATCH)` cuts them: batch `i` starts at `1000 * i` and
/// holds a thousand paths, but for the last, which holds the rest; there are
/// as many batches as it takes to cover every path, and none for no path.
pub fn register_batches(len: usize) -> (ranges: Vec<(usize, usize)>)
    ensures
        ranges@.len() * 1000 >= len,
        ranges@.len() == 0 || (ranges@.len() - 1) * 1000 < len,
        forall|i: int|
            0 <= i < ranges@.len() ==> (#[trigger] ranges@[i]).0 == i * 1000 && ranges@[i].1 == batch_end(i, len as int),
{
    let mut ranges: Vec<(usize, usize)> = Vec::new();
    let mut start: usize = 0;
    while start < len
        invariant
            start <= len,
            start == if ranges@.len() * 1000 <= len { (ranges@.len() * 1000) as int } else { len as int },
            ranges@.len() == 0 || (ranges@.len() - 1) * 1000 < len,
            forall|i: int|
                0 <= i < ranges@.len() ==> (#[trigger] ranges@[i]).0 == i * 1000 && ranges@[i].1 == batch_end(i, len as int),
        decreases len - start,
    {
        let end = if len - start > REGISTER_BATCH {
            start + REGISTER_BATCH
        } else {
            len
        };
        let ghost before = ranges@;
        ranges.push((start, end));
        proof {
            assert forall|i: int| 0 <= i < ranges@.len() implies (#[trigger] ranges@[i]).0 == i * 1000 && ranges@[i].1 == batch_end(i, len as int) by {
                if i < before.len() {
                    assert(ranges@[i] == before[i]);
                }
            }
        }
        start = end;
    }
    ranges
}

/// How a Restart Manager scan ends.
#[derive(Debug)]
pub enum RmOutcome {
    /// No process holds the paths (or there was no path to ask about).
    Empty,
    /// The list that was fetched.
    Listed,
    /// The scan failed.
    Failed(RmError),
}

/// Where a Restart Manager scan stands: what it asked last.
#[derive(Debug)]
pub enum RmStage {
    /// Nothing asked yet.
    Idle,
    /// A session was asked for.
    Opening,
    /// The session is open; the batch `batch` of paths was registered.
    Registering { batch: usize },
    /// The session is open; the size of the list was asked, on the attempt
    /// `attempt` (counted from 0).
    Sizing { attempt: u32 },
    /// The session is open; the list was fetched, on the attempt `attempt`.
    Fetching { attempt: u32 },
    /// The session was asked to end; then the scan ends with `outcome`.
    Ending { outcome: RmOutcome },
    /// The scan is over.
    Over,
}

/// What the last request of a scan gave: the Win32 codes of the calls.
#[derive(Debug)]
pub enum RmEvent {
    /// Nothing asked yet.
    Begin,
    /// `RmStartSession` returned `code`.
    Started(u32),
    /// `RmRegisterResources` returned `code`.
    Registered(u32),
    /// `RmGetList`, asked for the size, returned `code` and `needed` entries.
    Sized(u32, u32),
    /// `RmGetList`, asked for the list, returned `code`.
    Fetched(u32),
    /// `RmEndSession` was called.
    Ended,
}

/// What a scan does next.
#[derive(Debug)]
pub enum RmAction {
    /// Start a session.
    StartSession,
    /// Register the batch `batch` of the paths (see `register_batches`).
    Register(usize),
    /// Ask for the size of the list.
    QuerySize,
    /// Fetch the list, with room for `capacity` entries.
    Fetch(u32),
    /// End the session.
    EndSession,
    /// Stop, with this outcome.
    Finish(RmOutcome),
}

/// Whether a session is open in the stage `stage`: from a started session
/// until it was ended.
pub open spec fn session_open(stage: RmStage) -> bool {
    stage is Registering || stage is Sizing || stage is Fetching || stage is Ending
}

/// Whether `event` answers what was asked in `stage`.
pub open spec fn rm_event_fits(stage: RmStage, event: RmEvent) -> bool {
    match stage {
        RmStage::Idle => event is Begin,
        RmStage::Opening => event is Started,
        RmStage::Registering { .. } => event is Registered,
        RmStage::Sizing { .. } => event is Sized,
        RmStage::Fetching { .. } => event is Fetched,
        RmStage::Ending { .. } => event is Ended,
        RmStage::Over => false,
    }
}

/// Whether `stage` can be reached when the paths take `nb` batches: a
/// session is only asked for when there is a batch, batches are counted
/// below `nb`, and attempts below `MAX_FETCH_ATTEMPTS`.
pub open spec fn rm_stage_valid(stage: RmStage, nb: usize) -> bool {
    match stage {
        RmStage::Opening => nb >= 1,
        RmStage::Registering { batch } => batch < nb,
        RmStage::Sizing { attempt } => attempt < MAX_FETCH_ATTEMPTS,
        RmStage::Fetching { attempt } => attempt < MAX_FETCH_ATTEMPTS,
        _ => true,
    }
}

/// The session is ended for the failing code `code`: then the scan fails
/// with the error for that code.
pub open spec fn ends_failing(code: u32, next: RmStage, action: RmAction) -> bool {
    &&& next matches RmStage::Ending { outcome: RmOutcome::Failed(e) } && rm_error_for(code, e)
    &&& action is EndSession
}

/// The step of a scan of paths that take `nb` batches, from `stage`, after
/// `event`, to `next`, asking `action`:
/// - with no batch, the scan ends at once with no process; otherwise a
///   session is started, and a failure to start it ends the scan with its
///   error;
/// - the batches are registered in order; a failure ends the session, then
///   the scan with its error;
/// - then the size of the list is asked: a failing code ends the session,
///   then the scan with its error; a size of zero ends the session, then the
///   scan with no process; otherwise the list is fetched;
/// - a fetched list ends the session, then the scan with the list; a list
///   that grew in between is asked for again while attempts are left, and
///   after the last attempt the session ends, then the scan fails; another
///   failing code ends the session, then the scan with its error;
/// - once the session is ended, the scan ends with the outcome decided.
pub open spec fn rm_transition(stage: RmStage, event: RmEvent, nb: usize, next: RmStage, action: RmAction) -> bool {
    match stage {
        RmStage::Idle => if nb == 0 {
            next is Over && action == RmAction::Finish(RmOutcome::Empty)
        } else {
            next is Opening && action is StartSession
        },
        RmStage::Opening => match event {
            RmEvent::Started(code) => if code == ERROR_SUCCESS {
                next == (RmStage::Registering { batch: 0 }) && action == RmAction::Register(0)
            } else {
                &&& next is Over
                &&& action matches RmAction::Finish(RmOutcome::Failed(e)) && rm_error_for(code, e)
            },
            _ => false,
        },
        RmStage::Registering { batch } => match event {
            RmEvent::Registered(code) => if code != ERROR_SUCCESS {
                ends_failing(code, next, action)
            } else if batch + 1 < nb {
                next == (RmStage::Registering { batch: (batch + 1) as usize }) && action == RmAction::Register(
                    (batch + 1) as usize,
                )
            } else {
                next == (RmStage::Sizing { attempt: 0 }) && action is QuerySize
            },
            _ => false,
        },
        RmStage::Sizing { attempt } => match event {
            RmEvent::Sized(code, needed) => if code != ERROR_SUCCESS && code != ERROR_MORE_DATA {
                ends_failing(code, next, action)
            } else if needed == 0 {
                next == (RmStage::Ending { outcome: RmOutcome::Empty }) && action is EndSession
            } else {
                next == (RmStage::Fetching { attempt }) && action == RmAction::Fetch(needed)
            },
            _ => false,
        },
        RmStage::Fetching { attempt } => match event {
            RmEvent::Fetched(code) => if code == ERROR_SUCCESS {
                next == (RmStage::Ending { outcome: RmOutcome::Listed }) && action is EndSession
            } else if code == ERROR_MORE_DATA {
                if attempt + 1 < MAX_FETCH_ATTEMPTS {
                    next == (RmStage::Sizing { attempt: (attempt + 1) as u32 }) && action is QuerySize
                } else {
                    &&& next matches RmStage::Ending { outcome: RmOutcome::Failed(RmError::Other(msg)) }
                        && msg@ == exhausted_text()
                    &&& action is EndSession
                }
            } else {
                ends_failing(code, next, action)
            },
            _ => false,
        },
        RmStage::Ending { outcome } => match event {
            RmEvent::Ended => next is Over && action == RmAction::Finish(outcome),
            _ => false,
        },
        RmStage::Over => false,
    }
}

/// The next step of a scan of paths that take `nb` batches, from `stage`,
/// after `event`: the stage it is then in, and what it asks.
pub fn rm_step(stage: RmStage, event: RmEvent, nb: usize) -> (r: (RmStage, RmAction))
    requires
        rm_event_fits(stage, event),
        rm_stage_valid(stage, nb),
    ensures
        rm_transition(stage, event, nb, r.0, r.1),
        rm_stage_valid(r.0, nb),
{
    match stage {
        RmStage::Idle => if nb == 0 {
            (RmStage::Over, RmAction::Finish(RmOutcome::Empty))
        } else {
            (RmStage::Opening, RmAction::StartSession)
        },
        RmStage::Opening => match event {
            RmEvent::Started(code) => if code == ERROR_SUCCESS {
                (RmStage::Registering { batch: 0 }, RmAction::Register(0))
            } else {
                (RmStage::Over, RmAction::Finish(RmOutcome::Failed(rm_error_from_code(code))))
            },
            _ => (RmStage::Over, RmAction::Finish(RmOutcome::Empty)),
        },
        RmStage::Registering { batch } => match event {
            RmEvent::Registered(code) => if code != ERROR_SUCCESS {
                (RmStage::Ending { outcome: RmOutcome::Failed(rm_error_from_code(code)) }, RmAction::EndSession)
            } else if batch + 1 < nb {
                (RmStage::Registering { batch: batch + 1 }, RmAction::Register(batch + 1))
            } else {
                (RmStage::Sizing { attempt: 0 }, RmAction::QuerySize)
            },
            _ => (RmStage::Over, RmAction::Finish(RmOutcome::Empty)),
        },
        RmStage::Sizing { attempt } => match event {
            RmEvent::Sized(code, needed) => match after_size_query(code, needed) {
                SizeStep::Fail(e) => (RmStage::Ending { outcome: RmOutcome::Failed(e) }, RmAction::EndSession),
                SizeStep::NoProcess => (RmStage::Ending { outcome: RmOutcome::Empty }, RmAction::EndSession),
                SizeStep::Fetch(n) => (RmStage::Fetching { attempt }, RmAction::Fetch(n)),
            },
            _ => (RmStage::Over, RmAction::Finish(RmOutcome::Empty)),
        },
        RmStage::Fetching { attempt } => match event {
            RmEvent::Fetched(code) => match after_fetch(code, attempt) {
                FetchStep::Done => (RmStage::Ending { outcome: RmOutcome::Listed }, RmAction::EndSession),
                FetchStep::Retry => (RmStage::Sizing { attempt: attempt + 1 }, RmAction::QuerySize),
                FetchStep::Fail(e) => (RmStage::Ending { outcome: RmOutcome::Failed(e) }, RmAction::EndSession),
            },
            _ => (RmStage::Over, RmAction::Finish(RmOutcome::Empty)),
        },
        RmStage::Ending { outcome } => (RmStage::Over, RmAction::Finish(outcome)),
        RmStage::Over => (RmStage::Over, RmAction::Finish(RmOutcome::Empty)),
    }
}

/// How far `stage` is from the end of a scan of paths that take `nb`
/// batches.
pub open spec fn rm_rank(stage: RmStage, nb: usize) -> int {
    match stage {
        RmStage::Idle => nb + 9,
        RmStage::Opening => nb + 8,
        RmStage::Registering { batch } => nb - batch + 7,
        RmStage::Sizing { attempt } => 2 * (MAX_FETCH_ATTEMPTS - attempt) + 1,
        RmStage::Fetching { attempt } => 2 * (MAX_FETCH_ATTEMPTS - attempt),
        RmStage::Ending { .. } => 1,
        RmStage::Over => 0,
    }
}

/// Each step of a scan brings it closer to its end and keeps it valid; a
/// scan finishes only before a session was started or once it was ended;
/// and while a session is open and not being ended, the scan neither
/// finishes nor leaves the session, and ending it is always asked for with
/// `EndSession`.
pub proof fn lemma_rm_step(stage: RmStage, event: RmEvent, nb: usize, next: RmStage, action: RmAction)
    requires
        rm_transition(stage, event, nb, next, action),
        rm_stage_valid(stage, nb),
    ensures
        rm_stage_valid(next, nb),
        0 <= rm_rank(next, nb) < rm_rank(stage, nb),
        action is Finish ==> next is Over && (stage is Idle || stage is Opening || (stage is Ending && event is Ended)),
        session_open(stage) && !(stage is Ending) ==> session_open(next) && !(action is Finish),
        next is Ending ==> action is EndSession && session_open(stage),
        next is Registering ==> session_open(stage) || (stage is Opening && event == RmEvent::Started(ERROR_SUCCESS)),
{
    match stage {
        RmStage::Registering { batch } => {
            assert(batch < nb);
        },
        RmStage::Fetching { attempt } => {
            if next is Sizing {
                assert(next == (RmStage::Sizing { attempt: (attempt + 1) as u32 }));
                assert(((attempt + 1) as u32) == attempt + 1);
            }
        },
        _ => {},
    }
}

/// A Restart Manager scan always ends, and so does its session: a scan of
/// paths that take `nb` batches takes at most `nb + 9` steps, and from the
/// step after which a session is open to the step at which the scan
/// finishes, the session is asked to end.
pub proof fn lemma_rm_session_always_ends(stages: Seq<RmStage>, events: Seq<RmEvent>, actions: Seq<RmAction>, nb: usize)
    requires
        stages.len() == events.len() + 1,
        actions.len() == events.len(),
        stages[0] is Idle,
        forall|k: int| 0 <= k < events.len() ==> rm_transition(#[trigger] stages[k], events[k], nb, stages[k + 1], actions[k]),
    ensures
        events.len() <= nb + 9,
        forall|k: int, f: int|
            0 <= k < f < actions.len() && session_open(#[trigger] stages[k + 1]) && (#[trigger] actions[f]) is Finish
                ==> exists|j: int| k <= j < f && (#[trigger] actions[j]) is EndSession,
{
    lemma_rm_run_rank(stages, events, actions, nb, events.len() as int);
    assert forall|k: int, f: int|
        0 <= k < f < actions.len() && session_open(#[trigger] stages[k + 1]) && (#[trigger] actions[f]) is Finish
            implies exists|j: int| k <= j < f && (#[trigger] actions[j]) is EndSession by {
        lemma_rm_run_valid(stages, events, actions, nb, k + 1);
        lemma_rm_run_ends(stages, events, actions, nb, k, f);
    }
}

/// Along a scan, every stage up to `i` is valid and `i` steps closer to the
/// end than the first.
proof fn lemma_rm_run_rank(stages: Seq<RmStage>, events: Seq<RmEvent>, actions: Seq<RmAction>, nb: usize, i: int)
    requires
        stages.len() == events.len() + 1,
        actions.len() == events.len(),
        stages[0] is Idle,
        forall|k: int| 0 <= k < events.len() ==> rm_transition(#[trigger] stages[k], events[k], nb, stages[k + 1], actions[k]),
        0 <= i <= events.len(),
    ensures
        rm_stage_valid(stages[i], nb),
        0 <= rm_rank(stages[i], nb) <= nb + 9 - i,
    decreases i,
{
    if i > 0 {
        lemma_rm_run_rank(stages, events, actions, nb, i - 1);
        assert(rm_transition(stages[i - 1], events[i - 1], nb, stages[i], actions[i - 1]));
        lemma_rm_step(stages[i - 1], events[i - 1], nb, stages[i], actions[i - 1]);
    }
}

/// Along a scan, every stage up to `i` is valid.
proof fn lemma_rm_run_valid(stages: Seq<RmStage>, events: Seq<RmEvent>, actions: Seq<RmAction>, nb: usize, i: int)
    requires
        stages.len() == events.len() + 1,
        actions.len() == events.len(),
        stages[0] is Idle,
        forall|k: int| 0 <= k < events.len() ==> rm_transition(#[trigger] stages[k], events[k], nb, stages[k + 1], actions[k]),
        0 <= i <= events.len(),
    ensures
        rm_stage_valid(stages[i], nb),
{
    lemma_rm_run_rank(stages, events, actions, nb, i);
}

/// From the step `k` after which a session is open to a step `f` that
/// finishes the scan, the session is asked to end.
proof fn lemma_rm_run_ends(stages: Seq<RmStage>, events: Seq<RmEvent>, actions: Seq<RmAction>, nb: usize, k: int, f: int)
    requires
        stages.len() == events.len() + 1,
        actions.len() == events.len(),
        stages[0] is Idle,
        forall|m: int| 0 <= m < events.len() ==> rm_transition(#[trigger] stages[m], events[m], nb, stages[m + 1], actions[m]),
        0 <= k < f < actions.len(),
        session_open(stages[k + 1]),
        actions[f] is Finish,
    ensures
        exists|j: int| k <= j < f && (#[trigger] actions[j]) is EndSession,
    decreases f - k,
{
    lemma_rm_run_valid(stages, events, actions, nb, k);
    assert(rm_transition(stages[k], events[k], nb, stages[k + 1], actions[k]));
    lemma_rm_step(stages[k], events[k], nb, stages[k + 1], actions[k]);
    if stages[k + 1] is Ending {
        assert(actions[k] is EndSession);
    } else {
        lemma_rm_run_valid(stages, events, actions, nb, k + 1);
        assert(rm_transition(stages[k + 1], events[k + 1], nb, stages[k + 2], actions[k + 1]));
        lemma_rm_step(stages[k + 1], events[k + 1], nb, stages[k + 2], actions[k + 1]);
        lemma_rm_run_ends(stages, events, actions, nb, k + 1, f);
        let j = choose|j: int| k + 1 <= j < f && (#[trigger] actions[j]) is EndSession;
        assert(k <= j < f && actions[j] is EndSession);
    }
}

} // verus!
