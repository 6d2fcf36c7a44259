//! Bookkeeping for helper processes: the PID file that stands for each live
//! helper, what to do about the PID files that an earlier run left behind,
//! and the handle through which scripts write to a helper and kill it.
//!
//! Nothing here starts, signals or reaps a process; the host does, and is
//! told here what is due.

use vstd::prelude::*;
use vstd::string::*;
use crate::event_loop::Event;
use crate::geometry::CallbackId;
use crate::text::{
    chars_of, decimal_text, decimal_value, has_suffix, is_digit, is_number,
    lemma_decimal_value_prefix, matches_at, u64_to_decimal,
};

verus! {

/// What the name of every PID file ends with.
pub const PID_SUFFIX: &'static str = ".pid";

/// How long an old process is given to end after it was interrupted, in
/// milliseconds.
pub const OLD_PROCESS_SHUTDOWN_GRACE_PERIOD_MS: u64 = 2500;

/// How long to wait between two looks at an old process, in milliseconds.
pub const OLD_PROCESS_SHUTDOWN_POLL_INTERVAL_MS: u64 = 50;

/// The name of the PID file of a process: its PID in decimal, then `.pid`.
pub open spec fn pid_file_text(pid: u32) -> Seq<char> {
    decimal_text(pid as nat) + PID_SUFFIX@
}

/// The name of the PID file of a process.
pub fn pid_file_name(pid: u32) -> (r: String)
    ensures
        r@ == pid_file_text(pid),
{
    let mut r = u64_to_decimal(pid as u64);
    r.append(PID_SUFFIX);
    r
}

/// The path of the PID file of a process in the given directory.
pub fn pid_file_path(pid_dir: &str, pid: u32) -> (r: String)
    ensures
        r@ == pid_dir@ + "/"@ + pid_file_text(pid),
{
    let mut r = String::from_str(pid_dir);
    r.append("/");
    let name = pid_file_name(pid);
    r.append(name.as_str());
    r
}

/// A text without any `.pid` at its end: each one that stands there is
/// taken off.
pub open spec fn without_pid_suffix(s: Seq<char>) -> Seq<char>
    decreases s.len(),
{
    if has_suffix(s, PID_SUFFIX@) && PID_SUFFIX@.len() > 0 {
        without_pid_suffix(s.take(s.len() - PID_SUFFIX@.len()))
    } else {
        s
    }
}

/// What a text denotes as a signed 32-bit number: an optional `+` or `-`,
/// then a run of decimal digits, with a value within range.
pub open spec fn i32_of_text(s: Seq<char>) -> Option<i32> {
    if s.len() > 0 && s[0] == '-' {
        if is_number(s.skip(1)) && decimal_value(s.skip(1)) <= 0x8000_0000 {
            Some((0 - decimal_value(s.skip(1))) as i32)
        } else {
            None
        }
    } else {
        let digits = if s.len() > 0 && s[0] == '+' {
            s.skip(1)
        } else {
            s
        };
        if is_number(digits) && decimal_value(digits) <= 0x7fff_ffff {
            Some(decimal_value(digits) as i32)
        } else {
            None
        }
    }
}

/// What an entry of the PID directory is.
#[derive(Debug, PartialEq, Eq, Copy, Clone, Structural)]
pub enum PidFile {
    /// Its name does not end with `.pid`: it is left alone.
    NotPidFile,
    /// It names the process with this PID, which may still run: the process
    /// is dealt with, and the file is removed.
    Stale { pid: i32 },
    /// It names a number that is no PID: no process is looked for, and the
    /// file is removed, with a warning.
    InvalidPid { pid: i32 },
    /// What stands before `.pid` is no number: no process is looked for, and
    /// the file is removed, with a warning.
    NotNumeric,
}

/// What an entry of the PID directory with the given name is.
pub open spec fn pid_file_kind(filename: Seq<char>) -> PidFile {
    if !has_suffix(filename, PID_SUFFIX@) {
        PidFile::NotPidFile
    } else {
        match i32_of_text(without_pid_suffix(filename)) {
            Some(pid) => if pid > 0 {
                PidFile::Stale { pid }
            } else {
                PidFile::InvalidPid { pid }
            },
            None => PidFile::NotNumeric,
        }
    }
}

/// Reads the characters of `v` from `from` up to `to` as a run of decimal
/// digits with a value of at most `limit`.
fn parse_digits(v: &Vec<char>, from: usize, to: usize, limit: u64) -> (r: Option<u64>)
    requires
        from <= to <= v.len(),
        limit <= 0x8000_0000,
    ensures
        match r {
            Some(n) => is_number(v@.subrange(from as int, to as int)) && n == decimal_value(
                v@.subrange(from as int, to as int),
            ) && n <= limit,
            None => !(is_number(v@.subrange(from as int, to as int)) && decimal_value(
                v@.subrange(from as int, to as int),
            ) <= limit),
        },
{
    let ghost s = v@.subrange(from as int, to as int);
    if from == to {
        return None;
    }
    let mut acc: u64 = 0;
    let mut i: usize = from;
    while i < to
        invariant
            from <= i <= to <= v.len(),
            limit <= 0x8000_0000,
            s == v@.subrange(from as int, to as int),
            forall|k: int| 0 <= k < i - from ==> is_digit(#[trigger] s[k]),
            acc as nat == decimal_value(s.take(i - from)),
            acc <= limit,
        decreases to - i,
    {
        let c = v[i];
        if !('0' <= c && c <= '9') {
            assert(!is_digit(s[i - from]));
            return None;
        }
        let d: u64 = (c as u64) - ('0' as u64);
        let next: u64 = acc * 10 + d;
        proof {
            assert(s.take(i - from + 1).drop_last() =~= s.take(i - from));
            assert(s.take(i - from + 1).last() == c);
            assert(next as nat == decimal_value(s.take(i - from + 1)));
        }
        if next > limit {
            proof {
                lemma_decimal_value_prefix(s, i - from + 1);
            }
            return None;
        }
        acc = next;
        i += 1;
    }
    assert(s.take(to - from) =~= s);
    Some(acc)
}

/// Reads the first `len` characters of `v` as a signed 32-bit number.
fn parse_i32(v: &Vec<char>, len: usize) -> (r: Option<i32>)
    requires
        len <= v.len(),
    ensures
        r == i32_of_text(v@.take(len as int)),
{
    let ghost s = v@.take(len as int);
    if len > 0 && v[0] == '-' {
        assert(v@.subrange(1, len as int) =~= s.skip(1));
        match parse_digits(v, 1, len, 0x8000_0000) {
            Some(n) => Some((0 - n as i64) as i32),
            None => None,
        }
    } else {
        let from: usize = if len > 0 && v[0] == '+' {
            1
        } else {
            0
        };
        proof {
            if from == 1 {
                assert(v@.subrange(1, len as int) =~= s.skip(1));
            } else {
                assert(v@.subrange(0, len as int) =~= s);
            }
        }
        match parse_digits(v, from, len, 0x7fff_ffff) {
            Some(n) => Some(n as i32),
            None => None,
        }
    }
}

/// Says what an entry of the PID directory is, by its name.
pub fn classify_pid_file(filename: &str) -> (r: PidFile)
    ensures
        r == pid_file_kind(filename@),
{
    let v = chars_of(filename);
    let suffix = chars_of(PID_SUFFIX);
    proof {
        reveal_strlit(".pid");
    }
    if !(suffix.len() <= v.len() && matches_at(&v, v.len() - suffix.len(), &suffix)) {
        return PidFile::NotPidFile;
    }
    let mut len: usize = v.len();
    assert(v@.take(len as int) =~= v@);
    while len >= suffix.len() && matches_at(&v, len - suffix.len(), &suffix)
        invariant
            len <= v.len(),
            suffix@ == PID_SUFFIX@,
            suffix@.len() == 4,
            without_pid_suffix(v@) == without_pid_suffix(v@.take(len as int)),
        decreases len,
    {
        proof {
            let s = v@.take(len as int);
            assert(s.subrange(s.len() - 4, s.len() as int) =~= v@.subrange(len - 4, len as int));
            assert(has_suffix(s, PID_SUFFIX@));
            assert(s.take(s.len() - 4) =~= v@.take(len - 4));
        }
        len = len - suffix.len();
    }
    proof {
        let s = v@.take(len as int);
        if len >= 4 {
            assert(s.subrange(s.len() - 4, s.len() as int) =~= v@.subrange(len - 4, len as int));
        }
        assert(!has_suffix(s, PID_SUFFIX@));
    }
    match parse_i32(&v, len) {
        Some(pid) => if pid > 0 {
            PidFile::Stale { pid }
        } else {
            PidFile::InvalidPid { pid }
        },
        None => PidFile::NotNumeric,
    }
}

/// One step in dealing with an old process.
#[derive(Debug, PartialEq, Eq, Copy, Clone, Structural)]
pub enum SweepAction {
    /// Look whether the process runs, before anything was done to it.
    ProbeFirst,
    /// Ask the process to end.
    Interrupt,
    /// Read how long ago the process was asked to end.
    ReadClock,
    /// Look whether the process still runs.
    ProbeAgain,
    /// Wait for so many milliseconds.
    Sleep { ms: u64 },
    /// End the process by force.
    Kill,
    /// Remove the PID file; with it the process is dealt with.
    RemoveFile,
}

/// What a step in dealing with an old process showed.
#[derive(Debug, PartialEq, Eq, Copy, Clone, Structural)]
pub enum SweepResult {
    /// The process runs.
    Alive,
    /// The process does not run.
    Dead,
    /// The signal was sent.
    Sent,
    /// The signal could not be sent.
    NotSent,
    /// So many milliseconds have gone by since the process was asked to end.
    Elapsed { ms: u64 },
    /// The wait is over.
    Slept,
}

/// The step that follows a step and what it showed. A process that does not
/// run has its PID file removed. One that runs is asked to end, and looked
/// at every 50 milliseconds for as long as less than 2500 milliseconds have
/// gone by; then it is ended by force. Whatever happens, the PID file is
/// removed in the end.
pub open spec fn sweep_next(last: SweepAction, result: SweepResult) -> SweepAction {
    match last {
        SweepAction::ProbeFirst => if result == SweepResult::Alive {
            SweepAction::Interrupt
        } else {
            SweepAction::RemoveFile
        },
        SweepAction::Interrupt => if result == SweepResult::Sent {
            SweepAction::ReadClock
        } else {
            SweepAction::RemoveFile
        },
        SweepAction::ReadClock => match result {
            SweepResult::Elapsed { ms } => if ms < OLD_PROCESS_SHUTDOWN_GRACE_PERIOD_MS {
                SweepAction::ProbeAgain
            } else {
                SweepAction::Kill
            },
            _ => SweepAction::Kill,
        },
        SweepAction::ProbeAgain => if result == SweepResult::Alive {
            SweepAction::Sleep { ms: OLD_PROCESS_SHUTDOWN_POLL_INTERVAL_MS }
        } else {
            SweepAction::RemoveFile
        },
        SweepAction::Sleep { .. } => SweepAction::ReadClock,
        SweepAction::Kill => SweepAction::RemoveFile,
        SweepAction::RemoveFile => SweepAction::RemoveFile,
    }
}

/// The first step in dealing with an entry of the PID directory. An entry
/// that is no PID file is left alone. A PID file that names a PID has its
/// process looked at first. Every other PID file names no process that could
/// be signalled, and is removed at once.
pub open spec fn sweep_first(file: PidFile) -> Option<SweepAction> {
    match file {
        PidFile::NotPidFile => None,
        PidFile::Stale { .. } => Some(SweepAction::ProbeFirst),
        PidFile::InvalidPid { .. } => Some(SweepAction::RemoveFile),
        PidFile::NotNumeric => Some(SweepAction::RemoveFile),
    }
}

/// Every PID file is dealt with, whatever stands before `.pid`, and only a
/// file that names a PID leads to a signal: for the others the first step is
/// the removal of the file, which is also the last.
pub proof fn lemma_every_pid_file_is_swept(filename: Seq<char>)
    requires
        has_suffix(filename, PID_SUFFIX@),
    ensures
        sweep_first(pid_file_kind(filename)) is Some,
        !(pid_file_kind(filename) is Stale) ==> sweep_first(pid_file_kind(filename)) == Some(
            SweepAction::RemoveFile,
        ),
{
}

/// The first step in dealing with an entry of the PID directory, if anything
/// is to be done about it.
pub fn sweep_start(file: PidFile) -> (r: Option<SweepAction>)
    ensures
        r == sweep_first(file),
{
    match file {
        PidFile::NotPidFile => None,
        PidFile::Stale { .. } => Some(SweepAction::ProbeFirst),
        PidFile::InvalidPid { .. } => Some(SweepAction::RemoveFile),
        PidFile::NotNumeric => Some(SweepAction::RemoveFile),
    }
}

/// The step that follows a step and what it showed.
pub fn sweep_step(last: SweepAction, result: SweepResult) -> (r: SweepAction)
    ensures
        r == sweep_next(last, result),
{
    match last {
        SweepAction::ProbeFirst => match result {
            SweepResult::Alive => SweepAction::Interrupt,
            _ => SweepAction::RemoveFile,
        },
        SweepAction::Interrupt => match result {
            SweepResult::Sent => SweepAction::ReadClock,
            _ => SweepAction::RemoveFile,
        },
        SweepAction::ReadClock => match result {
            SweepResult::Elapsed { ms } => if ms < OLD_PROCESS_SHUTDOWN_GRACE_PERIOD_MS {
                SweepAction::ProbeAgain
            } else {
                SweepAction::Kill
            },
            _ => SweepAction::Kill,
        },
        SweepAction::ProbeAgain => match result {
            SweepResult::Alive => SweepAction::Sleep {
                ms: OLD_PROCESS_SHUTDOWN_POLL_INTERVAL_MS,
            },
            _ => SweepAction::RemoveFile,
        },
        SweepAction::Sleep { .. } => SweepAction::ReadClock,
        SweepAction::Kill => SweepAction::RemoveFile,
        SweepAction::RemoveFile => SweepAction::RemoveFile,
    }
}

/// Where the supervisor of a helper stands.
#[derive(Debug, PartialEq, Eq, Copy, Clone, Structural)]
pub enum SupervisorState {
    /// The helper runs; its PID file is there.
    Running,
    /// The helper is being killed on request.
    Killing,
    /// The helper was killed and is waited for.
    Reaping,
    /// The helper is gone and its PID file is being removed.
    Removing,
    /// The PID file was dealt with; shutdown need not wait for this helper.
    Finished,
}

/// What the supervisor of a helper is told.
#[derive(Debug, PartialEq, Eq, Copy, Clone, Structural)]
pub enum SupervisorEvent {
    /// A script asked for the helper to be killed.
    KillRequested,
    /// The helper ended and was reaped.
    Exited,
    /// The helper was sent the signal that kills it.
    KillSent,
    /// The signal could not be sent: the helper does not run.
    KillFailed,
    /// The PID file was removed, or could not be.
    FileRemoved,
}

/// What the supervisor of a helper does next.
#[derive(Debug, PartialEq, Eq, Copy, Clone, Structural)]
pub enum SupervisorAction {
    /// Send the helper the signal that kills it.
    KillChild,
    /// Wait for the helper to end.
    AwaitExit,
    /// Remove the helper's PID file.
    RemovePidFile,
    /// Let go of the token that shutdown waits for.
    ReleaseShutdownToken,
    /// Nothing.
    Nothing,
}

/// The state of a supervisor after an event, and what it does next. A helper
/// that ends by itself has its PID file removed. A helper that is to be
/// killed is sent the signal and waited for, and then its PID file is
/// removed; it is removed at once where the signal cannot be sent. Once the
/// PID file is dealt with, the token that shutdown waits for is let go. An
/// event that does not fit the state changes nothing.
pub open spec fn supervisor_next(state: SupervisorState, event: SupervisorEvent) -> (
    SupervisorState,
    SupervisorAction,
) {
    match (state, event) {
        (SupervisorState::Running, SupervisorEvent::KillRequested) => (
            SupervisorState::Killing,
            SupervisorAction::KillChild,
        ),
        (SupervisorState::Running, SupervisorEvent::Exited) => (
            SupervisorState::Removing,
            SupervisorAction::RemovePidFile,
        ),
        (SupervisorState::Killing, SupervisorEvent::KillSent) => (
            SupervisorState::Reaping,
            SupervisorAction::AwaitExit,
        ),
        (SupervisorState::Killing, SupervisorEvent::KillFailed) => (
            SupervisorState::Removing,
            SupervisorAction::RemovePidFile,
        ),
        (SupervisorState::Reaping, SupervisorEvent::Exited) => (
            SupervisorState::Removing,
            SupervisorAction::RemovePidFile,
        ),
        (SupervisorState::Removing, SupervisorEvent::FileRemoved) => (
            SupervisorState::Finished,
            SupervisorAction::ReleaseShutdownToken,
        ),
        _ => (state, SupervisorAction::Nothing),
    }
}

/// Decides what the supervisor of a helper does after an event.
pub fn supervise(state: SupervisorState, event: SupervisorEvent) -> (r: (
    SupervisorState,
    SupervisorAction,
))
    ensures
        r == supervisor_next(state, event),
{
    match (state, event) {
        (SupervisorState::Running, SupervisorEvent::KillRequested) => (
            SupervisorState::Killing,
            SupervisorAction::KillChild,
        ),
        (SupervisorState::Running, SupervisorEvent::Exited) => (
            SupervisorState::Removing,
            SupervisorAction::RemovePidFile,
        ),
        (SupervisorState::Killing, SupervisorEvent::KillSent) => (
            SupervisorState::Reaping,
            SupervisorAction::AwaitExit,
        ),
        (SupervisorState::Killing, SupervisorEvent::KillFailed) => (
            SupervisorState::Removing,
            SupervisorAction::RemovePidFile,
        ),
        (SupervisorState::Reaping, SupervisorEvent::Exited) => (
            SupervisorState::Removing,
            SupervisorAction::RemovePidFile,
        ),
        (SupervisorState::Removing, SupervisorEvent::FileRemoved) => (
            SupervisorState::Finished,
            SupervisorAction::ReleaseShutdownToken,
        ),
        _ => (state, SupervisorAction::Nothing),
    }
}

/// Once a running helper is asked to be killed, the supervisor asks for its
/// PID file to be removed as soon as the helper is gone: after the wait for
/// it where the signal was sent, and at once where it could not be.
pub proof fn lemma_kill_leads_to_removal(sent: bool)
    ensures
        ({
            let asked = supervisor_next(SupervisorState::Running, SupervisorEvent::KillRequested);
            let signalled = supervisor_next(
                asked.0,
                if sent {
                    SupervisorEvent::KillSent
                } else {
                    SupervisorEvent::KillFailed
                },
            );
            &&& asked.1 == SupervisorAction::KillChild
            &&& sent ==> signalled.1 == SupervisorAction::AwaitExit && supervisor_next(
                signalled.0,
                SupervisorEvent::Exited,
            ).1 == SupervisorAction::RemovePidFile
            &&& !sent ==> signalled.1 == SupervisorAction::RemovePidFile
        }),
{
}

/// The name of the PID file of a process names that process: read back, it
/// stands for the PID it was written for.
pub proof fn lemma_pid_file_names_its_pid(pid: u32)
    requires
        0 < pid <= 0x7fff_ffff,
    ensures
        pid_file_kind(pid_file_text(pid)) == (PidFile::Stale { pid: pid as i32 }),
{
    reveal_strlit(".pid");
    let digits = decimal_text(pid as nat);
    let name = pid_file_text(pid);
    crate::text::lemma_decimal_text_value(pid as nat);
    assert(name.subrange(name.len() - 4, name.len() as int) =~= PID_SUFFIX@);
    assert(has_suffix(name, PID_SUFFIX@));
    assert(name.take(name.len() - 4) =~= digits);
    assert(is_digit(digits[digits.len() - 1]));
    assert(!has_suffix(digits, PID_SUFFIX@)) by {
        if has_suffix(digits, PID_SUFFIX@) {
            assert(digits.subrange(digits.len() - 4, digits.len() as int)[3] == 'd');
        }
    }
    assert(without_pid_suffix(digits) == digits);
    assert(without_pid_suffix(name) == digits);
    assert(is_digit(digits[0]));
}

/// What a request to kill a helper leads to.
#[derive(Debug, PartialEq, Eq, Copy, Clone, Structural)]
pub enum KillRequest {
    /// The helper's supervisor is told to kill it.
    Send,
    /// The helper was killed on request before: nothing is done.
    AlreadyKilled,
}

/// The handle through which scripts reach a helper process.
#[derive(Debug, Clone, PartialEq, Eq)]
pub struct ProcessHandle {
    cmd: String,
    pid: u32,
    plugin_instance: String,
    on_output: Option<CallbackId>,
    kill_requested: bool,
}

/// What a [`ProcessHandle`] holds.
pub ghost struct ProcessHandleView {
    pub cmd: Seq<char>,
    pub pid: u32,
    pub plugin_instance: Seq<char>,
    pub on_output: Option<CallbackId>,
    pub kill_requested: bool,
}

impl View for ProcessHandle {
    type V = ProcessHandleView;

    closed spec fn view(&self) -> ProcessHandleView {
        ProcessHandleView {
            cmd: self.cmd@,
            pid: self.pid,
            plugin_instance: self.plugin_instance@,
            on_output: self.on_output,
            kill_requested: self.kill_requested,
        }
    }
}

/// The event that hands a line of a helper's output to the callback that
/// waits for it.
pub open spec fn output_event_view(h: ProcessHandleView, line: Seq<char>) -> Option<
    (Seq<char>, Seq<char>, Seq<char>, CallbackId),
> {
    match h.on_output {
        Some(key) => Some((line, h.cmd, h.plugin_instance, key)),
        None => None,
    }
}

impl ProcessHandle {
    /// The handle of a helper that was just started.
    pub fn new(cmd: String, pid: u32, plugin_instance: String, on_output: Option<CallbackId>) -> (r:
        ProcessHandle)
        ensures
            r@ == (ProcessHandleView {
                cmd: cmd@,
                pid,
                plugin_instance: plugin_instance@,
                on_output,
                kill_requested: false,
            }),
    {
        ProcessHandle { cmd, pid, plugin_instance, on_output, kill_requested: false }
    }

    /// The PID of the helper.
    pub fn pid(&self) -> (r: u32)
        ensures
            r == self@.pid,
    {
        self.pid
    }

    /// The command that the helper was started with.
    pub fn cmd(&self) -> (r: &String)
        ensures
            r@ == self@.cmd,
    {
        &self.cmd
    }

    /// The name of the helper's PID file.
    pub fn pid_file_name(&self) -> (r: String)
        ensures
            r@ == pid_file_text(self@.pid),
    {
        pid_file_name(self.pid)
    }

    /// The event to queue for a line that the helper wrote, where a callback
    /// waits for its output.
    pub fn output_event(&self, line: String) -> (r: Option<Event>)
        ensures
            match r {
                Some(Event::ProcessOutput { line: l, process_name, plugin_instance, callback_key }) => {
                    output_event_view(self@, line@) == Some(
                        (l@, process_name@, plugin_instance@, callback_key),
                    )
                },
                Some(_) => false,
                None => output_event_view(self@, line@) is None,
            },
    {
        match self.on_output {
            Some(callback_key) => Some(
                Event::ProcessOutput {
                    line,
                    process_name: self.cmd.clone(),
                    plugin_instance: self.plugin_instance.clone(),
                    callback_key,
                },
            ),
            None => None,
        }
    }

    /// What is written to the helper for a line: the line and a line feed.
    pub fn writeln(&self, line: String) -> (r: String)
        ensures
            r@ == line@ + "\n"@,
    {
        let mut r = line;
        r.append("\n");
        r
    }

    /// Notes a request to kill the helper. The first request has the
    /// supervisor told; every later one does nothing.
    pub fn kill(&mut self) -> (r: KillRequest)
        ensures
            r == if old(self)@.kill_requested {
                KillRequest::AlreadyKilled
            } else {
                KillRequest::Send
            },
            final(self)@ == (ProcessHandleView { kill_requested: true, ..old(self)@ }),
    {
        if self.kill_requested {
            KillRequest::AlreadyKilled
        } else {
            self.kill_requested = true;
            KillRequest::Send
        }
    }
}

} // verus!
