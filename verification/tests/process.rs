use neopult::event_loop::Event;
use neopult::process::{
    classify_pid_file, pid_file_name, pid_file_path, supervise, sweep_start, sweep_step,
    KillRequest, PidFile, ProcessHandle, SupervisorAction, SupervisorEvent, SupervisorState,
    SweepAction, SweepResult, OLD_PROCESS_SHUTDOWN_GRACE_PERIOD_MS,
    OLD_PROCESS_SHUTDOWN_POLL_INTERVAL_MS, PID_SUFFIX,
};

fn s(text: &str) -> String {
    text.to_string()
}

#[test]
fn pid_file_names() {
    assert_eq!(PID_SUFFIX, ".pid");
    assert_eq!(pid_file_name(4711), "4711.pid");
    assert_eq!(pid_file_name(0), "0.pid");
    assert_eq!(pid_file_name(u32::MAX), "4294967295.pid");
    assert_eq!(pid_file_path("/tmp/neopult-channel-3", 12), "/tmp/neopult-channel-3/12.pid");
}

#[test]
fn pid_files_are_told_apart_by_name() {
    assert_eq!(classify_pid_file("99999999.pid"), PidFile::Stale { pid: 99999999 });
    assert_eq!(classify_pid_file("1.pid"), PidFile::Stale { pid: 1 });
    assert_eq!(classify_pid_file("+5.pid"), PidFile::Stale { pid: 5 });
    assert_eq!(classify_pid_file("007.pid"), PidFile::Stale { pid: 7 });
    assert_eq!(classify_pid_file("2147483647.pid"), PidFile::Stale { pid: i32::MAX });
    assert_eq!(classify_pid_file("12.pid.pid"), PidFile::Stale { pid: 12 });
    assert_eq!(classify_pid_file("notapid.pid"), PidFile::NotNumeric);
    assert_eq!(classify_pid_file(".pid"), PidFile::NotNumeric);
    assert_eq!(classify_pid_file("2147483648.pid"), PidFile::NotNumeric);
    assert_eq!(classify_pid_file("-2147483649.pid"), PidFile::NotNumeric);
    assert_eq!(classify_pid_file("12 .pid"), PidFile::NotNumeric);
    assert_eq!(classify_pid_file("-.pid"), PidFile::NotNumeric);
    assert_eq!(classify_pid_file("0.pid"), PidFile::InvalidPid { pid: 0 });
    assert_eq!(classify_pid_file("-5.pid"), PidFile::InvalidPid { pid: -5 });
    assert_eq!(classify_pid_file("-2147483648.pid"), PidFile::InvalidPid { pid: i32::MIN });
    assert_eq!(classify_pid_file("12.pid.bak"), PidFile::NotPidFile);
    assert_eq!(classify_pid_file("12"), PidFile::NotPidFile);
    assert_eq!(classify_pid_file(""), PidFile::NotPidFile);
    assert_eq!(classify_pid_file("pid"), PidFile::NotPidFile);
}

#[test]
fn the_name_of_a_pid_file_names_its_pid() {
    for pid in [1u32, 9, 10, 4711, 99999999, 2147483647] {
        assert_eq!(classify_pid_file(&pid_file_name(pid)), PidFile::Stale { pid: pid as i32 });
    }
}

#[test]
fn every_pid_file_is_dealt_with() {
    assert_eq!(sweep_start(PidFile::Stale { pid: 5 }), Some(SweepAction::ProbeFirst));
    assert_eq!(sweep_start(PidFile::NotNumeric), Some(SweepAction::RemoveFile));
    assert_eq!(sweep_start(PidFile::InvalidPid { pid: 0 }), Some(SweepAction::RemoveFile));
    assert_eq!(sweep_start(PidFile::InvalidPid { pid: -5 }), Some(SweepAction::RemoveFile));
    assert_eq!(sweep_start(PidFile::NotPidFile), None);
}

#[test]
fn stale_pid_sweep_removes_both_files() {
    let dead = sweep_start(classify_pid_file("99999999.pid"));
    assert_eq!(dead, Some(SweepAction::ProbeFirst));
    assert_eq!(sweep_step(SweepAction::ProbeFirst, SweepResult::Dead), SweepAction::RemoveFile);
    assert_eq!(classify_pid_file("notapid.pid"), PidFile::NotNumeric);
    assert_eq!(sweep_start(classify_pid_file("notapid.pid")), Some(SweepAction::RemoveFile));
    assert_eq!(sweep_start(classify_pid_file("readme.txt")), None);
}

#[test]
fn a_dead_process_has_its_pid_file_removed() {
    assert_eq!(sweep_step(SweepAction::ProbeFirst, SweepResult::Dead), SweepAction::RemoveFile);
}

#[test]
fn a_live_process_is_interrupted_and_watched() {
    assert_eq!(OLD_PROCESS_SHUTDOWN_GRACE_PERIOD_MS, 2500);
    assert_eq!(OLD_PROCESS_SHUTDOWN_POLL_INTERVAL_MS, 50);
    assert_eq!(sweep_step(SweepAction::ProbeFirst, SweepResult::Alive), SweepAction::Interrupt);
    assert_eq!(sweep_step(SweepAction::Interrupt, SweepResult::Sent), SweepAction::ReadClock);
    assert_eq!(sweep_step(SweepAction::Interrupt, SweepResult::NotSent), SweepAction::RemoveFile);
    assert_eq!(
        sweep_step(SweepAction::ReadClock, SweepResult::Elapsed { ms: 0 }),
        SweepAction::ProbeAgain
    );
    assert_eq!(
        sweep_step(SweepAction::ReadClock, SweepResult::Elapsed { ms: 2499 }),
        SweepAction::ProbeAgain
    );
    assert_eq!(
        sweep_step(SweepAction::ReadClock, SweepResult::Elapsed { ms: 2500 }),
        SweepAction::Kill
    );
    assert_eq!(
        sweep_step(SweepAction::ProbeAgain, SweepResult::Alive),
        SweepAction::Sleep { ms: 50 }
    );
    assert_eq!(sweep_step(SweepAction::ProbeAgain, SweepResult::Dead), SweepAction::RemoveFile);
    assert_eq!(sweep_step(SweepAction::Sleep { ms: 50 }, SweepResult::Slept), SweepAction::ReadClock);
    assert_eq!(sweep_step(SweepAction::Kill, SweepResult::Sent), SweepAction::RemoveFile);
    assert_eq!(sweep_step(SweepAction::Kill, SweepResult::NotSent), SweepAction::RemoveFile);
}

#[test]
fn a_stubborn_process_is_killed_after_the_grace_period() {
    let mut action = sweep_start(PidFile::Stale { pid: 42 }).unwrap();
    let mut clock: u64 = 0;
    let mut trace = vec![action];
    while action != SweepAction::RemoveFile {
        let result = match action {
            SweepAction::ProbeFirst | SweepAction::ProbeAgain => SweepResult::Alive,
            SweepAction::Interrupt | SweepAction::Kill => SweepResult::Sent,
            SweepAction::ReadClock => SweepResult::Elapsed { ms: clock },
            SweepAction::Sleep { ms } => {
                clock += ms;
                SweepResult::Slept
            }
            SweepAction::RemoveFile => unreachable!(),
        };
        action = sweep_step(action, result);
        trace.push(action);
    }
    assert_eq!(clock, 2500);
    assert_eq!(trace.iter().filter(|a| **a == SweepAction::ProbeAgain).count(), 50);
    assert_eq!(trace[trace.len() - 2], SweepAction::Kill);
    assert_eq!(trace[1], SweepAction::Interrupt);
}

#[test]
fn kill_is_single_shot() {
    let mut handle = ProcessHandle::new(s("xterm"), 77, s("p"), None);
    assert_eq!(handle.pid(), 77);
    assert_eq!(handle.cmd(), "xterm");
    assert_eq!(handle.pid_file_name(), "77.pid");
    assert_eq!(handle.kill(), KillRequest::Send);
    assert_eq!(handle.kill(), KillRequest::AlreadyKilled);
    assert_eq!(handle.kill(), KillRequest::AlreadyKilled);
}

#[test]
fn lines_are_written_with_a_line_feed() {
    let handle = ProcessHandle::new(s("cat"), 1, s("p"), None);
    assert_eq!(handle.writeln(s("hello")), "hello\n");
    assert_eq!(handle.writeln(s("")), "\n");
}

#[test]
fn output_lines_become_events_in_order() {
    let handle = ProcessHandle::new(s("vncviewer"), 1, s("p"), Some(8));
    let lines = ["L1", "L2", "L3"];
    let events: Vec<Event> =
        lines.iter().filter_map(|l| handle.output_event(l.to_string())).collect();
    let expected: Vec<Event> = lines
        .iter()
        .map(|l| Event::ProcessOutput {
            line: l.to_string(),
            process_name: s("vncviewer"),
            plugin_instance: s("p"),
            callback_key: 8,
        })
        .collect();
    assert_eq!(events, expected);
    let silent = ProcessHandle::new(s("vncviewer"), 1, s("p"), None);
    assert_eq!(silent.output_event(s("L1")), None);
}

#[test]
fn a_killed_helper_loses_its_pid_file() {
    let (state, action) = supervise(SupervisorState::Running, SupervisorEvent::KillRequested);
    assert_eq!((state, action), (SupervisorState::Killing, SupervisorAction::KillChild));
    let (state, action) = supervise(state, SupervisorEvent::KillSent);
    assert_eq!((state, action), (SupervisorState::Reaping, SupervisorAction::AwaitExit));
    let (state, action) = supervise(state, SupervisorEvent::Exited);
    assert_eq!((state, action), (SupervisorState::Removing, SupervisorAction::RemovePidFile));
    let (state, action) = supervise(state, SupervisorEvent::FileRemoved);
    assert_eq!((state, action), (SupervisorState::Finished, SupervisorAction::ReleaseShutdownToken));
    assert_eq!(
        supervise(state, SupervisorEvent::KillRequested),
        (SupervisorState::Finished, SupervisorAction::Nothing)
    );
}

#[test]
fn a_helper_that_ends_by_itself_loses_its_pid_file() {
    assert_eq!(
        supervise(SupervisorState::Running, SupervisorEvent::Exited),
        (SupervisorState::Removing, SupervisorAction::RemovePidFile)
    );
}

#[test]
fn a_kill_that_cannot_be_sent_still_removes_the_pid_file() {
    assert_eq!(
        supervise(SupervisorState::Killing, SupervisorEvent::KillFailed),
        (SupervisorState::Removing, SupervisorAction::RemovePidFile)
    );
}

#[test]
fn events_that_do_not_fit_change_nothing() {
    assert_eq!(
        supervise(SupervisorState::Running, SupervisorEvent::FileRemoved),
        (SupervisorState::Running, SupervisorAction::Nothing)
    );
    assert_eq!(
        supervise(SupervisorState::Reaping, SupervisorEvent::KillRequested),
        (SupervisorState::Reaping, SupervisorAction::Nothing)
    );
    assert_eq!(
        supervise(SupervisorState::Removing, SupervisorEvent::Exited),
        (SupervisorState::Removing, SupervisorAction::Nothing)
    );
}
