use neopult::config::{ConfigEntry, ConfigValue, EnvConfig};
use neopult::event_loop::{
    cli_call_reply, handle_cli_command, handle_event, output_failure_message, ClientCommand,
    DeferredTasks, Event, EventOutcome, LoopStep, PluginSystem, TurnCounter, SWEEP_AFTER_TURNS,
};
use neopult::screen::ScreenSizeRange;
use neopult::window_manager::WindowManager;
use neopult::plugin_system::{
    system_info, ActionIdentifier, ModuleIdentifier, Registry, RegistryError,
};

fn s(text: &str) -> String {
    text.to_string()
}

fn sample() -> Registry {
    let mut r = Registry::new();
    r.register_plugin_instance(s("p"), None).unwrap();
    r.register_module(&s("p"), s("m"), None).unwrap();
    let m = ModuleIdentifier::new(s("p"), s("m"));
    r.register_action(&m, s("a1"), None, 11).unwrap();
    r.register_action(&m, s("a2"), None, 12).unwrap();
    r
}

#[test]
fn console_lists_actions() {
    let r = sample();
    assert_eq!(handle_cli_command(&r, "actions"), EventOutcome::CliReply(s("p::m::a1\np::m::a2")));
    assert_eq!(handle_cli_command(&Registry::new(), "actions"), EventOutcome::CliReply(s("")));
}

#[test]
fn console_lists_statuses() {
    let mut r = sample();
    r.register_module(&s("p"), s("n"), None).unwrap();
    r.set_status(&ModuleIdentifier::new(s("p"), s("n")), Some(s("idle"))).unwrap();
    assert_eq!(
        handle_cli_command(&r, "statuses"),
        EventOutcome::CliReply(s("p::m -- unknown\np::n -- idle"))
    );
}

#[test]
fn console_calls_actions() {
    let r = sample();
    assert_eq!(handle_cli_command(&r, "call p::m::a2"), EventOutcome::CliCall { callback: 12 });
    assert_eq!(
        handle_cli_command(&r, "call p::m::zz"),
        EventOutcome::CliReply(s("error when calling action: no action with name zz"))
    );
    assert_eq!(
        handle_cli_command(&r, "call p::m"),
        EventOutcome::CliReply(s(
            "error when calling action: malformed action identifier: \"p::m\""
        ))
    );
    assert_eq!(
        handle_cli_command(&r, "call "),
        EventOutcome::CliReply(s("error when calling action: malformed action identifier: \"\""))
    );
}

#[test]
fn console_rejects_unknown_commands() {
    let r = sample();
    assert_eq!(handle_cli_command(&r, "quit"), EventOutcome::CliReply(s("unknown command: quit")));
    assert_eq!(handle_cli_command(&r, "call"), EventOutcome::CliReply(s("unknown command: call")));
    assert_eq!(
        handle_cli_command(&r, "actions "),
        EventOutcome::CliReply(s("unknown command: actions "))
    );
    assert_eq!(handle_cli_command(&r, ""), EventOutcome::CliReply(s("unknown command: ")));
}

#[test]
fn replies_after_a_call() {
    assert_eq!(cli_call_reply(&None), "action called successfully");
    assert_eq!(
        cli_call_reply(&Some(s("action callback failed"))),
        "error when calling action: action callback failed"
    );
}

#[test]
fn events_are_dispatched() {
    let r = sample();
    assert_eq!(
        handle_event(&r, Event::CliCommand { command: s("actions") }),
        EventOutcome::CliReply(s("p::m::a1\np::m::a2"))
    );
    assert_eq!(
        handle_event(
            &r,
            Event::ProcessOutput {
                line: s("ready"),
                process_name: s("vncviewer"),
                plugin_instance: s("p"),
                callback_key: 5,
            }
        ),
        EventOutcome::DeliverOutput {
            callback: 5,
            line: s("ready"),
            plugin_instance: s("p"),
            process_name: s("vncviewer"),
        }
    );
    assert_eq!(handle_event(&r, Event::FetchSystemInfo), EventOutcome::SystemInfo(system_info(&r)));
    let known = ActionIdentifier { plugin_instance: s("p"), module: s("m"), action: s("a1") };
    assert_eq!(
        handle_event(&r, Event::ClientCommand(ClientCommand::CallAction { identifier: known })),
        EventOutcome::ClientCall { callback: 11 }
    );
    let unknown = ActionIdentifier { plugin_instance: s("p"), module: s("x"), action: s("a1") };
    assert_eq!(
        handle_event(&r, Event::ClientCommand(ClientCommand::CallAction { identifier: unknown })),
        EventOutcome::ClientCallFailed(RegistryError::NoModule(s("x")))
    );
}

#[test]
fn output_failures_are_logged_for_the_plugin_instance() {
    assert_eq!(
        output_failure_message("p", "vncviewer", "attempt to call a nil value"),
        "[p] error when handling callback for process vncviewer: attempt to call a nil value"
    );
}

#[test]
fn deferred_tasks_run_in_the_order_they_were_queued() {
    let mut tasks = DeferredTasks::new();
    assert_eq!(tasks.next_task(), None);
    tasks.run_later(3);
    tasks.run_later(1);
    tasks.run_later(2);
    assert_eq!(tasks.len(), 3);
    assert_eq!(tasks.next_task(), Some(3));
    tasks.run_later(9);
    assert_eq!(tasks.next_task(), Some(1));
    assert_eq!(tasks.next_task(), Some(2));
    assert_eq!(tasks.next_task(), Some(9));
    assert_eq!(tasks.next_task(), None);
    assert_eq!(tasks.len(), 0);
}

#[test]
fn a_sweep_is_due_on_every_eleventh_turn() {
    assert_eq!(SWEEP_AFTER_TURNS, 10);
    let mut counter = TurnCounter::new();
    let sweeps: Vec<bool> = (0..23).map(|_| counter.turn()).collect();
    let due: Vec<usize> = (0..23).filter(|i| sweeps[*i]).collect();
    assert_eq!(due, vec![10, 21]);
    assert_eq!(counter.turns, 1);
}

#[test]
fn the_plugin_system_starts_empty_and_counts_turns() {
    let range = ScreenSizeRange { min_width: 1, min_height: 1, max_width: 9000, max_height: 9000 };
    let wm = WindowManager::init(800, 600, range, "VNC-0").unwrap();
    let env = EnvConfig { channel: 4, neopult_home: s("/h"), channel_home: s("/h/channel-4") };
    let mut system = PluginSystem::init(env.clone(), wm);
    assert_eq!(system.env_config, env);
    assert_eq!(system.pid_dir_path, "/tmp/neopult-channel-4");
    assert_eq!(system.run_later_tasks.len(), 0);
    assert_eq!(system.window_manager.screen_size(), (800, 600));

    let entries = vec![ConfigEntry {
        key: Some(s("websocket_password")),
        value: ConfigValue::Text(s("pw")),
    }];
    let config = system.get_config(&entries);
    assert_eq!(config.channel, 4);
    assert_eq!(config.channel_home, "/h/channel-4");
    assert_eq!(config.websocket_password, "pw");

    system.registry.register_plugin_instance(s("p"), None).unwrap();
    for turn in 0..11 {
        let result = system.event_loop(Event::CliCommand { command: s("actions") });
        assert_eq!(result.outcome, EventOutcome::CliReply(s("")));
        assert_eq!(result.sweep, turn == 10);
    }
    assert_eq!(system.turns.turns, 0);
}

#[test]
fn deferred_tasks_are_run_before_the_next_event() {
    let range = ScreenSizeRange { min_width: 1, min_height: 1, max_width: 9000, max_height: 9000 };
    let wm = WindowManager::init(800, 600, range, "VNC-0").unwrap();
    let env = EnvConfig { channel: 0, neopult_home: s("/h"), channel_home: s("/h/channel-0") };
    let mut system = PluginSystem::init(env, wm);
    assert_eq!(system.next_step(), LoopStep::AwaitEvent);
    system.run_later_tasks.run_later(5);
    system.run_later_tasks.run_later(6);
    assert_eq!(system.next_step(), LoopStep::RunTask { func_key: 5 });
    system.run_later_tasks.run_later(7);
    assert_eq!(system.next_step(), LoopStep::RunTask { func_key: 6 });
    assert_eq!(system.next_step(), LoopStep::RunTask { func_key: 7 });
    assert_eq!(system.next_step(), LoopStep::AwaitEvent);
    assert_eq!(system.next_step(), LoopStep::AwaitEvent);
}
