//! What the single dispatcher decides for each event it is handed, the
//! console's commands among them, and the bookkeeping between two events:
//! the queue of deferred tasks and the count of turns.

use std::collections::VecDeque;
use vstd::prelude::*;
use vstd::string::*;
use crate::config::{
    configured_password, get_config, pid_dir_path, pid_dir_text, Config, ConfigEntry, EnvConfig,
};
use crate::geometry::CallbackId;
use crate::plugin_system::{
    action_lines, call_action, call_action_string, list_actions, list_statuses, lookup_action,
    action_lookup_error, prefixed_text, resolve_action_text, snapshot, status_lines, system_info,
    ActionIdentifier, PluginInstanceInfoView, PluginInstanceView, Registry, RegistryError,
    RegistryErrorView, SystemInfo,
};
use crate::text::{has_prefix, join, join_text, str_equals, strip_prefix};
use crate::window_manager::WindowManager;

verus! {

/// What a client asks of the plugin system.
#[derive(Debug, Clone, PartialEq, Eq)]
pub enum ClientCommand {
    /// Call an action.
    CallAction { identifier: ActionIdentifier },
}

/// What the dispatcher is handed.
#[derive(Debug, Clone, PartialEq, Eq)]
pub enum Event {
    /// A helper process wrote a line, and a callback waits for its output.
    ProcessOutput {
        line: String,
        process_name: String,
        plugin_instance: String,
        callback_key: CallbackId,
    },
    /// The console sent a command.
    CliCommand { command: String },
    /// A client session asks for the state of the system.
    FetchSystemInfo,
    /// A client sent a command.
    ClientCommand(ClientCommand),
}

/// What the host does for an event.
#[derive(Debug, Clone, PartialEq, Eq)]
pub enum EventOutcome {
    /// Answer the console with the text.
    CliReply(String),
    /// Invoke the callback without arguments, then answer the console with
    /// the reply for how the call ended.
    CliCall { callback: CallbackId },
    /// Invoke the callback with the line; a failure is logged on behalf of
    /// the plugin instance.
    DeliverOutput {
        callback: CallbackId,
        line: String,
        plugin_instance: String,
        process_name: String,
    },
    /// Hand the state of the system to the session that asked.
    SystemInfo(SystemInfo),
    /// Invoke the callback without arguments, then tell the client how the
    /// call ended.
    ClientCall { callback: CallbackId },
    /// Tell the client that the call failed with the error.
    ClientCallFailed(RegistryError),
}

/// What an [`EventOutcome`] holds.
pub ghost enum EventOutcomeView {
    CliReply(Seq<char>),
    CliCall { callback: CallbackId },
    DeliverOutput {
        callback: CallbackId,
        line: Seq<char>,
        plugin_instance: Seq<char>,
        process_name: Seq<char>,
    },
    SystemInfo(Seq<PluginInstanceInfoView>),
    ClientCall { callback: CallbackId },
    ClientCallFailed(RegistryErrorView),
}

impl View for EventOutcome {
    type V = EventOutcomeView;

    open spec fn view(&self) -> EventOutcomeView {
        match *self {
            EventOutcome::CliReply(s) => EventOutcomeView::CliReply(s@),
            EventOutcome::CliCall { callback } => EventOutcomeView::CliCall { callback },
            EventOutcome::DeliverOutput { callback, line, plugin_instance, process_name } => {
                EventOutcomeView::DeliverOutput {
                    callback,
                    line: line@,
                    plugin_instance: plugin_instance@,
                    process_name: process_name@,
                }
            },
            EventOutcome::SystemInfo(info) => EventOutcomeView::SystemInfo(info@),
            EventOutcome::ClientCall { callback } => EventOutcomeView::ClientCall { callback },
            EventOutcome::ClientCallFailed(e) => EventOutcomeView::ClientCallFailed(e@),
        }
    }
}

/// The console's reply after a call that failed with the given wording.
pub open spec fn call_failed_text(error: Seq<char>) -> Seq<char> {
    "error when calling action: "@ + error
}

/// What a command of the console leads to. `actions` lists the identifiers of
/// all actions, one a line; `statuses` lists the status of every module, one
/// a line; `call` and an identifier has the action called, or tells why it
/// cannot be; anything else is an unknown command.
pub open spec fn cli_outcome(r: Seq<PluginInstanceView>, command: Seq<char>) -> EventOutcomeView {
    if command == "actions"@ {
        EventOutcomeView::CliReply(join_text(action_lines(r), "\n"@))
    } else if command == "statuses"@ {
        EventOutcomeView::CliReply(join_text(status_lines(r), "\n"@))
    } else if has_prefix(command, "call "@) {
        match resolve_action_text(r, command.skip("call "@.len() as int)) {
            Ok(callback) => EventOutcomeView::CliCall { callback },
            Err(e) => EventOutcomeView::CliReply(call_failed_text(e.text())),
        }
    } else {
        EventOutcomeView::CliReply("unknown command: "@ + command)
    }
}

/// What an event leads to.
pub open spec fn event_outcome(r: Seq<PluginInstanceView>, event: Event) -> EventOutcomeView {
    match event {
        Event::CliCommand { command } => cli_outcome(r, command@),
        Event::ProcessOutput { line, process_name, plugin_instance, callback_key } => {
            EventOutcomeView::DeliverOutput {
                callback: callback_key,
                line: line@,
                plugin_instance: plugin_instance@,
                process_name: process_name@,
            }
        },
        Event::FetchSystemInfo => EventOutcomeView::SystemInfo(snapshot(r)),
        Event::ClientCommand(ClientCommand::CallAction { identifier }) => match lookup_action(
            r,
            identifier.plugin_instance@,
            identifier.module@,
            identifier.action@,
        ) {
            Some(a) => EventOutcomeView::ClientCall { callback: a.key },
            None => EventOutcomeView::ClientCallFailed(
                action_lookup_error(
                    r,
                    identifier.plugin_instance@,
                    identifier.module@,
                    identifier.action@,
                ),
            ),
        },
    }
}

/// Decides what a command of the console leads to.
pub fn handle_cli_command(registry: &Registry, command: &str) -> (r: EventOutcome)
    ensures
        r@ == cli_outcome(registry@, command@),
{
    if str_equals(command, "actions") {
        let actions = list_actions(registry);
        EventOutcome::CliReply(join(&actions, "\n"))
    } else if str_equals(command, "statuses") {
        let statuses = list_statuses(registry);
        EventOutcome::CliReply(join(&statuses, "\n"))
    } else {
        match strip_prefix(command, "call ") {
            Some(identifier) => match call_action_string(registry, identifier.as_str()) {
                Ok(callback) => EventOutcome::CliCall { callback },
                Err(e) => {
                    let mut reply = String::from_str("error when calling action: ");
                    let wording = e.message();
                    reply.append(wording.as_str());
                    EventOutcome::CliReply(reply)
                },
            },
            None => {
                let mut reply = String::from_str("unknown command: ");
                reply.append(command);
                EventOutcome::CliReply(reply)
            },
        }
    }
}

/// Decides what an event leads to.
pub fn handle_event(registry: &Registry, event: Event) -> (r: EventOutcome)
    ensures
        r@ == event_outcome(registry@, event),
{
    match event {
        Event::CliCommand { command } => handle_cli_command(registry, command.as_str()),
        Event::ProcessOutput { line, process_name, plugin_instance, callback_key } => {
            EventOutcome::DeliverOutput {
                callback: callback_key,
                line,
                plugin_instance,
                process_name,
            }
        },
        Event::FetchSystemInfo => EventOutcome::SystemInfo(system_info(registry)),
        Event::ClientCommand(ClientCommand::CallAction { identifier }) => {
            match call_action(registry, &identifier) {
                Ok(callback) => EventOutcome::ClientCall { callback },
                Err(e) => EventOutcome::ClientCallFailed(e),
            }
        },
    }
}

/// The console's reply after an action was called: that it was called, or
/// the wording of the error it failed with.
pub fn cli_call_reply(failure: &Option<String>) -> (r: String)
    ensures
        r@ == match *failure {
            None => "action called successfully"@,
            Some(error) => call_failed_text(error@),
        },
{
    match failure {
        None => String::from_str("action called successfully"),
        Some(error) => {
            let mut reply = String::from_str("error when calling action: ");
            reply.append(error.as_str());
            reply
        },
    }
}

/// The log line for a callback that failed on a line of a helper's output.
pub open spec fn output_failure_text(
    plugin_instance: Seq<char>,
    process_name: Seq<char>,
    error: Seq<char>,
) -> Seq<char> {
    prefixed_text(
        plugin_instance,
        "error when handling callback for process "@ + process_name + ": "@ + error,
    )
}

/// The log line for a callback that failed on a line of a helper's output.
pub fn output_failure_message(plugin_instance: &str, process_name: &str, error: &str) -> (r: String)
    ensures
        r@ == output_failure_text(plugin_instance@, process_name@, error@),
{
    let mut r = String::from_str("[");
    r.append(plugin_instance);
    r.append("] ");
    r.append("error when handling callback for process ");
    r.append(process_name);
    r.append(": ");
    r.append(error);
    assert(r@ =~= output_failure_text(plugin_instance@, process_name@, error@));
    r
}

/// The callbacks that scripts asked to have run between two events, oldest
/// first.
#[derive(Debug)]
pub struct DeferredTasks {
    tasks: VecDeque<CallbackId>,
}

impl View for DeferredTasks {
    type V = Seq<CallbackId>;

    closed spec fn view(&self) -> Seq<CallbackId> {
        self.tasks@
    }
}

impl DeferredTasks {
    /// An empty queue.
    pub fn new() -> (r: DeferredTasks)
        ensures
            r@ == Seq::<CallbackId>::empty(),
    {
        DeferredTasks { tasks: VecDeque::new() }
    }

    /// Puts a task behind those that wait.
    pub fn run_later(&mut self, func_key: CallbackId)
        ensures
            final(self)@ == old(self)@.push(func_key),
    {
        self.tasks.push_back(func_key);
    }

    /// Takes the task that has waited longest, if any waits.
    pub fn next_task(&mut self) -> (r: Option<CallbackId>)
        ensures
            match r {
                Some(key) => old(self)@.len() > 0 && key == old(self)@[0] && final(self)@ == old(
                    self,
                )@.drop_first(),
                None => old(self)@.len() == 0 && final(self)@ == old(self)@,
            },
    {
        let r = self.tasks.pop_front();
        assert(r is Some ==> self@ =~= old(self)@.drop_first());
        r
    }

    /// How many tasks wait.
    pub fn len(&self) -> (r: usize)
        ensures
            r == self@.len(),
    {
        self.tasks.len()
    }
}

/// Number of events after which the handles that nothing refers to any more
/// are swept from the scripting engine's registry.
pub const SWEEP_AFTER_TURNS: u8 = 10;

/// Counts the turns of the event loop.
#[derive(Debug, PartialEq, Eq, Copy, Clone, Structural)]
pub struct TurnCounter {
    pub turns: u8,
}

impl TurnCounter {
    /// A counter that has seen no turn.
    pub fn new() -> (r: TurnCounter)
        ensures
            r.turns == 0,
    {
        TurnCounter { turns: 0 }
    }

    /// Counts one turn and says whether a sweep is due: it is once more than
    /// ten turns were counted since the last sweep, and the count then starts
    /// anew.
    pub fn turn(&mut self) -> (sweep: bool)
        ensures
            sweep == (old(self).turns >= SWEEP_AFTER_TURNS),
            final(self).turns == if old(self).turns >= SWEEP_AFTER_TURNS {
                0
            } else {
                old(self).turns + 1
            },
    {
        if self.turns >= SWEEP_AFTER_TURNS {
            self.turns = 0;
            true
        } else {
            self.turns = self.turns + 1;
            false
        }
    }
}

/// What the event loop does before it takes the next event.
#[derive(Debug, PartialEq, Eq, Copy, Clone, Structural)]
pub enum LoopStep {
    /// Run this deferred task, then ask again.
    RunTask { func_key: CallbackId },
    /// No task waits: wait for the next event.
    AwaitEvent,
}

/// A line that a helper wrote, queued for the callback `callback_key`, is
/// handed to that callback as it was written, whatever is registered.
pub proof fn lemma_output_line_reaches_callback(
    r: Seq<PluginInstanceView>,
    line: String,
    process_name: String,
    plugin_instance: String,
    callback_key: CallbackId,
)
    ensures
        event_outcome(r, Event::ProcessOutput { line, process_name, plugin_instance, callback_key })
            == (EventOutcomeView::DeliverOutput {
            callback: callback_key,
            line: line@,
            plugin_instance: plugin_instance@,
            process_name: process_name@,
        }),
{
}

/// What one turn of the event loop leads to.
#[derive(Debug, Clone, PartialEq, Eq)]
pub struct Turn {
    /// What the host does for the event.
    pub outcome: EventOutcome,
    /// Whether the handles that nothing refers to any more are to be swept
    /// after it.
    pub sweep: bool,
}

/// The state that the scripts and the event loop work on.
#[derive(Debug)]
pub struct PluginSystem {
    pub env_config: EnvConfig,
    pub registry: Registry,
    pub window_manager: WindowManager,
    pub run_later_tasks: DeferredTasks,
    pub turns: TurnCounter,
    pub pid_dir_path: String,
}

impl PluginSystem {
    /// Whether the registry and the window manager are well formed.
    pub open spec fn wf(&self) -> bool {
        self.registry.wf() && self.window_manager.wf()
    }

    /// The state before any script has run: nothing is registered, no task
    /// waits, no turn was counted.
    pub fn init(env_config: EnvConfig, window_manager: WindowManager) -> (r: PluginSystem)
        requires
            window_manager.wf(),
        ensures
            r.wf(),
            r.env_config == env_config,
            r.window_manager == window_manager,
            r.registry@ == Seq::<PluginInstanceView>::empty(),
            r.run_later_tasks@ == Seq::<CallbackId>::empty(),
            r.turns.turns == 0,
            r.pid_dir_path@ == pid_dir_text(env_config.channel),
    {
        let pid_dir_path = pid_dir_path(env_config.channel);
        PluginSystem {
            env_config,
            registry: Registry::new(),
            window_manager,
            run_later_tasks: DeferredTasks::new(),
            turns: TurnCounter::new(),
            pid_dir_path,
        }
    }

    /// The configuration in force: what the environment says, and the
    /// password that the scripts' configuration table gives.
    pub fn get_config(&self, entries: &Vec<ConfigEntry>) -> (r: Config)
        ensures
            r.channel == self.env_config.channel,
            r.neopult_home@ == self.env_config.neopult_home@,
            r.channel_home@ == self.env_config.channel_home@,
            r.websocket_password@ == configured_password(entries@),
    {
        Config::new(&self.env_config, get_config(entries))
    }

    /// What to do before the next event is taken: the deferred tasks are run
    /// first, oldest first, and an event is waited for only once none waits.
    /// A task that is handed out has left the queue; tasks that it queues
    /// wait behind those that wait already.
    pub fn next_step(&mut self) -> (r: LoopStep)
        ensures
            r == if old(self).run_later_tasks@.len() > 0 {
                LoopStep::RunTask { func_key: old(self).run_later_tasks@[0] }
            } else {
                LoopStep::AwaitEvent
            },
            final(self).run_later_tasks@ == if old(self).run_later_tasks@.len() > 0 {
                old(self).run_later_tasks@.drop_first()
            } else {
                old(self).run_later_tasks@
            },
            final(self).registry == old(self).registry,
            final(self).window_manager == old(self).window_manager,
            final(self).turns == old(self).turns,
            final(self).env_config == old(self).env_config,
            final(self).pid_dir_path == old(self).pid_dir_path,
    {
        match self.run_later_tasks.next_task() {
            Some(func_key) => LoopStep::RunTask { func_key },
            None => LoopStep::AwaitEvent,
        }
    }

    /// One turn of the event loop: decides what the event leads to and
    /// counts the turn.
    pub fn event_loop(&mut self, event: Event) -> (r: Turn)
        ensures
            r.outcome@ == event_outcome(old(self).registry@, event),
            r.sweep == (old(self).turns.turns >= SWEEP_AFTER_TURNS),
            final(self).turns.turns == if old(self).turns.turns >= SWEEP_AFTER_TURNS {
                0
            } else {
                old(self).turns.turns + 1
            },
            final(self).registry == old(self).registry,
            final(self).window_manager == old(self).window_manager,
            final(self).run_later_tasks == old(self).run_later_tasks,
            final(self).env_config == old(self).env_config,
            final(self).pid_dir_path == old(self).pid_dir_path,
    {
        let outcome = handle_event(&self.registry, event);
        let sweep = self.turns.turn();
        Turn { outcome, sweep }
    }
}

} // verus!
