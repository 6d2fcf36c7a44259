//! The registry of plugin instances, their modules and the modules' actions,
//! with the state that clients observe and the notifications that each change
//! of it gives rise to.
//!
//! Script callbacks are kept as [`CallbackId`] handles: the registry decides
//! which callback is due, and the host that embeds the scripting engine makes
//! the call.

use vstd::prelude::*;
use vstd::string::*;
use crate::geometry::CallbackId;
use crate::search::{first_match, lemma_first_match_bounds, lemma_first_match_is};
use crate::text::{
    clone_text, clone_texts, concat_all, contains_text, lemma_concat_all_step,
    lemma_texts_of_push, split, split_text, text_of, texts_of,
};

verus! {

/// Separator between the parts of an identifier in its textual form.
pub const SEPARATOR: &'static str = "::";

pub type ModuleStatus = String;

pub type ModuleMessage = String;

/// Names a module: the plugin instance that owns it, and its own name.
#[derive(Debug, Clone, PartialEq, Eq)]
pub struct ModuleIdentifier {
    pub plugin_instance: String,
    pub module: String,
}

/// Names an action: the plugin instance, the module and the action.
#[derive(Debug, Clone, PartialEq, Eq)]
pub struct ActionIdentifier {
    pub plugin_instance: String,
    pub module: String,
    pub action: String,
}

impl ModuleIdentifier {
    /// The identifier of the module `module` of `plugin_instance`.
    pub fn new(plugin_instance: String, module: String) -> (r: ModuleIdentifier)
        ensures
            r.plugin_instance@ == plugin_instance@,
            r.module@ == module@,
    {
        ModuleIdentifier { plugin_instance, module }
    }
}

/// The textual form of a module identifier: `plugin_instance::module`.
pub open spec fn module_identifier_text(plugin_instance: Seq<char>, module: Seq<char>) -> Seq<
    char,
> {
    plugin_instance + SEPARATOR@ + module
}

/// The textual form of an action identifier: `plugin_instance::module::action`.
pub open spec fn action_identifier_text(
    plugin_instance: Seq<char>,
    module: Seq<char>,
    action: Seq<char>,
) -> Seq<char> {
    plugin_instance + SEPARATOR@ + module + SEPARATOR@ + action
}

/// Writes `plugin_instance::module`.
fn write_module_identifier(plugin_instance: &String, module: &String) -> (r: String)
    ensures
        r@ == module_identifier_text(plugin_instance@, module@),
{
    let mut r = plugin_instance.clone();
    r.append(SEPARATOR);
    r.append(module.as_str());
    r
}

/// Writes `plugin_instance::module::action`.
fn write_action_identifier(plugin_instance: &String, module: &String, action: &String) -> (r:
    String)
    ensures
        r@ == action_identifier_text(plugin_instance@, module@, action@),
{
    let mut r = write_module_identifier(plugin_instance, module);
    r.append(SEPARATOR);
    r.append(action.as_str());
    r
}

impl ModuleIdentifier {
    /// The canonical text of the identifier.
    pub fn to_string(&self) -> (r: String)
        ensures
            r@ == module_identifier_text(self.plugin_instance@, self.module@),
    {
        write_module_identifier(&self.plugin_instance, &self.module)
    }
}

/// What a text denotes as an action identifier: its three pieces, where
/// cutting it at each `::` gives exactly three.
pub open spec fn action_identifier_parts(s: Seq<char>) -> Option<
    (Seq<char>, Seq<char>, Seq<char>),
> {
    let tokens = split_text(s, SEPARATOR@);
    if tokens.len() == 3 {
        Some((tokens[0], tokens[1], tokens[2]))
    } else {
        None
    }
}

impl ActionIdentifier {
    /// The canonical text of the identifier.
    pub fn to_string(&self) -> (r: String)
        ensures
            r@ == action_identifier_text(self.plugin_instance@, self.module@, self.action@),
    {
        write_action_identifier(&self.plugin_instance, &self.module, &self.action)
    }

    /// Reads an identifier of the form `plugin_instance::module::action`.
    pub fn from_str(s: &str) -> (r: Option<ActionIdentifier>)
        ensures
            match r {
                Some(id) => action_identifier_parts(s@) == Some(
                    (id.plugin_instance@, id.module@, id.action@),
                ),
                None => action_identifier_parts(s@) is None,
            },
    {
        proof {
            reveal_strlit("::");
        }
        let mut tokens = split(s, SEPARATOR);
        if tokens.len() != 3 {
            return None;
        }
        let ghost parts = texts_of(tokens@);
        let action = tokens.pop().unwrap();
        let module = tokens.pop().unwrap();
        let plugin_instance = tokens.pop().unwrap();
        assert(parts[0] == plugin_instance@ && parts[1] == module@ && parts[2] == action@);
        Some(ActionIdentifier { plugin_instance, module, action })
    }
}

/// A change of a module's state, as it is broadcast to the clients.
#[derive(Debug, Clone, PartialEq, Eq)]
pub enum Notification {
    ModuleStatusUpdate { module_identifier: ModuleIdentifier, new_status: Option<ModuleStatus> },
    ModuleMessageUpdate { module_identifier: ModuleIdentifier, new_message: Option<ModuleMessage> },
    ModuleActiveActionsUpdate { module_identifier: ModuleIdentifier, new_active_actions: Vec<String> },
}

/// What a [`Notification`] holds.
pub ghost enum NotificationView {
    ModuleStatusUpdate { plugin_instance: Seq<char>, module: Seq<char>, new_status: Option<Seq<char>> },
    ModuleMessageUpdate {
        plugin_instance: Seq<char>,
        module: Seq<char>,
        new_message: Option<Seq<char>>,
    },
    ModuleActiveActionsUpdate {
        plugin_instance: Seq<char>,
        module: Seq<char>,
        new_active_actions: Seq<Seq<char>>,
    },
}

impl View for Notification {
    type V = NotificationView;

    open spec fn view(&self) -> NotificationView {
        match *self {
            Notification::ModuleStatusUpdate { module_identifier, new_status } => {
                NotificationView::ModuleStatusUpdate {
                    plugin_instance: module_identifier.plugin_instance@,
                    module: module_identifier.module@,
                    new_status: text_of(new_status),
                }
            },
            Notification::ModuleMessageUpdate { module_identifier, new_message } => {
                NotificationView::ModuleMessageUpdate {
                    plugin_instance: module_identifier.plugin_instance@,
                    module: module_identifier.module@,
                    new_message: text_of(new_message),
                }
            },
            Notification::ModuleActiveActionsUpdate { module_identifier, new_active_actions } => {
                NotificationView::ModuleActiveActionsUpdate {
                    plugin_instance: module_identifier.plugin_instance@,
                    module: module_identifier.module@,
                    new_active_actions: texts_of(new_active_actions@),
                }
            },
        }
    }
}

/// An invocable callback of a module.
#[derive(Debug)]
pub struct Action {
    name: String,
    display_name: Option<String>,
    key: CallbackId,
}

/// What an [`Action`] holds.
pub ghost struct ActionView {
    pub name: Seq<char>,
    pub display_name: Option<Seq<char>>,
    pub key: CallbackId,
}

impl View for Action {
    type V = ActionView;

    closed spec fn view(&self) -> ActionView {
        ActionView {
            name: self.name@,
            display_name: text_of(self.display_name),
            key: self.key,
        }
    }
}

/// A registration unit inside a plugin instance: actions, the names of those
/// that are active, a status and a message.
#[derive(Debug)]
pub struct Module {
    name: String,
    display_name: Option<String>,
    plugin_instance_name: String,
    actions: Vec<Action>,
    active_actions: Vec<String>,
    status: Option<ModuleStatus>,
    message: Option<ModuleMessage>,
}

/// What a [`Module`] holds.
pub ghost struct ModuleView {
    pub name: Seq<char>,
    pub display_name: Option<Seq<char>>,
    pub plugin_instance_name: Seq<char>,
    pub actions: Seq<ActionView>,
    pub active_actions: Seq<Seq<char>>,
    pub status: Option<Seq<char>>,
    pub message: Option<Seq<char>>,
}

impl View for Module {
    type V = ModuleView;

    closed spec fn view(&self) -> ModuleView {
        ModuleView {
            name: self.name@,
            display_name: text_of(self.display_name),
            plugin_instance_name: self.plugin_instance_name@,
            actions: self.actions@.map_values(|a: Action| a@),
            active_actions: texts_of(self.active_actions@),
            status: text_of(self.status),
            message: text_of(self.message),
        }
    }
}

/// A named registration unit that owns modules and may hold a callback to run
/// at shutdown.
#[derive(Debug)]
pub struct PluginInstance {
    name: String,
    modules: Vec<Module>,
    on_cleanup: Option<CallbackId>,
}

/// What a [`PluginInstance`] holds.
pub ghost struct PluginInstanceView {
    pub name: Seq<char>,
    pub modules: Seq<ModuleView>,
    pub on_cleanup: Option<CallbackId>,
}

impl View for PluginInstance {
    type V = PluginInstanceView;

    closed spec fn view(&self) -> PluginInstanceView {
        PluginInstanceView {
            name: self.name@,
            modules: self.modules@.map_values(|m: Module| m@),
            on_cleanup: self.on_cleanup,
        }
    }
}

/// The test "is named `name`" on plugin instances.
pub open spec fn instance_named(name: Seq<char>) -> spec_fn(PluginInstanceView) -> bool {
    |p: PluginInstanceView| p.name == name
}

/// The test "is named `name`" on modules.
pub open spec fn module_named(name: Seq<char>) -> spec_fn(ModuleView) -> bool {
    |m: ModuleView| m.name == name
}

/// The test "is named `name`" on actions.
pub open spec fn action_named(name: Seq<char>) -> spec_fn(ActionView) -> bool {
    |a: ActionView| a.name == name
}

/// The first plugin instance with the given name.
pub open spec fn lookup_instance(r: Seq<PluginInstanceView>, name: Seq<char>) -> Option<
    PluginInstanceView,
> {
    let i = first_match(r, instance_named(name));
    if i < r.len() {
        Some(r[i])
    } else {
        None
    }
}

/// The first module with the given name in the first plugin instance with the
/// given name.
pub open spec fn lookup_module(
    r: Seq<PluginInstanceView>,
    plugin_instance: Seq<char>,
    module: Seq<char>,
) -> Option<ModuleView> {
    match lookup_instance(r, plugin_instance) {
        Some(p) => {
            let j = first_match(p.modules, module_named(module));
            if j < p.modules.len() {
                Some(p.modules[j])
            } else {
                None
            }
        },
        None => None,
    }
}

/// The first action with the given name in the module that the other two
/// names lead to.
pub open spec fn lookup_action(
    r: Seq<PluginInstanceView>,
    plugin_instance: Seq<char>,
    module: Seq<char>,
    action: Seq<char>,
) -> Option<ActionView> {
    match lookup_module(r, plugin_instance, module) {
        Some(m) => {
            let k = first_match(m.actions, action_named(action));
            if k < m.actions.len() {
                Some(m.actions[k])
            } else {
                None
            }
        },
        None => None,
    }
}

/// Whether no two elements of `names` are equal.
pub open spec fn distinct(names: Seq<Seq<char>>) -> bool {
    forall|i: int, j: int| 0 <= i < j < names.len() ==> names[i] != names[j]
}

/// The names of a module's actions, in registration order.
pub open spec fn action_names(m: ModuleView) -> Seq<Seq<char>> {
    m.actions.map_values(|a: ActionView| a.name)
}

/// The names of a plugin instance's modules, in registration order.
pub open spec fn module_names(p: PluginInstanceView) -> Seq<Seq<char>> {
    p.modules.map_values(|m: ModuleView| m.name)
}

/// The names of the plugin instances, in registration order.
pub open spec fn instance_names(r: Seq<PluginInstanceView>) -> Seq<Seq<char>> {
    r.map_values(|p: PluginInstanceView| p.name)
}

/// A module is well formed when its actions have distinct names and its
/// active actions are distinct names of actions of its own.
pub open spec fn module_wf(m: ModuleView) -> bool {
    &&& distinct(action_names(m))
    &&& distinct(m.active_actions)
    &&& forall|i: int|
        0 <= i < m.active_actions.len() ==> action_names(m).contains(#[trigger] m.active_actions[i])
}

/// A plugin instance is well formed when its modules are, have distinct
/// names, and refer back to it by its name.
pub open spec fn instance_wf(p: PluginInstanceView) -> bool {
    &&& distinct(module_names(p))
    &&& forall|j: int|
        0 <= j < p.modules.len() ==> module_wf(#[trigger] p.modules[j])
            && p.modules[j].plugin_instance_name == p.name
}

/// A registry is well formed when its plugin instances are and have distinct
/// names.
pub open spec fn registry_wf(r: Seq<PluginInstanceView>) -> bool {
    &&& distinct(instance_names(r))
    &&& forall|i: int| 0 <= i < r.len() ==> instance_wf(#[trigger] r[i])
}

/// Why the registry turned a request down. Each variant holds the name that
/// the request failed on.
#[derive(Debug, Clone, PartialEq, Eq)]
pub enum RegistryError {
    /// The text is not of the form `plugin_instance::module::action`.
    MalformedActionIdentifier(String),
    /// No plugin instance has this name.
    NoPluginInstance(String),
    /// The plugin instance has no module of this name.
    NoModule(String),
    /// The module has no action of this name.
    NoAction(String),
    /// Another plugin instance has this name.
    DuplicatePluginInstance(String),
    /// Another module of the plugin instance has this name.
    DuplicateModule(String),
    /// Another action of the module has this name.
    DuplicateAction(String),
}

/// What a [`RegistryError`] holds.
pub ghost enum RegistryErrorView {
    MalformedActionIdentifier(Seq<char>),
    NoPluginInstance(Seq<char>),
    NoModule(Seq<char>),
    NoAction(Seq<char>),
    DuplicatePluginInstance(Seq<char>),
    DuplicateModule(Seq<char>),
    DuplicateAction(Seq<char>),
}

impl View for RegistryError {
    type V = RegistryErrorView;

    open spec fn view(&self) -> RegistryErrorView {
        match *self {
            RegistryError::MalformedActionIdentifier(s) => RegistryErrorView::MalformedActionIdentifier(s@),
            RegistryError::NoPluginInstance(s) => RegistryErrorView::NoPluginInstance(s@),
            RegistryError::NoModule(s) => RegistryErrorView::NoModule(s@),
            RegistryError::NoAction(s) => RegistryErrorView::NoAction(s@),
            RegistryError::DuplicatePluginInstance(s) => RegistryErrorView::DuplicatePluginInstance(s@),
            RegistryError::DuplicateModule(s) => RegistryErrorView::DuplicateModule(s@),
            RegistryError::DuplicateAction(s) => RegistryErrorView::DuplicateAction(s@),
        }
    }
}

/// A module as it is right after registration: no action, no active action,
/// no status and no message.
pub open spec fn fresh_module(
    plugin_instance: Seq<char>,
    name: Seq<char>,
    display_name: Option<Seq<char>>,
) -> ModuleView {
    ModuleView {
        name,
        display_name,
        plugin_instance_name: plugin_instance,
        actions: Seq::empty(),
        active_actions: Seq::empty(),
        status: None,
        message: None,
    }
}

/// The registry in which the first plugin instance named `plugin_instance`
/// has `m` put in the place of its first module named `module`.
pub open spec fn with_module(
    r: Seq<PluginInstanceView>,
    plugin_instance: Seq<char>,
    module: Seq<char>,
    m: ModuleView,
) -> Seq<PluginInstanceView> {
    let i = first_match(r, instance_named(plugin_instance));
    let j = first_match(r[i].modules, module_named(module));
    r.update(i, PluginInstanceView { modules: r[i].modules.update(j, m), ..r[i] })
}

impl Module {
    /// A module without actions, status or message.
    pub fn new(name: String, plugin_instance_name: String, display_name: Option<String>) -> (r:
        Module)
        ensures
            r@ == fresh_module(plugin_instance_name@, name@, text_of(display_name)),
    {
        let r = Module {
            name,
            display_name,
            plugin_instance_name,
            actions: Vec::new(),
            active_actions: Vec::new(),
            status: None,
            message: None,
        };
        assert(r@.actions =~= Seq::<ActionView>::empty());
        assert(r@.active_actions =~= Seq::<Seq<char>>::empty());
        r
    }

    /// The place of the first action named `name`.
    fn action_position(&self, name: &String) -> (r: Option<usize>)
        ensures
            match r {
                Some(k) => k == first_match(self@.actions, action_named(name@)) && k
                    < self.actions.len(),
                None => first_match(self@.actions, action_named(name@)) >= self@.actions.len(),
            },
            self@.actions.len() == self.actions.len(),
    {
        let mut k: usize = 0;
        while k < self.actions.len()
            invariant
                k <= self.actions.len(),
                self@.actions.len() == self.actions.len(),
                forall|n: int| 0 <= n < k ==> !action_named(name@)(#[trigger] self@.actions[n]),
            decreases self.actions.len() - k,
        {
            if self.actions[k].name == *name {
                proof {
                    assert(self@.actions[k as int] == self.actions@[k as int]@);
                    lemma_first_match_is(self@.actions, action_named(name@), k as int);
                }
                return Some(k);
            }
            assert(self@.actions[k as int] == self.actions@[k as int]@);
            k += 1;
        }
        proof {
            lemma_first_match_is(self@.actions, action_named(name@), k as int);
        }
        None
    }
}

impl PluginInstance {
    /// A plugin instance without modules.
    pub fn new(name: String, on_cleanup: Option<CallbackId>) -> (r: PluginInstance)
        ensures
            r@ == (PluginInstanceView { name: name@, modules: Seq::empty(), on_cleanup }),
    {
        let r = PluginInstance { name, modules: Vec::new(), on_cleanup };
        assert(r@.modules =~= Seq::<ModuleView>::empty());
        r
    }

    /// The place of the first module named `name`.
    fn module_position(&self, name: &String) -> (r: Option<usize>)
        ensures
            match r {
                Some(j) => j == first_match(self@.modules, module_named(name@)) && j
                    < self.modules.len(),
                None => first_match(self@.modules, module_named(name@)) >= self@.modules.len(),
            },
            self@.modules.len() == self.modules.len(),
    {
        let mut j: usize = 0;
        while j < self.modules.len()
            invariant
                j <= self.modules.len(),
                self@.modules.len() == self.modules.len(),
                forall|n: int| 0 <= n < j ==> !module_named(name@)(#[trigger] self@.modules[n]),
            decreases self.modules.len() - j,
        {
            if self.modules[j].name == *name {
                proof {
                    assert(self@.modules[j as int] == self.modules@[j as int]@);
                    lemma_first_match_is(self@.modules, module_named(name@), j as int);
                }
                return Some(j);
            }
            assert(self@.modules[j as int] == self.modules@[j as int]@);
            j += 1;
        }
        proof {
            lemma_first_match_is(self@.modules, module_named(name@), j as int);
        }
        None
    }
}

impl RegistryErrorView {
    /// The wording of the error.
    pub open spec fn text(self) -> Seq<char> {
        match self {
            RegistryErrorView::MalformedActionIdentifier(s) => "malformed action identifier: \""@
                + s + "\""@,
            RegistryErrorView::NoPluginInstance(s) => "no plugin instance with name "@ + s,
            RegistryErrorView::NoModule(s) => "no module with name "@ + s,
            RegistryErrorView::NoAction(s) => "no action with name "@ + s,
            RegistryErrorView::DuplicatePluginInstance(s) => "tried registering plugin instance with duplicate name "@
                + s,
            RegistryErrorView::DuplicateModule(s) => "tried registering module with duplicate name "@
                + s,
            RegistryErrorView::DuplicateAction(s) => "tried registering action with duplicate name "@
                + s,
        }
    }
}

impl RegistryError {
    /// The wording of the error, for a log line or a reply.
    pub fn message(&self) -> (r: String)
        ensures
            r@ == self@.text(),
    {
        match self {
            RegistryError::MalformedActionIdentifier(s) => {
                let mut r = String::from_str("malformed action identifier: \"");
                r.append(s.as_str());
                r.append("\"");
                r
            },
            RegistryError::NoPluginInstance(s) => {
                let mut r = String::from_str("no plugin instance with name ");
                r.append(s.as_str());
                r
            },
            RegistryError::NoModule(s) => {
                let mut r = String::from_str("no module with name ");
                r.append(s.as_str());
                r
            },
            RegistryError::NoAction(s) => {
                let mut r = String::from_str("no action with name ");
                r.append(s.as_str());
                r
            },
            RegistryError::DuplicatePluginInstance(s) => {
                let mut r = String::from_str(
                    "tried registering plugin instance with duplicate name ",
                );
                r.append(s.as_str());
                r
            },
            RegistryError::DuplicateModule(s) => {
                let mut r = String::from_str("tried registering module with duplicate name ");
                r.append(s.as_str());
                r
            },
            RegistryError::DuplicateAction(s) => {
                let mut r = String::from_str("tried registering action with duplicate name ");
                r.append(s.as_str());
                r
            },
        }
    }
}

/// The text `[prefix] msg` of a log line written on behalf of `prefix`.
pub open spec fn prefixed_text(prefix: Seq<char>, msg: Seq<char>) -> Seq<char> {
    "["@ + prefix + "] "@ + msg
}

/// A log line written on behalf of `prefix`: `[prefix] msg`.
pub fn prefix_msg(prefix: &str, msg: &str) -> (r: String)
    ensures
        r@ == prefixed_text(prefix@, msg@),
{
    let mut r = String::from_str("[");
    r.append(prefix);
    r.append("] ");
    r.append(msg);
    r
}

impl PluginInstance {
    /// The name of the plugin instance.
    pub fn name(&self) -> (r: &String)
        ensures
            r@ == self@.name,
    {
        &self.name
    }

    /// A log line written on behalf of the plugin instance: `[name] msg`.
    pub fn prefix_msg(&self, msg: String) -> (r: String)
        ensures
            r@ == prefixed_text(self@.name, msg@),
    {
        prefix_msg(self.name.as_str(), msg.as_str())
    }
}

impl Module {
    /// The name of the module.
    pub fn name(&self) -> (r: &String)
        ensures
            r@ == self@.name,
    {
        &self.name
    }

    /// A log line written on behalf of the module:
    /// `[plugin_instance::name] msg`.
    pub fn prefix_msg(&self, msg: String) -> (r: String)
        ensures
            r@ == prefixed_text(
                module_identifier_text(self@.plugin_instance_name, self@.name),
                msg@,
            ),
    {
        let prefix = write_module_identifier(&self.plugin_instance_name, &self.name);
        prefix_msg(prefix.as_str(), msg.as_str())
    }
}

/// A callback to run at shutdown, with the plugin instance that it belongs to.
#[derive(Debug, Clone, PartialEq, Eq)]
pub struct CleanupCall {
    pub plugin_instance: String,
    pub callback: CallbackId,
}

/// The shutdown callbacks of the plugin instances that have one, each with the
/// name of its plugin instance, in registration order.
pub open spec fn cleanup_calls(r: Seq<PluginInstanceView>) -> Seq<(Seq<char>, CallbackId)>
    decreases r.len(),
{
    if r.len() == 0 {
        Seq::empty()
    } else {
        let head = cleanup_calls(r.drop_last());
        match r.last().on_cleanup {
            Some(callback) => head.push((r.last().name, callback)),
            None => head,
        }
    }
}

/// The error that a request for the module `module` of `plugin_instance`
/// fails with where there is no such module: it names the first of the two
/// that is missing.
pub open spec fn module_lookup_error(
    r: Seq<PluginInstanceView>,
    plugin_instance: Seq<char>,
    module: Seq<char>,
) -> RegistryErrorView {
    if lookup_instance(r, plugin_instance) is None {
        RegistryErrorView::NoPluginInstance(plugin_instance)
    } else {
        RegistryErrorView::NoModule(module)
    }
}

/// The names of `xs` that are among `names`, each once, in the order in which
/// `xs` first holds them.
pub open spec fn known_distinct(xs: Seq<Seq<char>>, names: Seq<Seq<char>>) -> Seq<Seq<char>>
    decreases xs.len(),
{
    if xs.len() == 0 {
        Seq::empty()
    } else {
        let head = known_distinct(xs.drop_last(), names);
        if names.contains(xs.last()) && !head.contains(xs.last()) {
            head.push(xs.last())
        } else {
            head
        }
    }
}

/// `known_distinct` holds no name twice, only names of `names`, and exactly
/// those names of `xs` that are among `names`.
pub proof fn lemma_known_distinct(xs: Seq<Seq<char>>, names: Seq<Seq<char>>)
    ensures
        distinct(known_distinct(xs, names)),
        forall|x: Seq<char>| #[trigger]
            known_distinct(xs, names).contains(x) <==> xs.contains(x) && names.contains(x),
    decreases xs.len(),
{
    let out = known_distinct(xs, names);
    if xs.len() == 0 {
        assert forall|x: Seq<char>| #[trigger] out.contains(x) <==> xs.contains(x)
            && names.contains(x) by {}
    } else {
        let init = xs.drop_last();
        let head = known_distinct(init, names);
        lemma_known_distinct(init, names);
        assert forall|x: Seq<char>| #[trigger] out.contains(x) <==> xs.contains(x)
            && names.contains(x) by {
            if out.contains(x) {
                let n = choose|n: int| 0 <= n < out.len() && out[n] == x;
                if n < head.len() {
                    assert(head[n] == x);
                    assert(head.contains(x));
                    let q = choose|q: int| 0 <= q < init.len() && init[q] == x;
                    assert(xs[q] == x);
                } else {
                    assert(x == xs.last());
                    assert(xs[xs.len() - 1] == x);
                }
            }
            if xs.contains(x) && names.contains(x) {
                let q = choose|q: int| 0 <= q < xs.len() && xs[q] == x;
                if q < init.len() {
                    assert(init[q] == x);
                    assert(init.contains(x));
                    assert(head.contains(x));
                    let n = choose|n: int| 0 <= n < head.len() && head[n] == x;
                    assert(out[n] == x);
                } else {
                    if head.contains(x) {
                        let n = choose|n: int| 0 <= n < head.len() && head[n] == x;
                        assert(out[n] == x);
                    } else {
                        assert(out[out.len() - 1] == x);
                    }
                }
            }
        }
        assert forall|i: int, j: int| 0 <= i < j < out.len() implies out[i] != out[j] by {
            if j < head.len() {
                assert(head[i] != head[j]);
            } else {
                assert(head[i] == out[i]);
                assert(head.contains(head[i]));
            }
        }
    }
}

/// Replacing a module by one of the same name and owner that is well formed
/// keeps a registry well formed.
pub proof fn lemma_with_module_wf(
    r: Seq<PluginInstanceView>,
    plugin_instance: Seq<char>,
    module: Seq<char>,
    m: ModuleView,
)
    requires
        registry_wf(r),
        lookup_module(r, plugin_instance, module) is Some,
        m.name == module,
        m.plugin_instance_name == plugin_instance,
        module_wf(m),
    ensures
        registry_wf(with_module(r, plugin_instance, module, m)),
{
    let i = first_match(r, instance_named(plugin_instance));
    lemma_first_match_bounds(r, instance_named(plugin_instance));
    let j = first_match(r[i].modules, module_named(module));
    lemma_first_match_bounds(r[i].modules, module_named(module));
    let after = with_module(r, plugin_instance, module, m);
    assert(instance_names(after) =~= instance_names(r));
    assert(module_names(after[i]) =~= module_names(r[i]));
    assert forall|k: int| 0 <= k < after.len() implies instance_wf(#[trigger] after[k]) by {
        assert(instance_wf(r[k]));
        if k == i {
            assert forall|n: int| 0 <= n < after[i].modules.len() implies module_wf(
                #[trigger] after[i].modules[n],
            ) && after[i].modules[n].plugin_instance_name == after[i].name by {
                assert(module_wf(r[i].modules[n]));
            }
        }
    }
}

/// The registry after the names `xs` were made the active actions of a
/// module: those of them that are actions of the module, each once. A
/// registry without the module stays as it is.
pub open spec fn with_active_actions(
    r: Seq<PluginInstanceView>,
    plugin_instance: Seq<char>,
    module: Seq<char>,
    xs: Seq<Seq<char>>,
) -> Seq<PluginInstanceView> {
    match lookup_module(r, plugin_instance, module) {
        Some(m) => with_module(
            r,
            plugin_instance,
            module,
            ModuleView { active_actions: known_distinct(xs, action_names(m)), ..m },
        ),
        None => r,
    }
}

/// A module put in the place of one of the same name is the module that the
/// name then leads to.
pub proof fn lemma_lookup_replaced_module(
    r: Seq<PluginInstanceView>,
    plugin_instance: Seq<char>,
    module: Seq<char>,
    m: ModuleView,
)
    requires
        lookup_module(r, plugin_instance, module) is Some,
        m.name == module,
    ensures
        lookup_module(with_module(r, plugin_instance, module, m), plugin_instance, module)
            == Some(m),
        first_match(with_module(r, plugin_instance, module, m), instance_named(plugin_instance))
            == first_match(r, instance_named(plugin_instance)),
{
    let i = first_match(r, instance_named(plugin_instance));
    lemma_first_match_bounds(r, instance_named(plugin_instance));
    let j = first_match(r[i].modules, module_named(module));
    lemma_first_match_bounds(r[i].modules, module_named(module));
    let after = with_module(r, plugin_instance, module, m);
    assert forall|k: int| 0 <= k < i implies !instance_named(plugin_instance)(
        #[trigger] after[k],
    ) by {
        assert(after[k] == r[k]);
    }
    lemma_first_match_is(after, instance_named(plugin_instance), i);
    assert forall|k: int| 0 <= k < j implies !module_named(module)(
        #[trigger] after[i].modules[k],
    ) by {
        assert(after[i].modules[k] == r[i].modules[k]);
    }
    lemma_first_match_is(after[i].modules, module_named(module), j);
}

/// After the names `xs` were made the active actions of a module, a snapshot
/// shows as that module's active actions exactly the names of `xs` that are
/// actions of the module, and so exactly the names of `xs` where all of them
/// are.
pub proof fn lemma_active_actions_in_snapshot(
    r: Seq<PluginInstanceView>,
    plugin_instance: Seq<char>,
    module: Seq<char>,
    xs: Seq<Seq<char>>,
)
    requires
        lookup_module(r, plugin_instance, module) is Some,
    ensures
        ({
            let names = action_names(lookup_module(r, plugin_instance, module)->0);
            let after = with_active_actions(r, plugin_instance, module, xs);
            let i = first_match(after, instance_named(plugin_instance));
            let j = first_match(after[i].modules, module_named(module));
            let shown = snapshot(after)[i].modules[j].active_actions;
            &&& 0 <= i < after.len() && 0 <= j < after[i].modules.len()
            &&& snapshot(after)[i].name == plugin_instance
            &&& snapshot(after)[i].modules[j].name == module
            &&& shown.to_set() == xs.to_set().intersect(names.to_set())
            &&& (forall|n: int| 0 <= n < xs.len() ==> names.contains(#[trigger] xs[n]))
                ==> shown.to_set() == xs.to_set()
        }),
{
    let found = lookup_module(r, plugin_instance, module)->0;
    let names = action_names(found);
    let kept = known_distinct(xs, names);
    let changed = ModuleView { active_actions: kept, ..found };
    let after = with_active_actions(r, plugin_instance, module, xs);
    lemma_first_match_bounds(r, instance_named(plugin_instance));
    let i0 = first_match(r, instance_named(plugin_instance));
    lemma_first_match_bounds(r[i0].modules, module_named(module));
    lemma_lookup_replaced_module(r, plugin_instance, module, changed);
    let i = first_match(after, instance_named(plugin_instance));
    let j = first_match(after[i].modules, module_named(module));
    lemma_first_match_bounds(after, instance_named(plugin_instance));
    lemma_first_match_bounds(after[i].modules, module_named(module));
    assert(after[i].modules[j] == changed);
    let shown = snapshot(after)[i].modules[j].active_actions;
    assert(shown == kept);
    lemma_known_distinct(xs, names);
    assert forall|x: Seq<char>|
        shown.to_set().contains(x) <==> xs.to_set().intersect(names.to_set()).contains(x) by {
        assert(shown.to_set().contains(x) <==> kept.contains(x));
    }
    assert(shown.to_set() =~= xs.to_set().intersect(names.to_set()));
    if forall|n: int| 0 <= n < xs.len() ==> names.contains(#[trigger] xs[n]) {
        assert forall|x: Seq<char>| xs.to_set().contains(x) implies names.to_set().contains(
            x,
        ) by {
            let n = choose|n: int| 0 <= n < xs.len() && xs[n] == x;
            assert(names.contains(xs[n]));
        }
        assert(xs.to_set().intersect(names.to_set()) =~= xs.to_set());
    }
}

/// Making the same names the active actions of a module a second time
/// changes nothing.
pub proof fn lemma_set_active_actions_idempotent(
    r: Seq<PluginInstanceView>,
    plugin_instance: Seq<char>,
    module: Seq<char>,
    xs: Seq<Seq<char>>,
)
    ensures
        with_active_actions(
            with_active_actions(r, plugin_instance, module, xs),
            plugin_instance,
            module,
            xs,
        ) == with_active_actions(r, plugin_instance, module, xs),
{
    if lookup_module(r, plugin_instance, module) is Some {
        let found = lookup_module(r, plugin_instance, module)->0;
        let changed = ModuleView {
            active_actions: known_distinct(xs, action_names(found)),
            ..found
        };
        let once = with_active_actions(r, plugin_instance, module, xs);
        lemma_first_match_bounds(r, instance_named(plugin_instance));
        let i = first_match(r, instance_named(plugin_instance));
        lemma_first_match_bounds(r[i].modules, module_named(module));
        lemma_lookup_replaced_module(r, plugin_instance, module, changed);
        assert(action_names(changed) == action_names(found));
        let twice = with_active_actions(once, plugin_instance, module, xs);
        let j = first_match(r[i].modules, module_named(module));
        lemma_first_match_bounds(once, instance_named(plugin_instance));
        lemma_first_match_bounds(once[i].modules, module_named(module));
        assert(first_match(once[i].modules, module_named(module)) == j) by {
            assert forall|k: int| 0 <= k < j implies !module_named(module)(
                #[trigger] once[i].modules[k],
            ) by {
                assert(once[i].modules[k] == r[i].modules[k]);
            }
            lemma_first_match_is(once[i].modules, module_named(module), j);
        }
        assert(twice[i].modules =~= once[i].modules);
        assert(twice =~= once);
    }
}

/// Everything that scripts have registered, in registration order.
#[derive(Debug)]
pub struct Registry {
    plugin_instances: Vec<PluginInstance>,
}

impl View for Registry {
    type V = Seq<PluginInstanceView>;

    closed spec fn view(&self) -> Seq<PluginInstanceView> {
        self.plugin_instances@.map_values(|p: PluginInstance| p@)
    }
}

impl Registry {
    /// Whether the names are unique within their scopes and every module's
    /// active actions are actions of that module.
    pub open spec fn wf(&self) -> bool {
        registry_wf(self@)
    }

    /// A registry with nothing in it.
    pub fn new() -> (r: Registry)
        ensures
            r@ == Seq::<PluginInstanceView>::empty(),
            r.wf(),
    {
        let r = Registry { plugin_instances: Vec::new() };
        assert(r@ =~= Seq::<PluginInstanceView>::empty());
        r
    }

    /// Registers a plugin instance under a name that no other has. A name
    /// that is taken is turned down and nothing changes.
    pub fn register_plugin_instance(&mut self, name: String, on_cleanup: Option<CallbackId>) -> (r:
        Result<(), RegistryError>)
        requires
            old(self).wf(),
        ensures
            final(self).wf(),
            match r {
                Ok(_) => lookup_instance(old(self)@, name@) is None && final(self)@ == old(
                    self,
                )@.push(PluginInstanceView { name: name@, modules: Seq::empty(), on_cleanup }),
                Err(e) => lookup_instance(old(self)@, name@) is Some && final(self)@ == old(self)@
                    && e@ == RegistryErrorView::DuplicatePluginInstance(name@),
            },
    {
        match self.instance_position(&name) {
            Some(_) => Err(RegistryError::DuplicatePluginInstance(name)),
            None => {
                proof {
                    lemma_first_match_bounds(self@, instance_named(name@));
                }
                let ghost before = self@;
                let p = PluginInstance::new(name, on_cleanup);
                self.plugin_instances.push(p);
                proof {
                    assert(self@ =~= before.push(p@));
                    assert forall|i: int, j: int|
                        0 <= i < j < instance_names(self@).len() implies instance_names(self@)[i]
                        != instance_names(self@)[j] by {
                        if j < before.len() {
                            assert(instance_names(before)[i] != instance_names(before)[j]);
                        } else {
                            assert(!instance_named(name@)(before[i]));
                        }
                    }
                    assert forall|i: int| 0 <= i < self@.len() implies instance_wf(
                        #[trigger] self@[i],
                    ) by {
                        if i < before.len() {
                            assert(instance_wf(before[i]));
                        }
                    }
                }
                Ok(())
            },
        }
    }

    /// Registers a module of the plugin instance `plugin_instance` under a
    /// name that no other module of it has.
    pub fn register_module(
        &mut self,
        plugin_instance: &String,
        name: String,
        display_name: Option<String>,
    ) -> (r: Result<(), RegistryError>)
        requires
            old(self).wf(),
        ensures
            final(self).wf(),
            match r {
                Ok(_) => {
                    let i = first_match(old(self)@, instance_named(plugin_instance@));
                    &&& lookup_instance(old(self)@, plugin_instance@) is Some
                    &&& lookup_module(old(self)@, plugin_instance@, name@) is None
                    &&& final(self)@ == old(self)@.update(
                        i,
                        PluginInstanceView {
                            modules: old(self)@[i].modules.push(
                                fresh_module(plugin_instance@, name@, text_of(display_name)),
                            ),
                            ..old(self)@[i]
                        },
                    )
                },
                Err(e) => {
                    &&& final(self)@ == old(self)@
                    &&& e@ == if lookup_instance(old(self)@, plugin_instance@) is None {
                        RegistryErrorView::NoPluginInstance(plugin_instance@)
                    } else {
                        RegistryErrorView::DuplicateModule(name@)
                    }
                    &&& lookup_instance(old(self)@, plugin_instance@) is Some ==> lookup_module(
                        old(self)@,
                        plugin_instance@,
                        name@,
                    ) is Some
                },
            },
    {
        let i = match self.instance_position(plugin_instance) {
            Some(i) => i,
            None => {
                return Err(RegistryError::NoPluginInstance(plugin_instance.clone()));
            },
        };
        let ghost before = self@;
        proof {
            lemma_first_match_bounds(before, instance_named(plugin_instance@));
            assert(before[i as int] == self.plugin_instances@[i as int]@);
        }
        match self.plugin_instances[i].module_position(&name) {
            Some(_) => Err(RegistryError::DuplicateModule(name)),
            None => {
                proof {
                    lemma_first_match_bounds(before[i as int].modules, module_named(name@));
                }
                let m = Module::new(name, plugin_instance.clone(), display_name);
                self.plugin_instances[i].modules.push(m);
                proof {
                    let grown = PluginInstanceView {
                        modules: before[i as int].modules.push(m@),
                        ..before[i as int]
                    };
                    assert(self.plugin_instances@[i as int]@.modules =~= before[i as int].modules.push(
                        m@,
                    ));
                    assert(self@ =~= before.update(i as int, grown));
                    assert(instance_names(self@) =~= instance_names(before));
                    assert forall|k: int| 0 <= k < self@.len() implies instance_wf(
                        #[trigger] self@[k],
                    ) by {
                        assert(instance_wf(before[k]));
                        if k == i {
                            let old_names = module_names(before[k]);
                            let new_names = module_names(self@[k]);
                            assert forall|a: int, b: int|
                                0 <= a < b < new_names.len() implies new_names[a]
                                != new_names[b] by {
                                if b < old_names.len() {
                                    assert(old_names[a] != old_names[b]);
                                } else {
                                    assert(!module_named(m@.name)(before[k].modules[a]));
                                }
                            }
                            assert forall|n: int| 0 <= n < self@[k].modules.len() implies module_wf(
                                #[trigger] self@[k].modules[n],
                            ) && self@[k].modules[n].plugin_instance_name == self@[k].name by {
                                if n < before[k].modules.len() {
                                    assert(module_wf(before[k].modules[n]));
                                } else {
                                    assert(action_names(m@) =~= Seq::<Seq<char>>::empty());
                                }
                            }
                        }
                    }
                }
                Ok(())
            },
        }
    }

    /// Registers an action of a module under a name that no other action of
    /// the module has.
    pub fn register_action(
        &mut self,
        module: &ModuleIdentifier,
        name: String,
        display_name: Option<String>,
        key: CallbackId,
    ) -> (r: Result<(), RegistryError>)
        requires
            old(self).wf(),
        ensures
            final(self).wf(),
            match r {
                Ok(_) => {
                    let m = lookup_module(old(self)@, module.plugin_instance@, module.module@);
                    &&& m is Some
                    &&& lookup_action(old(self)@, module.plugin_instance@, module.module@, name@)
                        is None
                    &&& final(self)@ == with_module(
                        old(self)@,
                        module.plugin_instance@,
                        module.module@,
                        ModuleView {
                            actions: m->0.actions.push(
                                ActionView {
                                    name: name@,
                                    display_name: text_of(display_name),
                                    key,
                                },
                            ),
                            ..m->0
                        },
                    )
                },
                Err(e) => {
                    &&& final(self)@ == old(self)@
                    &&& e@ == if lookup_module(old(self)@, module.plugin_instance@, module.module@)
                        is None {
                        module_lookup_error(old(self)@, module.plugin_instance@, module.module@)
                    } else {
                        RegistryErrorView::DuplicateAction(name@)
                    }
                    &&& lookup_module(old(self)@, module.plugin_instance@, module.module@) is Some
                        ==> lookup_action(
                        old(self)@,
                        module.plugin_instance@,
                        module.module@,
                        name@,
                    ) is Some
                },
            },
    {
        let (i, j) = match self.locate_module(&module.plugin_instance, &module.module) {
            Ok(place) => place,
            Err(e) => {
                return Err(e);
            },
        };
        let ghost before = self@;
        let ghost found = before[i as int].modules[j as int];
        match self.plugin_instances[i].modules[j].action_position(&name) {
            Some(_) => Err(RegistryError::DuplicateAction(name)),
            None => {
                proof {
                    lemma_first_match_bounds(before, instance_named(module.plugin_instance@));
                    lemma_first_match_bounds(before[i as int].modules, module_named(module.module@));
                    lemma_first_match_bounds(found.actions, action_named(name@));
                    assert(instance_wf(before[i as int]));
                    assert(module_wf(found));
                }
                let action = Action { name, display_name, key };
                self.plugin_instances[i].modules[j].actions.push(action);
                proof {
                    let grown = ModuleView { actions: found.actions.push(action@), ..found };
                    assert(self.plugin_instances@[i as int].modules@[j as int]@.actions
                        =~= found.actions.push(action@));
                    assert(self.plugin_instances@[i as int].modules@[j as int]@ == grown);
                    assert(self.plugin_instances@[i as int]@.modules =~= before[i as int].modules.update(
                        j as int,
                        grown,
                    ));
                    assert(self@ =~= with_module(
                        before,
                        module.plugin_instance@,
                        module.module@,
                        grown,
                    ));
                    let old_names = action_names(found);
                    let new_names = action_names(grown);
                    assert forall|a: int, b: int|
                        0 <= a < b < new_names.len() implies new_names[a] != new_names[b] by {
                        if b < old_names.len() {
                            assert(old_names[a] != old_names[b]);
                        } else {
                            assert(!action_named(action@.name)(found.actions[a]));
                        }
                    }
                    assert forall|n: int| 0 <= n < grown.active_actions.len() implies action_names(
                        grown,
                    ).contains(#[trigger] grown.active_actions[n]) by {
                        assert(old_names.contains(found.active_actions[n]));
                        let q = choose|q: int|
                            0 <= q < old_names.len() && old_names[q] == found.active_actions[n];
                        assert(new_names[q] == found.active_actions[n]);
                    }
                    lemma_with_module_wf(before, module.plugin_instance@, module.module@, grown);
                }
                Ok(())
            },
        }
    }

    /// Sets or clears the status of a module and gives the notification to
    /// broadcast.
    pub fn set_status(&mut self, module: &ModuleIdentifier, status: Option<ModuleStatus>) -> (r:
        Result<Notification, RegistryError>)
        requires
            old(self).wf(),
        ensures
            final(self).wf(),
            match r {
                Ok(n) => {
                    let m = lookup_module(old(self)@, module.plugin_instance@, module.module@);
                    &&& m is Some
                    &&& final(self)@ == with_module(
                        old(self)@,
                        module.plugin_instance@,
                        module.module@,
                        ModuleView { status: text_of(status), ..m->0 },
                    )
                    &&& n@ == NotificationView::ModuleStatusUpdate {
                        plugin_instance: module.plugin_instance@,
                        module: module.module@,
                        new_status: text_of(status),
                    }
                },
                Err(e) => {
                    &&& lookup_module(old(self)@, module.plugin_instance@, module.module@) is None
                    &&& final(self)@ == old(self)@
                    &&& e@ == module_lookup_error(
                        old(self)@,
                        module.plugin_instance@,
                        module.module@,
                    )
                },
            },
    {
        let (i, j) = match self.locate_module(&module.plugin_instance, &module.module) {
            Ok(place) => place,
            Err(e) => {
                return Err(e);
            },
        };
        let ghost before = self@;
        let ghost found = before[i as int].modules[j as int];
        let new_status = clone_text(&status);
        self.plugin_instances[i].modules[j].status = status;
        proof {
            let changed = ModuleView { status: text_of(status), ..found };
            lemma_first_match_bounds(before, instance_named(module.plugin_instance@));
            lemma_first_match_bounds(before[i as int].modules, module_named(module.module@));
            assert(instance_wf(before[i as int]));
            assert(module_wf(found));
            assert(self.plugin_instances@[i as int].modules@[j as int]@ == changed);
            assert(self.plugin_instances@[i as int]@.modules =~= before[i as int].modules.update(
                j as int,
                changed,
            ));
            assert(self@ =~= with_module(
                before,
                module.plugin_instance@,
                module.module@,
                changed,
            ));
            assert(action_names(changed) == action_names(found));
            lemma_with_module_wf(before, module.plugin_instance@, module.module@, changed);
        }
        Ok(
            Notification::ModuleStatusUpdate {
                module_identifier: ModuleIdentifier {
                    plugin_instance: module.plugin_instance.clone(),
                    module: module.module.clone(),
                },
                new_status,
            },
        )
    }

    /// The status of a module, if it has one.
    pub fn get_status(&self, module: &ModuleIdentifier) -> (r: Result<
        Option<ModuleStatus>,
        RegistryError,
    >)
        ensures
            match r {
                Ok(status) => {
                    let m = lookup_module(self@, module.plugin_instance@, module.module@);
                    m is Some && text_of(status) == m->0.status
                },
                Err(e) => {
                    &&& lookup_module(self@, module.plugin_instance@, module.module@) is None
                    &&& e@ == module_lookup_error(self@, module.plugin_instance@, module.module@)
                },
            },
    {
        match self.locate_module(&module.plugin_instance, &module.module) {
            Ok((i, j)) => Ok(clone_text(&self.plugin_instances[i].modules[j].status)),
            Err(e) => Err(e),
        }
    }

    /// Sets or clears the message of a module and gives the notification to
    /// broadcast.
    pub fn set_message(&mut self, module: &ModuleIdentifier, message: Option<ModuleMessage>) -> (r:
        Result<Notification, RegistryError>)
        requires
            old(self).wf(),
        ensures
            final(self).wf(),
            match r {
                Ok(n) => {
                    let m = lookup_module(old(self)@, module.plugin_instance@, module.module@);
                    &&& m is Some
                    &&& final(self)@ == with_module(
                        old(self)@,
                        module.plugin_instance@,
                        module.module@,
                        ModuleView { message: text_of(message), ..m->0 },
                    )
                    &&& n@ == NotificationView::ModuleMessageUpdate {
                        plugin_instance: module.plugin_instance@,
                        module: module.module@,
                        new_message: text_of(message),
                    }
                },
                Err(e) => {
                    &&& lookup_module(old(self)@, module.plugin_instance@, module.module@) is None
                    &&& final(self)@ == old(self)@
                    &&& e@ == module_lookup_error(
                        old(self)@,
                        module.plugin_instance@,
                        module.module@,
                    )
                },
            },
    {
        let (i, j) = match self.locate_module(&module.plugin_instance, &module.module) {
            Ok(place) => place,
            Err(e) => {
                return Err(e);
            },
        };
        let ghost before = self@;
        let ghost found = before[i as int].modules[j as int];
        let new_message = clone_text(&message);
        self.plugin_instances[i].modules[j].message = message;
        proof {
            let changed = ModuleView { message: text_of(message), ..found };
            lemma_first_match_bounds(before, instance_named(module.plugin_instance@));
            lemma_first_match_bounds(before[i as int].modules, module_named(module.module@));
            assert(instance_wf(before[i as int]));
            assert(module_wf(found));
            assert(self.plugin_instances@[i as int].modules@[j as int]@ == changed);
            assert(self.plugin_instances@[i as int]@.modules =~= before[i as int].modules.update(
                j as int,
                changed,
            ));
            assert(self@ =~= with_module(
                before,
                module.plugin_instance@,
                module.module@,
                changed,
            ));
            assert(action_names(changed) == action_names(found));
            lemma_with_module_wf(before, module.plugin_instance@, module.module@, changed);
        }
        Ok(
            Notification::ModuleMessageUpdate {
                module_identifier: ModuleIdentifier {
                    plugin_instance: module.plugin_instance.clone(),
                    module: module.module.clone(),
                },
                new_message,
            },
        )
    }

    /// Makes the named actions the active ones of a module and gives the
    /// notification to broadcast. Names that are no actions of the module are
    /// left out, and a name given twice counts once.
    pub fn set_active_actions(&mut self, module: &ModuleIdentifier, actions: Vec<String>) -> (r:
        Result<Notification, RegistryError>)
        requires
            old(self).wf(),
        ensures
            final(self).wf(),
            final(self)@ == with_active_actions(
                old(self)@,
                module.plugin_instance@,
                module.module@,
                texts_of(actions@),
            ),
            match r {
                Ok(n) => {
                    let m = lookup_module(old(self)@, module.plugin_instance@, module.module@);
                    let active = known_distinct(texts_of(actions@), action_names(m->0));
                    &&& m is Some
                    &&& final(self)@ == with_module(
                        old(self)@,
                        module.plugin_instance@,
                        module.module@,
                        ModuleView { active_actions: active, ..m->0 },
                    )
                    &&& n@ == NotificationView::ModuleActiveActionsUpdate {
                        plugin_instance: module.plugin_instance@,
                        module: module.module@,
                        new_active_actions: active,
                    }
                },
                Err(e) => {
                    &&& lookup_module(old(self)@, module.plugin_instance@, module.module@) is None
                    &&& final(self)@ == old(self)@
                    &&& e@ == module_lookup_error(
                        old(self)@,
                        module.plugin_instance@,
                        module.module@,
                    )
                },
            },
    {
        let (i, j) = match self.locate_module(&module.plugin_instance, &module.module) {
            Ok(place) => place,
            Err(e) => {
                return Err(e);
            },
        };
        let ghost before = self@;
        let ghost found = before[i as int].modules[j as int];
        let ghost names = action_names(found);
        let ghost wanted = texts_of(actions@);
        let mut kept: Vec<String> = Vec::new();
        let mut n: usize = 0;
        assert(texts_of(kept@) =~= known_distinct(wanted.take(0), names));
        while n < actions.len()
            invariant
                n <= actions.len(),
                i < self.plugin_instances.len(),
                j < self.plugin_instances@[i as int].modules.len(),
                self.plugin_instances@[i as int].modules@[j as int]@ == found,
                names == action_names(found),
                wanted == texts_of(actions@),
                texts_of(kept@) == known_distinct(wanted.take(n as int), names),
            decreases actions.len() - n,
        {
            let known = self.plugin_instances[i].modules[j].action_position(&actions[n]).is_some();
            let seen = contains_text(&kept, &actions[n]);
            proof {
                let x = actions@[n as int]@;
                assert(wanted.take(n + 1).drop_last() =~= wanted.take(n as int));
                assert(wanted.take(n + 1).last() == x);
                lemma_first_match_bounds(found.actions, action_named(x));
                if known {
                    let k = first_match(found.actions, action_named(x));
                    assert(names[k] == x);
                } else {
                    if names.contains(x) {
                        let q = choose|q: int| 0 <= q < names.len() && names[q] == x;
                        assert(action_named(x)(found.actions[q]));
                    }
                }
                assert(known == names.contains(x));
            }
            if known && !seen {
                kept.push(actions[n].clone());
                assert(texts_of(kept@) =~= known_distinct(wanted.take(n as int), names).push(
                    actions@[n as int]@,
                ));
            }
            n += 1;
        }
        assert(wanted.take(actions.len() as int) =~= wanted);
        let new_active_actions = clone_texts(&kept);
        self.plugin_instances[i].modules[j].active_actions = kept;
        proof {
            let changed = ModuleView { active_actions: known_distinct(wanted, names), ..found };
            lemma_first_match_bounds(before, instance_named(module.plugin_instance@));
            lemma_first_match_bounds(before[i as int].modules, module_named(module.module@));
            assert(instance_wf(before[i as int]));
            assert(module_wf(found));
            assert(self.plugin_instances@[i as int].modules@[j as int]@ == changed);
            assert(self.plugin_instances@[i as int]@.modules =~= before[i as int].modules.update(
                j as int,
                changed,
            ));
            assert(self@ =~= with_module(
                before,
                module.plugin_instance@,
                module.module@,
                changed,
            ));
            assert(action_names(changed) == names);
            lemma_known_distinct(wanted, names);
            assert forall|q: int| 0 <= q < changed.active_actions.len() implies names.contains(
                #[trigger] changed.active_actions[q],
            ) by {
                assert(changed.active_actions.contains(changed.active_actions[q]));
            }
            lemma_with_module_wf(before, module.plugin_instance@, module.module@, changed);
        }
        Ok(
            Notification::ModuleActiveActionsUpdate {
                module_identifier: ModuleIdentifier {
                    plugin_instance: module.plugin_instance.clone(),
                    module: module.module.clone(),
                },
                new_active_actions,
            },
        )
    }

    /// The first plugin instance named `name`.
    pub fn plugin_instance(&self, name: &String) -> (r: Option<&PluginInstance>)
        ensures
            match r {
                Some(p) => lookup_instance(self@, name@) == Some(p@),
                None => lookup_instance(self@, name@) is None,
            },
    {
        match self.instance_position(name) {
            Some(i) => {
                assert(self@[i as int] == self.plugin_instances@[i as int]@);
                Some(&self.plugin_instances[i])
            },
            None => None,
        }
    }

    /// The module that an identifier names.
    pub fn module(&self, identifier: &ModuleIdentifier) -> (r: Option<&Module>)
        ensures
            match r {
                Some(m) => lookup_module(self@, identifier.plugin_instance@, identifier.module@)
                    == Some(m@),
                None => lookup_module(self@, identifier.plugin_instance@, identifier.module@)
                    is None,
            },
    {
        match self.locate_module(&identifier.plugin_instance, &identifier.module) {
            Ok((i, j)) => Some(&self.plugin_instances[i].modules[j]),
            Err(_) => None,
        }
    }

    /// The callbacks to run at shutdown, in registration order of their
    /// plugin instances.
    pub fn cleanup_callbacks(&self) -> (r: Vec<CleanupCall>)
        ensures
            r@.map_values(|c: CleanupCall| (c.plugin_instance@, c.callback)) == cleanup_calls(
                self@,
            ),
    {
        let mut out: Vec<CleanupCall> = Vec::new();
        let mut i: usize = 0;
        assert(out@.map_values(|c: CleanupCall| (c.plugin_instance@, c.callback))
            =~= cleanup_calls(self@.take(0)));
        while i < self.plugin_instances.len()
            invariant
                i <= self.plugin_instances.len(),
                self@.len() == self.plugin_instances.len(),
                out@.map_values(|c: CleanupCall| (c.plugin_instance@, c.callback))
                    == cleanup_calls(self@.take(i as int)),
            decreases self.plugin_instances.len() - i,
        {
            proof {
                assert(self@.take(i + 1).drop_last() =~= self@.take(i as int));
                assert(self@.take(i + 1).last() == self.plugin_instances@[i as int]@);
            }
            if let Some(callback) = self.plugin_instances[i].on_cleanup {
                let ghost had = out@;
                let call = CleanupCall {
                    plugin_instance: self.plugin_instances[i].name.clone(),
                    callback,
                };
                out.push(call);
                assert(out@.map_values(|c: CleanupCall| (c.plugin_instance@, c.callback))
                    =~= had.map_values(|c: CleanupCall| (c.plugin_instance@, c.callback)).push(
                    (call.plugin_instance@, call.callback),
                ));
            }
            i += 1;
        }
        assert(self@.take(self.plugin_instances.len() as int) =~= self@);
        out
    }

    /// The places of the module that an identifier names.
    fn locate_module(&self, plugin_instance: &String, module: &String) -> (r: Result<
        (usize, usize),
        RegistryError,
    >)
        ensures
            self@.len() == self.plugin_instances.len(),
            match r {
                Ok((i, j)) => {
                    &&& i == first_match(self@, instance_named(plugin_instance@))
                    &&& i < self.plugin_instances.len()
                    &&& j == first_match(self@[i as int].modules, module_named(module@))
                    &&& j < self.plugin_instances@[i as int].modules.len()
                    &&& self@[i as int] == self.plugin_instances@[i as int]@
                    &&& self@[i as int].modules[j as int]
                        == self.plugin_instances@[i as int].modules@[j as int]@
                    &&& lookup_module(self@, plugin_instance@, module@) == Some(
                        self@[i as int].modules[j as int],
                    )
                },
                Err(e) => {
                    &&& lookup_module(self@, plugin_instance@, module@) is None
                    &&& e@ == module_lookup_error(self@, plugin_instance@, module@)
                },
            },
    {
        let i = match self.instance_position(plugin_instance) {
            Some(i) => i,
            None => {
                return Err(RegistryError::NoPluginInstance(plugin_instance.clone()));
            },
        };
        assert(self@[i as int] == self.plugin_instances@[i as int]@);
        match self.plugin_instances[i].module_position(module) {
            Some(j) => {
                assert(self@[i as int].modules[j as int]
                    == self.plugin_instances@[i as int].modules@[j as int]@);
                Ok((i, j))
            },
            None => Err(RegistryError::NoModule(module.clone())),
        }
    }

    /// The place of the first plugin instance named `name`.
    fn instance_position(&self, name: &String) -> (r: Option<usize>)
        ensures
            match r {
                Some(i) => i == first_match(self@, instance_named(name@)) && i
                    < self.plugin_instances.len(),
                None => first_match(self@, instance_named(name@)) >= self@.len(),
            },
            self@.len() == self.plugin_instances.len(),
    {
        let mut i: usize = 0;
        while i < self.plugin_instances.len()
            invariant
                i <= self.plugin_instances.len(),
                self@.len() == self.plugin_instances.len(),
                forall|k: int| 0 <= k < i ==> !instance_named(name@)(#[trigger] self@[k]),
            decreases self.plugin_instances.len() - i,
        {
            if self.plugin_instances[i].name == *name {
                proof {
                    assert(self@[i as int] == self.plugin_instances@[i as int]@);
                    lemma_first_match_is(self@, instance_named(name@), i as int);
                }
                return Some(i);
            }
            assert(self@[i as int] == self.plugin_instances@[i as int]@);
            i += 1;
        }
        proof {
            lemma_first_match_is(self@, instance_named(name@), i as int);
        }
        None
    }
}

/// What clients see of an action.
#[derive(Debug, Clone, PartialEq, Eq)]
pub struct ActionInfo {
    pub name: String,
    pub display_name: Option<String>,
}

/// What an [`ActionInfo`] holds.
pub ghost struct ActionInfoView {
    pub name: Seq<char>,
    pub display_name: Option<Seq<char>>,
}

impl View for ActionInfo {
    type V = ActionInfoView;

    open spec fn view(&self) -> ActionInfoView {
        ActionInfoView { name: self.name@, display_name: text_of(self.display_name) }
    }
}

/// What clients see of a module.
#[derive(Debug, Clone, PartialEq, Eq)]
pub struct ModuleInfo {
    pub name: String,
    pub display_name: Option<String>,
    pub actions: Vec<ActionInfo>,
    pub active_actions: Vec<String>,
    pub status: Option<ModuleStatus>,
    pub message: Option<ModuleMessage>,
}

/// What a [`ModuleInfo`] holds.
pub ghost struct ModuleInfoView {
    pub name: Seq<char>,
    pub display_name: Option<Seq<char>>,
    pub actions: Seq<ActionInfoView>,
    pub active_actions: Seq<Seq<char>>,
    pub status: Option<Seq<char>>,
    pub message: Option<Seq<char>>,
}

impl View for ModuleInfo {
    type V = ModuleInfoView;

    open spec fn view(&self) -> ModuleInfoView {
        ModuleInfoView {
            name: self.name@,
            display_name: text_of(self.display_name),
            actions: self.actions@.map_values(|a: ActionInfo| a@),
            active_actions: texts_of(self.active_actions@),
            status: text_of(self.status),
            message: text_of(self.message),
        }
    }
}

/// What clients see of a plugin instance.
#[derive(Debug, Clone, PartialEq, Eq)]
pub struct PluginInstanceInfo {
    pub name: String,
    pub modules: Vec<ModuleInfo>,
}

/// What a [`PluginInstanceInfo`] holds.
pub ghost struct PluginInstanceInfoView {
    pub name: Seq<char>,
    pub modules: Seq<ModuleInfoView>,
}

impl View for PluginInstanceInfo {
    type V = PluginInstanceInfoView;

    open spec fn view(&self) -> PluginInstanceInfoView {
        PluginInstanceInfoView {
            name: self.name@,
            modules: self.modules@.map_values(|m: ModuleInfo| m@),
        }
    }
}

/// The full state that a client is sent when its session begins.
#[derive(Debug, Clone, PartialEq, Eq)]
pub struct SystemInfo {
    pub plugin_instances: Vec<PluginInstanceInfo>,
}

impl View for SystemInfo {
    type V = Seq<PluginInstanceInfoView>;

    open spec fn view(&self) -> Seq<PluginInstanceInfoView> {
        self.plugin_instances@.map_values(|p: PluginInstanceInfo| p@)
    }
}

/// What clients see of an action: its name and its display name.
pub open spec fn action_info(a: ActionView) -> ActionInfoView {
    ActionInfoView { name: a.name, display_name: a.display_name }
}

/// What clients see of a module: everything but the callbacks of its actions.
pub open spec fn module_info(m: ModuleView) -> ModuleInfoView {
    ModuleInfoView {
        name: m.name,
        display_name: m.display_name,
        actions: m.actions.map_values(|a: ActionView| action_info(a)),
        active_actions: m.active_actions,
        status: m.status,
        message: m.message,
    }
}

/// What clients see of a plugin instance: its name and its modules.
pub open spec fn instance_info(p: PluginInstanceView) -> PluginInstanceInfoView {
    PluginInstanceInfoView {
        name: p.name,
        modules: p.modules.map_values(|m: ModuleView| module_info(m)),
    }
}

/// What clients see of a registry: every plugin instance, in registration
/// order.
pub open spec fn snapshot(r: Seq<PluginInstanceView>) -> Seq<PluginInstanceInfoView> {
    r.map_values(|p: PluginInstanceView| instance_info(p))
}

/// The identifiers of a module's actions, in registration order.
pub open spec fn action_lines_of_module(m: ModuleView) -> Seq<Seq<char>> {
    m.actions.map_values(
        |a: ActionView| action_identifier_text(m.plugin_instance_name, m.name, a.name),
    )
}

/// The identifiers of the actions of a plugin instance, module by module.
pub open spec fn action_lines_of_instance(p: PluginInstanceView) -> Seq<Seq<char>> {
    concat_all(p.modules.map_values(|m: ModuleView| action_lines_of_module(m)))
}

/// The identifiers of all actions, plugin instance by plugin instance.
pub open spec fn action_lines(r: Seq<PluginInstanceView>) -> Seq<Seq<char>> {
    concat_all(r.map_values(|p: PluginInstanceView| action_lines_of_instance(p)))
}

/// The line that reports a module's status: its identifier, ` -- `, and the
/// status, or `unknown` where it has none.
pub open spec fn status_line(m: ModuleView) -> Seq<char> {
    module_identifier_text(m.plugin_instance_name, m.name) + " -- "@ + match m.status {
        Some(status) => status,
        None => "unknown"@,
    }
}

/// The status lines of the modules of a plugin instance.
pub open spec fn status_lines_of_instance(p: PluginInstanceView) -> Seq<Seq<char>> {
    p.modules.map_values(|m: ModuleView| status_line(m))
}

/// The status lines of all modules, plugin instance by plugin instance.
pub open spec fn status_lines(r: Seq<PluginInstanceView>) -> Seq<Seq<char>> {
    concat_all(r.map_values(|p: PluginInstanceView| status_lines_of_instance(p)))
}

/// The error that a call of an action fails with where there is no such
/// action: it names the first of the three that is missing.
pub open spec fn action_lookup_error(
    r: Seq<PluginInstanceView>,
    plugin_instance: Seq<char>,
    module: Seq<char>,
    action: Seq<char>,
) -> RegistryErrorView {
    if lookup_module(r, plugin_instance, module) is None {
        module_lookup_error(r, plugin_instance, module)
    } else {
        RegistryErrorView::NoAction(action)
    }
}

/// What a call of the action that a text names resolves to: the action's
/// callback, or the reason why there is none.
pub open spec fn resolve_action_text(r: Seq<PluginInstanceView>, s: Seq<char>) -> Result<
    CallbackId,
    RegistryErrorView,
> {
    match action_identifier_parts(s) {
        None => Err(RegistryErrorView::MalformedActionIdentifier(s)),
        Some((plugin_instance, module, action)) => match lookup_action(
            r,
            plugin_instance,
            module,
            action,
        ) {
            Some(a) => Ok(a.key),
            None => Err(action_lookup_error(r, plugin_instance, module, action)),
        },
    }
}

impl Module {
    /// Adds the identifiers of the module's actions to `out`.
    fn push_action_lines(&self, out: &mut Vec<String>)
        ensures
            texts_of(final(out)@) == texts_of(old(out)@) + action_lines_of_module(self@),
    {
        let ghost before = texts_of(out@);
        let ghost lines = action_lines_of_module(self@);
        let mut k: usize = 0;
        assert(texts_of(out@) =~= before + lines.take(0));
        while k < self.actions.len()
            invariant
                k <= self.actions.len(),
                lines == action_lines_of_module(self@),
                lines.len() == self.actions.len(),
                texts_of(out@) == before + lines.take(k as int),
            decreases self.actions.len() - k,
        {
            let line = write_action_identifier(
                &self.plugin_instance_name,
                &self.name,
                &self.actions[k].name,
            );
            let ghost had = out@;
            out.push(line);
            proof {
                assert(self@.actions[k as int] == self.actions@[k as int]@);
                assert(line@ == lines[k as int]);
                lemma_texts_of_push(had, line);
                assert((before + lines.take(k as int)).push(lines[k as int]) =~= before
                    + lines.take(k + 1));
            }
            k += 1;
        }
        assert(lines.take(self.actions.len() as int) =~= lines);
    }

    /// The line that reports the module's status.
    fn write_status_line(&self) -> (r: String)
        ensures
            r@ == status_line(self@),
    {
        let mut r = write_module_identifier(&self.plugin_instance_name, &self.name);
        r.append(" -- ");
        match &self.status {
            Some(status) => r.append(status.as_str()),
            None => r.append("unknown"),
        }
        r
    }

    /// What clients see of the module.
    fn info(&self) -> (r: ModuleInfo)
        ensures
            r@ == module_info(self@),
    {
        let mut actions: Vec<ActionInfo> = Vec::new();
        let mut k: usize = 0;
        let ghost wanted = self@.actions.map_values(|a: ActionView| action_info(a));
        while k < self.actions.len()
            invariant
                k <= self.actions.len(),
                actions.len() == k,
                wanted == self@.actions.map_values(|a: ActionView| action_info(a)),
                forall|n: int| 0 <= n < k ==> (#[trigger] actions@[n])@ == wanted[n],
            decreases self.actions.len() - k,
        {
            let a = ActionInfo {
                name: self.actions[k].name.clone(),
                display_name: clone_text(&self.actions[k].display_name),
            };
            assert(self@.actions[k as int] == self.actions@[k as int]@);
            actions.push(a);
            k += 1;
        }
        let r = ModuleInfo {
            name: self.name.clone(),
            display_name: clone_text(&self.display_name),
            actions,
            active_actions: clone_texts(&self.active_actions),
            status: clone_text(&self.status),
            message: clone_text(&self.message),
        };
        assert(r@.actions =~= wanted);
        r
    }
}

impl PluginInstance {
    /// What clients see of the plugin instance.
    fn info(&self) -> (r: PluginInstanceInfo)
        ensures
            r@ == instance_info(self@),
    {
        let mut modules: Vec<ModuleInfo> = Vec::new();
        let mut j: usize = 0;
        let ghost wanted = self@.modules.map_values(|m: ModuleView| module_info(m));
        while j < self.modules.len()
            invariant
                j <= self.modules.len(),
                modules.len() == j,
                wanted == self@.modules.map_values(|m: ModuleView| module_info(m)),
                forall|n: int| 0 <= n < j ==> (#[trigger] modules@[n])@ == wanted[n],
            decreases self.modules.len() - j,
        {
            let m = self.modules[j].info();
            assert(self@.modules[j as int] == self.modules@[j as int]@);
            modules.push(m);
            j += 1;
        }
        let r = PluginInstanceInfo { name: self.name.clone(), modules };
        assert(r@.modules =~= wanted);
        r
    }
}

/// The identifiers of all registered actions, in registration order.
pub fn list_actions(registry: &Registry) -> (r: Vec<String>)
    ensures
        texts_of(r@) == action_lines(registry@),
{
    let mut out: Vec<String> = Vec::new();
    let ghost per_instance = registry@.map_values(
        |p: PluginInstanceView| action_lines_of_instance(p),
    );
    let mut i: usize = 0;
    assert(texts_of(out@) =~= concat_all(per_instance.take(0)));
    while i < registry.plugin_instances.len()
        invariant
            i <= registry.plugin_instances.len(),
            per_instance == registry@.map_values(
                |p: PluginInstanceView| action_lines_of_instance(p),
            ),
            per_instance.len() == registry.plugin_instances.len(),
            texts_of(out@) == concat_all(per_instance.take(i as int)),
        decreases registry.plugin_instances.len() - i,
    {
        let instance = &registry.plugin_instances[i];
        let ghost before = texts_of(out@);
        let ghost per_module = instance@.modules.map_values(
            |m: ModuleView| action_lines_of_module(m),
        );
        let mut j: usize = 0;
        assert(texts_of(out@) =~= before + concat_all(per_module.take(0)));
        while j < instance.modules.len()
            invariant
                j <= instance.modules.len(),
                per_module == instance@.modules.map_values(
                    |m: ModuleView| action_lines_of_module(m),
                ),
                per_module.len() == instance.modules.len(),
                texts_of(out@) == before + concat_all(per_module.take(j as int)),
            decreases instance.modules.len() - j,
        {
            instance.modules[j].push_action_lines(&mut out);
            proof {
                assert(instance@.modules[j as int] == instance.modules@[j as int]@);
                lemma_concat_all_step(per_module, j as int);
                assert(texts_of(out@) =~= before + concat_all(per_module.take(j + 1)));
            }
            j += 1;
        }
        proof {
            assert(per_module.take(instance.modules.len() as int) =~= per_module);
            assert(registry@[i as int] == registry.plugin_instances@[i as int]@);
            lemma_concat_all_step(per_instance, i as int);
        }
        i += 1;
    }
    assert(per_instance.take(registry.plugin_instances.len() as int) =~= per_instance);
    out
}

/// One line for each module, in registration order, that gives its status.
pub fn list_statuses(registry: &Registry) -> (r: Vec<String>)
    ensures
        texts_of(r@) == status_lines(registry@),
{
    let mut out: Vec<String> = Vec::new();
    let ghost per_instance = registry@.map_values(
        |p: PluginInstanceView| status_lines_of_instance(p),
    );
    let mut i: usize = 0;
    assert(texts_of(out@) =~= concat_all(per_instance.take(0)));
    while i < registry.plugin_instances.len()
        invariant
            i <= registry.plugin_instances.len(),
            per_instance == registry@.map_values(
                |p: PluginInstanceView| status_lines_of_instance(p),
            ),
            per_instance.len() == registry.plugin_instances.len(),
            texts_of(out@) == concat_all(per_instance.take(i as int)),
        decreases registry.plugin_instances.len() - i,
    {
        let instance = &registry.plugin_instances[i];
        let ghost before = texts_of(out@);
        let ghost lines = status_lines_of_instance(instance@);
        let mut j: usize = 0;
        assert(texts_of(out@) =~= before + lines.take(0));
        while j < instance.modules.len()
            invariant
                j <= instance.modules.len(),
                lines == status_lines_of_instance(instance@),
                lines.len() == instance.modules.len(),
                texts_of(out@) == before + lines.take(j as int),
            decreases instance.modules.len() - j,
        {
            let line = instance.modules[j].write_status_line();
            let ghost had = out@;
            out.push(line);
            proof {
                assert(instance@.modules[j as int] == instance.modules@[j as int]@);
                assert(line@ == lines[j as int]);
                lemma_texts_of_push(had, line);
                assert((before + lines.take(j as int)).push(lines[j as int]) =~= before
                    + lines.take(j + 1));
            }
            j += 1;
        }
        proof {
            assert(lines.take(instance.modules.len() as int) =~= lines);
            assert(registry@[i as int] == registry.plugin_instances@[i as int]@);
            lemma_concat_all_step(per_instance, i as int);
        }
        i += 1;
    }
    assert(per_instance.take(registry.plugin_instances.len() as int) =~= per_instance);
    out
}

/// The state of every plugin instance and module, as clients are sent it.
pub fn system_info(registry: &Registry) -> (r: SystemInfo)
    ensures
        r@ == snapshot(registry@),
{
    let mut plugin_instances: Vec<PluginInstanceInfo> = Vec::new();
    let mut i: usize = 0;
    while i < registry.plugin_instances.len()
        invariant
            i <= registry.plugin_instances.len(),
            plugin_instances.len() == i,
            registry@.len() == registry.plugin_instances.len(),
            forall|n: int| 0 <= n < i ==> (#[trigger] plugin_instances@[n])@ == snapshot(registry@)[n],
        decreases registry.plugin_instances.len() - i,
    {
        let p = registry.plugin_instances[i].info();
        assert(registry@[i as int] == registry.plugin_instances@[i as int]@);
        plugin_instances.push(p);
        i += 1;
    }
    let r = SystemInfo { plugin_instances };
    assert(r@ =~= snapshot(registry@));
    r
}

/// Resolves the action that an identifier names to the callback to invoke.
pub fn call_action(registry: &Registry, identifier: &ActionIdentifier) -> (r: Result<
    CallbackId,
    RegistryError,
>)
    ensures
        match r {
            Ok(key) => lookup_action(
                registry@,
                identifier.plugin_instance@,
                identifier.module@,
                identifier.action@,
            ) matches Some(a) && a.key == key,
            Err(e) => {
                &&& lookup_action(
                    registry@,
                    identifier.plugin_instance@,
                    identifier.module@,
                    identifier.action@,
                ) is None
                &&& e@ == action_lookup_error(
                    registry@,
                    identifier.plugin_instance@,
                    identifier.module@,
                    identifier.action@,
                )
            },
        },
{
    let (i, j) = match registry.locate_module(&identifier.plugin_instance, &identifier.module) {
        Ok(place) => place,
        Err(e) => {
            return Err(e);
        },
    };
    let module = &registry.plugin_instances[i].modules[j];
    match module.action_position(&identifier.action) {
        Some(k) => {
            assert(module@.actions[k as int] == module.actions@[k as int]@);
            Ok(module.actions[k].key)
        },
        None => Err(RegistryError::NoAction(identifier.action.clone())),
    }
}

/// Resolves the action that a text of the form
/// `plugin_instance::module::action` names to the callback to invoke.
pub fn call_action_string(registry: &Registry, action_string: &str) -> (r: Result<
    CallbackId,
    RegistryError,
>)
    ensures
        match r {
            Ok(key) => resolve_action_text(registry@, action_string@) == Ok::<
                CallbackId,
                RegistryErrorView,
            >(key),
            Err(e) => resolve_action_text(registry@, action_string@) == Err::<
                CallbackId,
                RegistryErrorView,
            >(e@),
        },
{
    match ActionIdentifier::from_str(action_string) {
        None => Err(RegistryError::MalformedActionIdentifier(String::from_str(action_string))),
        Some(identifier) => call_action(registry, &identifier),
    }
}

} // verus!
