use neopult::plugin_system::{
    call_action, call_action_string, list_actions, list_statuses, prefix_msg, system_info,
    ActionIdentifier,
    ActionInfo, CleanupCall, Module, ModuleIdentifier, ModuleInfo, Notification, PluginInstance,
    PluginInstanceInfo, Registry, RegistryError, SystemInfo, SEPARATOR,
};

fn s(text: &str) -> String {
    text.to_string()
}

fn module_id(plugin_instance: &str, module: &str) -> ModuleIdentifier {
    ModuleIdentifier::new(s(plugin_instance), s(module))
}

fn action_id(plugin_instance: &str, module: &str, action: &str) -> ActionIdentifier {
    ActionIdentifier { plugin_instance: s(plugin_instance), module: s(module), action: s(action) }
}

fn sample() -> Registry {
    let mut r = Registry::new();
    r.register_plugin_instance(s("p"), Some(90)).unwrap();
    r.register_module(&s("p"), s("m"), Some(s("Module M"))).unwrap();
    r.register_action(&module_id("p", "m"), s("a1"), Some(s("First")), 1).unwrap();
    r.register_action(&module_id("p", "m"), s("a2"), None, 2).unwrap();
    r.register_plugin_instance(s("q"), None).unwrap();
    r.register_module(&s("q"), s("n"), None).unwrap();
    r.register_module(&s("q"), s("m"), None).unwrap();
    r.register_action(&module_id("q", "m"), s("a1"), None, 3).unwrap();
    r
}

#[test]
fn separator_is_two_colons() {
    assert_eq!(SEPARATOR, "::");
}

#[test]
fn identifiers_have_a_canonical_text() {
    assert_eq!(module_id("a", "b").to_string(), "a::b");
    assert_eq!(action_id("a", "b", "c").to_string(), "a::b::c");
    assert_eq!(action_id("", "", "").to_string(), "::::");
}

#[test]
fn action_identifier_from_text() {
    assert_eq!(ActionIdentifier::from_str("a::b::c"), Some(action_id("a", "b", "c")));
    assert_eq!(ActionIdentifier::from_str("::::"), Some(action_id("", "", "")));
    assert_eq!(ActionIdentifier::from_str("a:::b::c"), Some(action_id("a", ":b", "c")));
    assert_eq!(ActionIdentifier::from_str("a::b"), None);
    assert_eq!(ActionIdentifier::from_str("a::b::c::d"), None);
    assert_eq!(ActionIdentifier::from_str(""), None);
    assert_eq!(ActionIdentifier::from_str("a:b:c"), None);
}

#[test]
fn duplicate_names_are_turned_down() {
    let mut r = sample();
    assert_eq!(
        r.register_plugin_instance(s("p"), None),
        Err(RegistryError::DuplicatePluginInstance(s("p")))
    );
    assert_eq!(
        r.register_module(&s("p"), s("m"), None),
        Err(RegistryError::DuplicateModule(s("m")))
    );
    assert_eq!(
        r.register_action(&module_id("p", "m"), s("a1"), None, 9),
        Err(RegistryError::DuplicateAction(s("a1")))
    );
    assert_eq!(list_actions(&r), vec![s("p::m::a1"), s("p::m::a2"), s("q::m::a1")]);
    assert_eq!(call_action(&r, &action_id("p", "m", "a1")), Ok(1));
}

#[test]
fn registering_below_something_unknown_fails() {
    let mut r = sample();
    assert_eq!(
        r.register_module(&s("x"), s("m"), None),
        Err(RegistryError::NoPluginInstance(s("x")))
    );
    assert_eq!(
        r.register_action(&module_id("x", "m"), s("a"), None, 1),
        Err(RegistryError::NoPluginInstance(s("x")))
    );
    assert_eq!(
        r.register_action(&module_id("p", "x"), s("a"), None, 1),
        Err(RegistryError::NoModule(s("x")))
    );
}

#[test]
fn same_name_in_another_scope_is_fine() {
    let r = sample();
    assert_eq!(call_action(&r, &action_id("q", "m", "a1")), Ok(3));
    assert_eq!(call_action(&r, &action_id("p", "m", "a1")), Ok(1));
}

#[test]
fn cli_actions_listing() {
    let mut r = Registry::new();
    r.register_plugin_instance(s("p"), None).unwrap();
    r.register_module(&s("p"), s("m"), None).unwrap();
    r.register_action(&module_id("p", "m"), s("a1"), None, 1).unwrap();
    r.register_action(&module_id("p", "m"), s("a2"), None, 2).unwrap();
    assert_eq!(list_actions(&r).join("\n"), "p::m::a1\np::m::a2");
}

#[test]
fn statuses_are_listed_with_unknown_for_none() {
    let mut r = sample();
    r.set_status(&module_id("q", "n"), Some(s("running"))).unwrap();
    assert_eq!(
        list_statuses(&r),
        vec![s("p::m -- unknown"), s("q::n -- running"), s("q::m -- unknown")]
    );
    assert_eq!(list_statuses(&Registry::new()), Vec::<String>::new());
    assert_eq!(list_actions(&Registry::new()), Vec::<String>::new());
}

#[test]
fn call_action_names_what_is_missing() {
    let r = sample();
    assert_eq!(call_action(&r, &action_id("p", "m", "a2")), Ok(2));
    assert_eq!(
        call_action(&r, &action_id("x", "m", "a1")),
        Err(RegistryError::NoPluginInstance(s("x")))
    );
    assert_eq!(call_action(&r, &action_id("p", "x", "a1")), Err(RegistryError::NoModule(s("x"))));
    assert_eq!(call_action(&r, &action_id("p", "m", "x")), Err(RegistryError::NoAction(s("x"))));
    assert_eq!(call_action(&r, &action_id("q", "n", "a1")), Err(RegistryError::NoAction(s("a1"))));
}

#[test]
fn call_action_string_wants_three_parts() {
    let r = sample();
    assert_eq!(call_action_string(&r, "p::m::a1"), Ok(1));
    assert_eq!(
        call_action_string(&r, "p::m"),
        Err(RegistryError::MalformedActionIdentifier(s("p::m")))
    );
    assert_eq!(
        call_action_string(&r, "p::m::a1::"),
        Err(RegistryError::MalformedActionIdentifier(s("p::m::a1::")))
    );
    assert_eq!(call_action_string(&r, "p::m::zz"), Err(RegistryError::NoAction(s("zz"))));
}

#[test]
fn registry_error_messages() {
    assert_eq!(
        RegistryError::MalformedActionIdentifier(s("x")).message(),
        "malformed action identifier: \"x\""
    );
    assert_eq!(RegistryError::NoPluginInstance(s("x")).message(), "no plugin instance with name x");
    assert_eq!(RegistryError::NoModule(s("x")).message(), "no module with name x");
    assert_eq!(RegistryError::NoAction(s("x")).message(), "no action with name x");
    assert_eq!(
        RegistryError::DuplicatePluginInstance(s("x")).message(),
        "tried registering plugin instance with duplicate name x"
    );
    assert_eq!(
        RegistryError::DuplicateModule(s("x")).message(),
        "tried registering module with duplicate name x"
    );
    assert_eq!(
        RegistryError::DuplicateAction(s("x")).message(),
        "tried registering action with duplicate name x"
    );
}

#[test]
fn status_and_message_give_notifications() {
    let mut r = sample();
    let id = module_id("p", "m");
    assert_eq!(r.get_status(&id), Ok(None));
    assert_eq!(
        r.set_status(&id, Some(s("hit"))),
        Ok(Notification::ModuleStatusUpdate {
            module_identifier: module_id("p", "m"),
            new_status: Some(s("hit")),
        })
    );
    assert_eq!(r.get_status(&id), Ok(Some(s("hit"))));
    assert_eq!(
        r.set_message(&id, Some(s("hello"))),
        Ok(Notification::ModuleMessageUpdate {
            module_identifier: module_id("p", "m"),
            new_message: Some(s("hello")),
        })
    );
    assert_eq!(
        r.set_status(&id, None),
        Ok(Notification::ModuleStatusUpdate { module_identifier: module_id("p", "m"), new_status: None })
    );
    assert_eq!(r.get_status(&id), Ok(None));
    assert_eq!(r.set_status(&module_id("p", "x"), None), Err(RegistryError::NoModule(s("x"))));
    assert_eq!(r.set_message(&module_id("y", "m"), None), Err(RegistryError::NoPluginInstance(s("y"))));
    assert_eq!(r.get_status(&module_id("y", "m")), Err(RegistryError::NoPluginInstance(s("y"))));
}

#[test]
fn active_actions_show_in_the_snapshot() {
    let mut r = sample();
    let id = module_id("p", "m");
    let n = r.set_active_actions(&id, vec![s("a2"), s("a1")]).unwrap();
    assert_eq!(
        n,
        Notification::ModuleActiveActionsUpdate {
            module_identifier: module_id("p", "m"),
            new_active_actions: vec![s("a2"), s("a1")],
        }
    );
    let info = system_info(&r);
    assert_eq!(info.plugin_instances[0].modules[0].active_actions, vec![s("a2"), s("a1")]);
    assert!(info.plugin_instances[1].modules[1].active_actions.is_empty());
}

#[test]
fn setting_active_actions_twice_changes_nothing() {
    let mut r = sample();
    let id = module_id("p", "m");
    let first = r.set_active_actions(&id, vec![s("a1")]).unwrap();
    let once = system_info(&r);
    let second = r.set_active_actions(&id, vec![s("a1")]).unwrap();
    assert_eq!(first, second);
    assert_eq!(system_info(&r), once);
}

#[test]
fn active_actions_are_a_set_of_the_modules_actions() {
    let mut r = sample();
    let id = module_id("p", "m");
    let n = r.set_active_actions(&id, vec![s("a1"), s("ghost"), s("a1"), s("a2"), s("a1")]).unwrap();
    assert_eq!(
        n,
        Notification::ModuleActiveActionsUpdate {
            module_identifier: module_id("p", "m"),
            new_active_actions: vec![s("a1"), s("a2")],
        }
    );
    r.set_active_actions(&id, vec![]).unwrap();
    assert!(system_info(&r).plugin_instances[0].modules[0].active_actions.is_empty());
    assert_eq!(
        r.set_active_actions(&module_id("p", "zz"), vec![s("a1")]),
        Err(RegistryError::NoModule(s("zz")))
    );
}

#[test]
fn snapshot_holds_everything_but_the_callbacks() {
    let mut r = sample();
    r.set_status(&module_id("p", "m"), Some(s("on"))).unwrap();
    r.set_message(&module_id("q", "n"), Some(s("note"))).unwrap();
    r.set_active_actions(&module_id("p", "m"), vec![s("a2")]).unwrap();
    let expected = SystemInfo {
        plugin_instances: vec![
            PluginInstanceInfo {
                name: s("p"),
                modules: vec![ModuleInfo {
                    name: s("m"),
                    display_name: Some(s("Module M")),
                    actions: vec![
                        ActionInfo { name: s("a1"), display_name: Some(s("First")) },
                        ActionInfo { name: s("a2"), display_name: None },
                    ],
                    active_actions: vec![s("a2")],
                    status: Some(s("on")),
                    message: None,
                }],
            },
            PluginInstanceInfo {
                name: s("q"),
                modules: vec![
                    ModuleInfo {
                        name: s("n"),
                        display_name: None,
                        actions: vec![],
                        active_actions: vec![],
                        status: None,
                        message: Some(s("note")),
                    },
                    ModuleInfo {
                        name: s("m"),
                        display_name: None,
                        actions: vec![ActionInfo { name: s("a1"), display_name: None }],
                        active_actions: vec![],
                        status: None,
                        message: None,
                    },
                ],
            },
        ],
    };
    assert_eq!(system_info(&r), expected);
    assert_eq!(system_info(&Registry::new()), SystemInfo { plugin_instances: vec![] });
}

#[test]
fn cleanup_callbacks_in_registration_order() {
    let mut r = sample();
    r.register_plugin_instance(s("z"), Some(7)).unwrap();
    assert_eq!(
        r.cleanup_callbacks(),
        vec![
            CleanupCall { plugin_instance: s("p"), callback: 90 },
            CleanupCall { plugin_instance: s("z"), callback: 7 },
        ]
    );
    assert_eq!(Registry::new().cleanup_callbacks(), vec![]);
}

#[test]
fn log_lines_carry_the_owner_as_prefix() {
    let r = sample();
    let p = r.plugin_instance(&s("p")).unwrap();
    assert_eq!(p.name(), "p");
    assert_eq!(p.prefix_msg(s("started")), "[p] started");
    let m = r.module(&module_id("q", "n")).unwrap();
    assert_eq!(m.name(), "n");
    assert_eq!(m.prefix_msg(s("ready")), "[q::n] ready");
    assert!(r.plugin_instance(&s("nope")).is_none());
    assert!(r.module(&module_id("q", "zz")).is_none());
    assert_eq!(PluginInstance::new(s("solo"), None).prefix_msg(s("x")), "[solo] x");
    assert_eq!(prefix_msg("p::m", "x"), "[p::m] x");
    assert_eq!(Module::new(s("m"), s("p"), None).prefix_msg(s("x")), "[p::m] x");
}
