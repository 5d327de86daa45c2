use telekinesis::events::{decimal, int_to_text};
use telekinesis::{
    tk_close, tk_connect_with_settings, tk_get, tk_get_device_capabilities,
    tk_get_device_connected, tk_get_devices, tk_process_events, tk_scan_for_devices,
    tk_settings_get_enabled, tk_settings_get_events, tk_settings_set_enabled,
    tk_settings_set_events, tk_stop, tk_stop_all, tk_vibrate, Actuator, Capability, Speed,
    Task, Telekinesis, TkAction, TkConnectionEvent, TkDeviceSettings, TkDuration, TkParams,
    TkSettings, ERROR_HANDLE,
};

fn scalar(name: &str, capability: Capability) -> (String, Vec<Actuator>) {
    (
        String::from(name),
        vec![Actuator {
            identifier: String::from(name),
            device: String::from(name),
            capability,
        }],
    )
}

fn linear(name: &str) -> (String, Vec<Actuator>) {
    scalar(name, Capability::Linear)
}

fn enabled(name: &str, events: &[&str]) -> TkDeviceSettings {
    TkDeviceSettings {
        actuator_id: String::from(name),
        enabled: true,
        events: events.iter().map(|e| String::from(*e)).collect(),
    }
}

/// A controller with the given devices connected and all of them enabled.
fn wait_for_connection(devices: Vec<(String, Vec<Actuator>)>) -> Telekinesis {
    let settings = TkSettings {
        devices: devices.iter().map(|(n, _)| enabled(n, &[])).collect(),
    };
    let mut tk = Telekinesis::connect(settings);
    tk.on_connected();
    for (name, actuators) in devices {
        tk.on_device_added(name, actuators);
    }
    tk
}

/// The actuators that got a non-zero write over a few ticks.
fn vibrated(tk: &mut Telekinesis) -> Vec<String> {
    let mut hit: Vec<String> = vec![];
    for now in [0u64, 1, 2] {
        for w in tk.tick(now) {
            if w.value > 0 && !hit.contains(&w.actuator) {
                hit.push(w.actuator);
            }
        }
    }
    hit
}

fn demo_devices() -> Vec<(String, Vec<Actuator>)> {
    vec![
        scalar("vib1", Capability::Vibrate),
        scalar("inflate2", Capability::Inflate),
        scalar("vib3", Capability::Vibrate),
        linear("lin4"),
        scalar("osc5", Capability::Oscillate),
        scalar("constrict6", Capability::Constrict),
        scalar("rot7", Capability::Rotate),
    ]
}

#[test]
fn test_connection_assert_devices_connect() {
    let tk = wait_for_connection(vec![
        scalar("vib1", Capability::Vibrate),
        scalar("vib2", Capability::Inflate),
    ]);
    assert_eq!(tk.get_device_names().len(), 2, "Enough devices connected");
    assert!(
        tk.get_device_names().contains(&String::from("vib1")),
        "Contains name vib1"
    );
    assert!(
        tk.get_device_names().contains(&String::from("vib2")),
        "Contains name vib2"
    );
}

#[test]
fn vibrate_all_demo_only_vibrates_vibrators() {
    let mut tk = wait_for_connection(demo_devices());
    tk.vibrate_all(Speed::new(100), TkDuration::from_millis(1));
    let hit = vibrated(&mut tk);
    assert!(hit.contains(&String::from("vib1")));
    assert!(!hit.contains(&String::from("lin4")));
    assert!(!hit.contains(&String::from("rot7")));
}

#[test]
fn vibrate_all_only_vibrates_vibrators() {
    let mut tk = wait_for_connection(vec![
        scalar("vib1", Capability::Vibrate),
        scalar("vib2", Capability::Inflate),
    ]);
    tk.vibrate_all(Speed::new(100), TkDuration::from_millis(1));
    let hit = vibrated(&mut tk);
    assert_eq!(hit, vec![String::from("vib1")]);
}

#[test]
fn vibrate_select_non_existing_devices() {
    let mut tk = wait_for_connection(vec![scalar("vib1", Capability::Vibrate)]);
    tk.vibrate_names(
        Speed::max(),
        TkDuration::from_millis(1),
        vec![String::from("does not exist")],
    );
    assert!(vibrated(&mut tk).is_empty());
}

#[test]
fn vibrate_select_single_device() {
    let mut tk = wait_for_connection(vec![scalar("vib1", Capability::Vibrate)]);
    tk.vibrate_names(Speed::max(), TkDuration::from_millis(1), vec![String::from("vib1")]);
    assert_eq!(vibrated(&mut tk), vec![String::from("vib1")]);
}

#[test]
fn vibrate_multiple_existing_devices_vibrate() {
    let mut tk = wait_for_connection(vec![
        scalar("vib1", Capability::Vibrate),
        scalar("vib2", Capability::Vibrate),
        scalar("vib3", Capability::Vibrate),
    ]);
    tk.vibrate_names(
        Speed::max(),
        TkDuration::from_millis(1),
        vec![String::from("vib1"), String::from("vib3")],
    );
    let hit = vibrated(&mut tk);
    assert!(hit.contains(&String::from("vib1")));
    assert!(hit.contains(&String::from("vib3")));
    assert!(!hit.contains(&String::from("vib2")));
}

#[test]
fn vibrate_names_ignores_case_and_blanks() {
    let mut tk = wait_for_connection(vec![scalar("vib1", Capability::Vibrate)]);
    tk.vibrate_names(Speed::max(), TkDuration::Infinite, vec![String::from("  VIB1 ")]);
    assert_eq!(vibrated(&mut tk), vec![String::from("vib1")]);
}

#[test]
fn linear_actuator_named_explicitly_is_not_vibrated() {
    let mut tk = wait_for_connection(vec![
        scalar("vib1", Capability::Vibrate),
        linear("lin2"),
    ]);
    tk.vibrate_names(Speed::max(), TkDuration::Infinite, vec![String::from("lin2")]);
    let mut writes = 0;
    for now in [0u64, 5, 10] {
        writes += tk.tick(now).iter().filter(|w| w.actuator == "lin2").count();
    }
    assert_eq!(writes, 0);
}

#[test]
fn disabled_actuator_is_not_vibrated() {
    let mut tk = wait_for_connection(vec![scalar("vib1", Capability::Vibrate)]);
    tk.settings.set_enabled("vib1", false);
    tk.vibrate_all(Speed::max(), TkDuration::Infinite);
    assert!(vibrated(&mut tk).is_empty());
}

#[test]
fn event_tags_select_devices() {
    let settings = TkSettings {
        devices: vec![enabled("vib1", &["vaginal"]), enabled("vib2", &["anal"])],
    };
    let mut tk = Telekinesis::connect(settings);
    tk.on_device_added(String::from("vib1"), scalar("vib1", Capability::Vibrate).1);
    tk.on_device_added(String::from("vib2"), scalar("vib2", Capability::Vibrate).1);
    tk.vibrate(Speed::new(50), TkDuration::Infinite, vec![String::from(" Anal")]);
    assert_eq!(vibrated(&mut tk), vec![String::from("vib2")]);
}

#[test]
fn params_from_input_and_filter() {
    let devices = vec![
        enabled("vib1", &["a"]),
        TkDeviceSettings { actuator_id: String::from("vib2"), enabled: false, events: vec![] },
        enabled("lin3", &[]),
    ];
    let p = TkParams::from_input(vec![], Task::Constant(Speed::max()), &devices);
    assert_eq!(p.selector, vec![String::from("vib1"), String::from("lin3")]);
    let acts = vec![
        scalar("vib1", Capability::Vibrate).1.remove(0),
        scalar("vib2", Capability::Vibrate).1.remove(0),
        linear("lin3").1.remove(0),
    ];
    assert_eq!(p.filter_devices(&acts, &[Capability::Vibrate]), vec![0]);
    assert_eq!(
        p.filter_devices(&acts, &[Capability::Vibrate, Capability::Linear]),
        vec![0, 2]
    );
}

#[test]
fn get_device_capabilities() {
    let tk = wait_for_connection(vec![
        scalar("vib1", Capability::Vibrate),
        scalar("vib2", Capability::Constrict),
        linear("lin2"),
    ]);
    assert!(
        tk.get_device_capabilities("not exist").is_empty(),
        "Non existing device returns empty list"
    );
    assert!(
        tk.get_device_capabilities("vib2").is_empty(),
        "Unsupported capability is not returned"
    );
    assert!(
        tk.get_device_capabilities("lin2").is_empty(),
        "Unsupported capability is not returned"
    );
    assert_eq!(
        tk.get_device_capabilities("vib1").first().unwrap(),
        &String::from("Vibrate"),
        "vibrator returns vibrate"
    );
}

#[test]
fn get_device_connected() {
    let tk = wait_for_connection(vec![scalar("existing", Capability::Vibrate)]);
    assert!(tk.get_device_connected("existing"), "Existing device returns true");
    assert_eq!(
        tk.get_device_connected("not existing"),
        false,
        "Non-existing device returns false"
    );
}

#[test]
fn removed_device_stays_listed_but_disconnected() {
    let mut tk = wait_for_connection(vec![scalar("vib1", Capability::Vibrate)]);
    tk.on_device_removed(String::from("vib1"));
    assert!(!tk.get_device_connected("vib1"));
    assert_eq!(tk.get_device_names(), vec![String::from("vib1")]);
}

#[test]
fn events_are_queued_and_polled_in_order() {
    let mut tk = wait_for_connection(vec![scalar("vib1", Capability::Vibrate)]);
    let h = tk.vibrate_all(Speed::max(), TkDuration::Infinite);
    assert!(tk.stop(h));
    let _ = tk.tick(0);
    let evs = tk.process_next_events();
    assert_eq!(evs.len(), 3);
    assert_eq!(evs[0].serialize_papyrus(), "Connected");
    assert_eq!(evs[1].serialize_papyrus(), "DeviceAdded|vib1");
    assert_eq!(evs[2].serialize_papyrus(), "TaskCancelled|0");
    assert!(tk.get_next_event().is_none());
    assert!(matches!(
        TkConnectionEvent::TaskCompleted(1234).serialize_papyrus().as_str(),
        "TaskCompleted|1234"
    ));
}

#[test]
fn commands_go_to_the_hardware_layer() {
    let mut tk = Telekinesis::connect(TkSettings::new());
    assert!(tk.scan_for_devices());
    assert!(tk.stop_scan());
    tk.disconnect();
    assert_eq!(
        tk.take_commands(),
        vec![TkAction::Scan, TkAction::StopScan, TkAction::Disconnect]
    );
    assert!(tk.take_commands().is_empty());
}

#[test]
fn slot_functions_without_controller() {
    let mut slot: Option<Telekinesis> = None;
    assert!(!tk_scan_for_devices(&mut slot));
    assert_eq!(tk_vibrate(&mut slot, 50, TkDuration::Infinite, vec![]), ERROR_HANDLE);
    assert!(!tk_stop(&mut slot, 0));
    assert!(!tk_stop_all(&mut slot));
    assert!(tk_get_devices(&slot).is_empty());
    assert_eq!(tk_get(&slot, "connection.status"), "");
    assert!(!tk_get_device_connected(&slot, "x"));
    assert!(tk_get_device_capabilities(&slot, "x").is_empty());
    assert!(tk_process_events(&mut slot).is_empty());
    assert!(!tk_settings_get_enabled(&slot, "x"));
    assert!(tk_settings_get_events(&slot, "x").is_empty());
    assert!(!tk_close(&mut slot));
}

#[test]
fn slot_functions_with_controller() {
    let mut slot: Option<Telekinesis> = None;
    assert!(tk_connect_with_settings(&mut slot, TkSettings::new()));
    assert_eq!(tk_get(&slot, "connection.status"), "Not Connected");
    assert_eq!(tk_get(&slot, "something.else"), "");
    tk_settings_set_enabled(&mut slot, "vib1", true);
    tk_settings_set_events(&mut slot, "vib1", vec![String::from("boss")]);
    assert!(tk_settings_get_enabled(&slot, "vib1"));
    assert_eq!(tk_settings_get_events(&slot, "vib1"), vec![String::from("boss")]);
    slot.as_mut()
        .unwrap()
        .on_device_added(String::from("vib1"), scalar("vib1", Capability::Vibrate).1);
    assert_eq!(tk_get_devices(&slot), vec![String::from("vib1")]);
    assert!(tk_get_device_connected(&slot, "vib1"));
    assert_eq!(tk_get_device_capabilities(&slot, "vib1"), vec![String::from("Vibrate")]);
    let h = tk_vibrate(&mut slot, 250, TkDuration::Infinite, vec![String::from("BOSS")]);
    assert_eq!(h, 0);
    let writes = slot.as_mut().unwrap().tick(0);
    assert_eq!(writes.len(), 1);
    assert_eq!(writes[0].value, 100);
    assert!(tk_stop(&mut slot, h));
    let _ = slot.as_mut().unwrap().tick(1);
    assert_eq!(
        tk_process_events(&mut slot),
        vec![String::from("DeviceAdded|vib1"), String::from("TaskCancelled|0")]
    );
    assert!(tk_close(&mut slot));
    assert!(slot.is_none());
}

#[test]
fn full_event_queue_drops_newest() {
    let mut q = telekinesis::EventQueue::new(1);
    assert!(q.push(TkConnectionEvent::Connected));
    assert!(!q.push(TkConnectionEvent::DeviceAdded(String::from("x"))));
    let got = q.poll(10);
    assert_eq!(got.len(), 1);
    assert!(matches!(got[0], TkConnectionEvent::Connected));
}

#[test]
fn registry_lists_and_finds_actuators() {
    let tk = wait_for_connection(vec![
        scalar("vib1", Capability::Vibrate),
        linear("lin2"),
    ]);
    assert_eq!(
        tk.list_actuator_identifiers(),
        vec![String::from("vib1"), String::from("lin2")]
    );
    let found = tk.registry.find_by_identifier("lin2").unwrap();
    assert_eq!(found.capability, Capability::Linear);
    assert!(tk.registry.find_by_identifier("nope").is_none());
}

#[test]
fn re_added_device_is_connected_again() {
    let mut tk = wait_for_connection(vec![scalar("vib1", Capability::Vibrate)]);
    tk.on_device_removed(String::from("vib1"));
    tk.on_device_added(String::from("vib1"), scalar("vib1", Capability::Vibrate).1);
    assert!(tk.get_device_connected("vib1"));
    assert_eq!(tk.list_actuator_identifiers(), vec![String::from("vib1")]);
}

#[test]
fn tasks_keep_their_targets_after_device_removal() {
    let mut tk = wait_for_connection(vec![scalar("vib1", Capability::Vibrate)]);
    tk.vibrate_all(Speed::new(40), TkDuration::Infinite);
    tk.on_device_removed(String::from("vib1"));
    let writes = tk.tick(0);
    assert_eq!(writes.len(), 1);
    assert_eq!(writes[0].actuator, "vib1");
    assert_eq!(writes[0].value, 40);
}

#[test]
fn status_and_event_texts() {
    assert_eq!(telekinesis::TkConnectionStatus::Connected.serialize_papyrus(), "Connected");
    assert_eq!(
        telekinesis::TkConnectionStatus::NotConnected.serialize_papyrus(),
        "Not Connected"
    );
    assert_eq!(
        telekinesis::TkConnectionStatus::Failed(String::from("no server")).serialize_papyrus(),
        "Failed|no server"
    );
    assert_eq!(
        TkConnectionEvent::DeviceRemoved(String::from("vib1")).serialize_papyrus(),
        "DeviceRemoved|vib1"
    );
    assert_eq!(decimal(0), "0");
    assert_eq!(decimal(4096), "4096");
    assert_eq!(int_to_text(-17), "-17");
    assert_eq!(int_to_text(i32::MIN), "-2147483648");
}

#[test]
fn connection_failure_is_reported() {
    let mut tk = Telekinesis::connect(TkSettings::new());
    tk.on_connection_failed(String::from("refused"));
    let mut slot = Some(tk);
    assert_eq!(tk_get(&slot, "connection.status"), "Failed|refused");
    assert_eq!(
        tk_process_events(&mut slot),
        vec![String::from("ConnectionFailure|refused")]
    );
}

#[test]
fn tk_stop_unknown_handle_is_not_found() {
    let mut slot: Option<Telekinesis> = None;
    tk_connect_with_settings(&mut slot, TkSettings { devices: vec![enabled("vib1", &[])] });
    slot.as_mut()
        .unwrap()
        .on_device_added(String::from("vib1"), scalar("vib1", Capability::Vibrate).1);
    let h = tk_vibrate(&mut slot, 50, TkDuration::Infinite, vec![]);
    assert!(!tk_stop(&mut slot, h + 1));
    assert_eq!(slot.as_mut().unwrap().tick(0)[0].value, 50);
    assert!(tk_stop(&mut slot, h));
    assert!(tk_stop(&mut slot, h));
    let writes = slot.as_mut().unwrap().tick(1);
    assert_eq!(writes.len(), 1);
    assert_eq!(writes[0].value, 0);
    assert!(!tk_stop(&mut slot, h));
    assert!(slot.as_mut().unwrap().tick(2).is_empty());
}

#[test]
fn after_close_calls_fail() {
    let mut slot: Option<Telekinesis> = None;
    tk_connect_with_settings(&mut slot, TkSettings::new());
    assert!(tk_close(&mut slot));
    assert!(!tk_scan_for_devices(&mut slot));
    assert!(!tk_stop_all(&mut slot));
    assert!(!tk_stop(&mut slot, 0));
    assert_eq!(tk_vibrate(&mut slot, 10, TkDuration::Infinite, vec![]), ERROR_HANDLE);
    assert!(slot.is_none());
}

#[test]
fn matching_ignores_case_on_both_sides() {
    let settings = TkSettings { devices: vec![enabled(" Vib1", &["Boss"])] };
    let mut tk = Telekinesis::connect(settings);
    tk.on_device_added(String::from("VIB1"), scalar("VIB1", Capability::Vibrate).1);
    tk.vibrate(Speed::max(), TkDuration::Infinite, vec![String::from("boss")]);
    assert_eq!(vibrated(&mut tk), vec![String::from("VIB1")]);
    tk.stop_all();
    let _ = tk.tick(10);
    tk.vibrate_names(Speed::max(), TkDuration::Infinite, vec![String::from("vib1")]);
    assert_eq!(vibrated(&mut tk), vec![String::from("VIB1")]);
}

#[test]
fn each_identifier_is_targeted_once() {
    let mut tk = wait_for_connection(vec![(
        String::from("dual"),
        vec![
            scalar("dual", Capability::Vibrate).1.remove(0),
            scalar("dual", Capability::Vibrate).1.remove(0),
        ],
    )]);
    tk.vibrate_all(Speed::new(30), TkDuration::Infinite);
    assert_eq!(tk.tick(0).len(), 1);
    let p = TkParams::from_input(vec![], Task::Constant(Speed::max()), &tk.settings.devices);
    assert_eq!(p.filter_devices(&tk.registry.actuators, &[Capability::Vibrate]), vec![0]);
}

#[test]
fn empty_event_names_are_dropped() {
    assert_eq!(
        telekinesis::read_input_string(&[String::from(""), String::from("a"), String::from("")]),
        vec![String::from("a")]
    );
    let mut slot: Option<Telekinesis> = None;
    tk_connect_with_settings(&mut slot, TkSettings::new());
    tk_settings_set_events(&mut slot, "vib1", vec![String::from(""), String::from("boss")]);
    assert_eq!(tk_settings_get_events(&slot, "vib1"), vec![String::from("boss")]);
}

#[test]
fn textual_settings_round_trip() {
    let mut slot: Option<Telekinesis> = None;
    tk_connect_with_settings(&mut slot, TkSettings::new());
    assert!(telekinesis::tk_settings_set(&mut slot, "devices.enabled.vib1", "true"));
    assert!(telekinesis::tk_settings_set(&mut slot, "devices.events.vib1", "Boss, Anal"));
    assert!(!telekinesis::tk_settings_set(&mut slot, "devices.enabled.vib1", "maybe"));
    assert!(!telekinesis::tk_settings_set(&mut slot, "log.level", "debug"));
    assert!(tk_settings_get_enabled(&slot, "vib1"));
    assert_eq!(
        tk_settings_get_events(&slot, "vib1"),
        vec![String::from("boss"), String::from("anal")]
    );
    let lines = slot.as_ref().unwrap().settings.to_lines();
    assert_eq!(
        lines,
        vec![
            String::from("devices.enabled.vib1=true"),
            String::from("devices.events.vib1=boss,anal")
        ]
    );
    let mut loaded = TkSettings::new();
    for line in &lines {
        assert!(loaded.load_line(line));
    }
    assert!(!loaded.load_line("no equals sign"));
    assert_eq!(loaded.to_lines(), lines);
    let mut none: Option<Telekinesis> = None;
    assert!(!telekinesis::tk_settings_set(&mut none, "devices.enabled.vib1", "true"));
}
