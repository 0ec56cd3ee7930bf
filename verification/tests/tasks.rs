use vrc_osc_manager::config::{
    config_file_path, load_failure, resolve_loaded, ConfigStore, DarkLight, LoadOutcome,
    OscConfig, RootConfig, SystemTheme,
};
use vrc_osc_manager::errors::CoreError;
use vrc_osc_manager::lifecycle::Command;
use vrc_osc_manager::monitor::{new_system, VrchatMonitor};
use vrc_osc_manager::platform::get_platform;
use vrc_osc_manager::tasks::{
    rgba_to_argb, route_app_event, route_ui_event, AppEvent, IconKind, TrayProperty, TrayState,
    UiEvent,
};

#[test]
fn activity_edges_drive_bulk_start_and_stop() {
    let d = route_app_event(AppEvent::VrchatStarted);
    assert!(matches!(d.command, Some(Command::StartPlugins)));
    assert_eq!(d.tray, Some(TrayProperty::Running(true)));
    assert!(!d.show_window && !d.request_shutdown);

    let d = route_app_event(AppEvent::VrchatStopped);
    assert!(matches!(d.command, Some(Command::StopPlugins)));
    assert_eq!(d.tray, Some(TrayProperty::Running(false)));

    let d = route_app_event(AppEvent::AppWindowRequested);
    assert!(d.command.is_none() && d.tray.is_none() && d.show_window && !d.request_shutdown);

    let d = route_app_event(AppEvent::ShutdownRequested);
    assert!(d.command.is_none() && d.tray.is_none() && !d.show_window && d.request_shutdown);
}

#[test]
fn ui_events_map_to_commands_and_platform_calls() {
    let d = route_ui_event(UiEvent::PluginToggle("watch".to_string(), true), SystemTheme::Light);
    match d.command {
        Some(Command::EnablePlugin(id)) => assert_eq!(id, "watch"),
        _ => panic!("a toggle on must enable"),
    }
    let d = route_ui_event(UiEvent::PluginToggle("watch".to_string(), false), SystemTheme::Light);
    match d.command {
        Some(Command::DisablePlugin(id)) => assert_eq!(id, "watch"),
        _ => panic!("a toggle off must disable"),
    }
    let d = route_ui_event(UiEvent::TrayIconsToggle(DarkLight::Dark), SystemTheme::Light);
    assert_eq!(d.tray, Some(TrayProperty::DarkMode(true)));
    assert_eq!(d.persist_dark_light, Some(DarkLight::Dark));
    let d = route_ui_event(UiEvent::TrayIconsToggle(DarkLight::Light), SystemTheme::Dark);
    assert_eq!(d.tray, Some(TrayProperty::DarkMode(false)));
    // the system-following choice uses what the shell observed
    let d = route_ui_event(UiEvent::TrayIconsToggle(DarkLight::Default), SystemTheme::Light);
    assert_eq!(d.tray, Some(TrayProperty::DarkMode(false)));
    let d = route_ui_event(UiEvent::TrayIconsToggle(DarkLight::Default), SystemTheme::Unspecified);
    assert_eq!(d.tray, Some(TrayProperty::DarkMode(true)));
    let d = route_ui_event(UiEvent::AutoStartToggle(true), SystemTheme::Light);
    assert_eq!(d.set_autostart, Some(true));
    let d = route_ui_event(UiEvent::OpenLogsFolder, SystemTheme::Light);
    assert!(d.open_logs);
    let d = route_ui_event(UiEvent::StartPlugins, SystemTheme::Light);
    assert!(matches!(d.command, Some(Command::StartPlugins)));
    assert_eq!(d.tray, Some(TrayProperty::Running(true)));
}

#[test]
fn the_tray_state_picks_the_matching_icon() {
    let mut t = TrayState::new(true);
    assert_eq!(t.icon(), IconKind::DarkInactive);
    t.apply(TrayProperty::Running(true));
    assert_eq!(t.icon(), IconKind::DarkActive);
    t.apply(TrayProperty::DarkMode(false));
    assert_eq!(t.icon(), IconKind::LightActive);
    t.apply(TrayProperty::Running(false));
    assert_eq!(t.icon(), IconKind::LightInactive);
}

#[test]
fn icon_pixels_reorder_rgba_to_argb() {
    let data: Vec<u8> = vec![1, 2, 3, 4, 5, 6, 7, 8];
    let out = rgba_to_argb(&data);
    assert_eq!(out, vec![4, 1, 2, 3, 8, 5, 6, 7]);
}

#[test]
fn load_failures_fall_back_to_defaults() {
    let configured = RootConfig {
        osc: OscConfig { send_port: 9100 },
        dark_light: DarkLight::Dark,
        enabled_plugins: vec!["watch".to_string()],
    };
    let r = resolve_loaded(LoadOutcome::Loaded(configured));
    assert_eq!(r.osc.send_port, 9100);
    for outcome in [LoadOutcome::Missing, LoadOutcome::Unreadable, LoadOutcome::Malformed] {
        let r = resolve_loaded(outcome);
        assert_eq!(r.osc.send_port, 9000);
        assert_eq!(r.dark_light, DarkLight::Default);
        assert!(r.enabled_plugins.is_empty());
    }
}

#[test]
fn theme_choices_decide_exactly() {
    for system in [SystemTheme::Dark, SystemTheme::Light, SystemTheme::Unspecified] {
        // forced choices decide by themselves
        assert!(DarkLight::Dark.dark_mode(system));
        assert!(!DarkLight::Light.dark_mode(system));
    }
    // the system-following choice goes by the observed theme, with
    // darkness as the fallback when the system expresses no preference
    assert!(DarkLight::Default.dark_mode(SystemTheme::Dark));
    assert!(!DarkLight::Default.dark_mode(SystemTheme::Light));
    assert!(DarkLight::Default.dark_mode(SystemTheme::Unspecified));
}

#[test]
fn config_store_mutations_keep_unrelated_fields() {
    let mut store = ConfigStore::new(
        RootConfig::default(),
        "/cfg/config.toml".to_string(),
        Some(5),
    );
    store.set_enabled_plugins(vec!["watch".to_string()]);
    assert_eq!(store.read().enabled_plugins, vec!["watch".to_string()]);
    assert_eq!(store.read().osc.send_port, 9000);
    store.set_dark_light(DarkLight::Light);
    assert_eq!(store.read().dark_light, DarkLight::Light);
    assert_eq!(store.read().enabled_plugins, vec!["watch".to_string()]);
    assert_eq!(store.path, "/cfg/config.toml");
    assert_eq!(store.debounce, Some(5));
}

#[test]
fn the_monitor_reports_no_edge_for_an_absent_process() {
    let mut sys = new_system();
    let mut monitor = VrchatMonitor::new();
    // a process name that surely does not run: no edge, state unchanged
    let event = monitor.poll(&mut sys, "no-such-process-exists-here");
    assert!(event.is_none());
    assert!(!monitor.is_running);
    let event = monitor.poll(&mut sys, "no-such-process-exists-here");
    assert!(event.is_none());
}

#[test]
fn load_failures_carry_their_error_condition() {
    assert_eq!(load_failure(&LoadOutcome::Unreadable), Some(CoreError::ConfigIo));
    assert_eq!(load_failure(&LoadOutcome::Malformed), Some(CoreError::ConfigParse));
    assert_eq!(load_failure(&LoadOutcome::Missing), None);
    assert_eq!(load_failure(&LoadOutcome::Loaded(RootConfig::default())), None);
}

#[test]
fn the_autostart_entry_names_the_executable() {
    let platform = get_platform();
    let entry = platform.desktop_entry("/usr/bin/vrc-osc-manager");
    assert_eq!(
        entry,
        "[Desktop Entry]\nType=Application\nName=VRC OSC Manager\nExec=/usr/bin/vrc-osc-manager\nX-GNOME-Autostart-enabled=true\n"
    );
    assert_eq!(platform.auto_start_file_name(), "vrc-osc-manager.desktop");
}

#[test]
fn observed_presence_edges_drive_the_events() {
    let mut monitor = VrchatMonitor::new();
    assert_eq!(monitor.observe(false), None);
    assert_eq!(monitor.observe(true), Some(AppEvent::VrchatStarted));
    assert_eq!(monitor.observe(true), None);
    assert_eq!(monitor.observe(false), Some(AppEvent::VrchatStopped));
    assert_eq!(monitor.observe(false), None);
}

#[test]
fn config_files_are_laid_out_per_owner() {
    assert_eq!(config_file_path("/home/u/.config/vrc", None, None), "/home/u/.config/vrc/config.toml");
    assert_eq!(
        config_file_path("/home/u/.config/vrc", Some("pishock"), None),
        "/home/u/.config/vrc/plugins/pishock/config.toml"
    );
    assert_eq!(
        config_file_path("/home/u/.config/vrc", Some("pishock"), Some("state")),
        "/home/u/.config/vrc/plugins/pishock/state.toml"
    );
}
