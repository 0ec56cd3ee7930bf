use vrc_osc_manager::errors::CoreError;
use vrc_osc_manager::lifecycle::{Command, PluginManager};

fn ids(v: &[&str]) -> Vec<String> {
    v.iter().map(|s| s.to_string()).collect()
}

fn manager(known: &[&str], enabled: &[&str]) -> PluginManager {
    PluginManager::new(ids(known), ids(enabled))
}

#[test]
fn unknown_enable_and_disable_leave_the_enabled_set_alone() {
    let mut m = manager(&["watch", "pishock"], &["watch"]);
    for _ in 0..3 {
        let eff = m.handle_command(Command::EnablePlugin("nope".to_string()));
        assert_eq!(eff.error, Some(CoreError::UnknownPlugin));
        assert!(eff.persist.is_none());
        assert!(eff.to_start.is_empty() && eff.to_stop.is_empty());
        let eff = m.handle_command(Command::DisablePlugin("nope".to_string()));
        assert_eq!(eff.error, Some(CoreError::UnknownPlugin));
        assert!(eff.persist.is_none());
        assert_eq!(m.enabled, ids(&["watch"]));
    }
}

#[test]
fn start_all_twice_is_idempotent() {
    let mut m = manager(&["watch", "pishock"], &["watch", "pishock"]);
    let first = m.handle_command(Command::StartPlugins);
    assert_eq!(first.to_start, ids(&["watch", "pishock"]));
    let running_after_first = m.running.clone();
    let second = m.handle_command(Command::StartPlugins);
    assert!(second.to_start.is_empty());
    assert_eq!(m.running, running_after_first);
}

#[test]
fn enable_while_inactive_persists_but_does_not_start() {
    let mut m = manager(&["watch", "pishock", "media_control"], &[]);
    let eff = m.handle_command(Command::EnablePlugin("watch".to_string()));
    assert!(eff.error.is_none());
    assert_eq!(eff.persist, Some(ids(&["watch"])));
    assert!(eff.to_start.is_empty());
    assert!(m.running.is_empty());
    // a later bulk start starts exactly the enabled plugin
    let eff = m.handle_command(Command::StartPlugins);
    assert_eq!(eff.to_start, ids(&["watch"]));
    assert_eq!(m.running, ids(&["watch"]));
    assert!(m.plugins_active);
}

#[test]
fn enable_while_active_starts_at_once() {
    let mut m = manager(&["watch", "pishock"], &[]);
    m.handle_command(Command::StartPlugins);
    let eff = m.handle_command(Command::EnablePlugin("pishock".to_string()));
    assert_eq!(eff.to_start, ids(&["pishock"]));
    assert_eq!(eff.persist, Some(ids(&["pishock"])));
    assert_eq!(m.running, ids(&["pishock"]));
}

#[test]
fn enable_twice_changes_nothing_further() {
    let mut m = manager(&["watch"], &[]);
    m.handle_command(Command::StartPlugins);
    let first = m.handle_command(Command::EnablePlugin("watch".to_string()));
    assert_eq!(first.to_start, ids(&["watch"]));
    let second = m.handle_command(Command::EnablePlugin("watch".to_string()));
    assert!(second.to_start.is_empty());
    assert_eq!(second.persist, Some(ids(&["watch"])));
    assert_eq!(m.running, ids(&["watch"]));
}

#[test]
fn disable_stops_and_unpersists() {
    let mut m = manager(&["watch", "pishock"], &["watch", "pishock"]);
    m.handle_command(Command::StartPlugins);
    let eff = m.handle_command(Command::DisablePlugin("watch".to_string()));
    assert!(eff.error.is_none());
    assert_eq!(eff.to_stop, ids(&["watch"]));
    assert_eq!(eff.persist, Some(ids(&["pishock"])));
    assert_eq!(m.running, ids(&["pishock"]));
    // a second disable has no further effect
    let again = m.handle_command(Command::DisablePlugin("watch".to_string()));
    assert!(again.to_stop.is_empty());
    assert_eq!(again.persist, Some(ids(&["pishock"])));
}

#[test]
fn stop_all_clears_the_running_set() {
    let mut m = manager(&["watch", "pishock"], &["watch", "pishock"]);
    m.handle_command(Command::StartPlugins);
    let eff = m.handle_command(Command::StopPlugins);
    assert_eq!(eff.to_stop, ids(&["watch", "pishock"]));
    assert!(m.running.is_empty());
    assert!(!m.plugins_active);
    // stopping again stops nothing more
    let again = m.handle_command(Command::StopPlugins);
    assert!(again.to_stop.is_empty());
}

#[test]
fn unknown_ids_in_the_enabled_set_are_skipped_at_bulk_start() {
    let mut m = manager(&["watch"], &["ghost", "watch"]);
    let eff = m.handle_command(Command::StartPlugins);
    assert_eq!(eff.to_start, ids(&["watch"]));
    assert!(eff.error.is_none());
    assert_eq!(m.running, ids(&["watch"]));
}

#[test]
fn new_deduplicates_its_inputs() {
    let m = manager(&["watch", "watch"], &["watch", "watch"]);
    assert_eq!(m.known, ids(&["watch"]));
    assert_eq!(m.enabled, ids(&["watch"]));
    assert!(!m.plugins_active);
}
