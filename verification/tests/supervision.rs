use vrc_osc_manager::errors::CoreError;
use vrc_osc_manager::supervision::{
    on_unit_completion, shutdown_condition, CompletionAction, SupervisionScope, UnitResult,
    UnitStatus,
};

#[test]
fn duplicate_unit_names_are_rejected() {
    let mut scope = SupervisionScope::new("root".to_string());
    assert!(scope.start_unit("watch".to_string(), false, Some(1)).is_ok());
    assert_eq!(
        scope.start_unit("watch".to_string(), false, Some(1)),
        Err(CoreError::DuplicateUnit)
    );
    assert_eq!(scope.start_scope("watch".to_string()), Err(CoreError::DuplicateUnit));
    assert_eq!(scope.units.len(), 1);
}

#[test]
fn shutdown_completes_within_the_timeout_despite_a_deaf_unit() {
    let mut scope = SupervisionScope::new("root".to_string());
    scope.start_unit("good".to_string(), false, Some(3)).unwrap();
    scope.start_unit("deaf".to_string(), false, None).unwrap();
    let (scope, completion, timed_out) = scope.shutdown(1000);
    assert_eq!(completion, 1000);
    assert!(timed_out, "the deaf unit raises the ShutdownTimeout condition");
    for u in &scope.units {
        assert!(matches!(u.status, UnitStatus::Completed(UnitResult::Cancelled)));
    }
    assert!(scope.cancelled);
}

#[test]
fn cooperative_units_finish_at_their_own_pace() {
    let mut scope = SupervisionScope::new("root".to_string());
    scope.start_unit("fast".to_string(), false, Some(2)).unwrap();
    scope.start_unit("slow".to_string(), false, Some(7)).unwrap();
    let (_, completion, timed_out) = scope.shutdown(1000);
    assert_eq!(completion, 7, "the scope completes when the slowest unit does");
    assert!(!timed_out);
}

#[test]
fn second_shutdown_is_idempotent() {
    let mut scope = SupervisionScope::new("root".to_string());
    scope.start_unit("u".to_string(), false, None).unwrap();
    let (scope, _, _) = scope.shutdown(10);
    let (again, completion, timed_out) = scope.shutdown(10);
    assert_eq!(completion, 0);
    assert!(!timed_out);
    assert!(again.cancelled);
}

#[test]
fn nested_scopes_shut_down_with_their_parent() {
    let mut root = SupervisionScope::new("root".to_string());
    root.start_scope("plugins".to_string()).unwrap();
    {
        let child = &mut root.scopes[0];
        child.start_unit("watch".to_string(), false, Some(4)).unwrap();
    }
    let (root, completion, timed_out) = root.shutdown(1000);
    assert_eq!(completion, 4);
    assert!(!timed_out);
    assert!(root.scopes[0].cancelled);
    assert!(matches!(
        root.scopes[0].units[0].status,
        UnitStatus::Completed(UnitResult::Cancelled)
    ));
}

#[test]
fn partial_shutdown_detaches_one_subtree_and_spares_siblings() {
    let mut root = SupervisionScope::new("root".to_string());
    root.start_scope("watch".to_string()).unwrap();
    root.start_scope("pishock".to_string()).unwrap();
    root.scopes[0].start_unit("ticker".to_string(), false, Some(2)).unwrap();
    root.scopes[1].start_unit("sender".to_string(), false, Some(3)).unwrap();
    let (completion, timed_out) = root.partial_shutdown(&vec!["watch".to_string()], 1000);
    assert_eq!(completion, 2);
    assert!(!timed_out);
    // the subtree is gone, its sibling untouched
    assert_eq!(root.scopes.len(), 1);
    assert_eq!(root.scopes[0].name, "pishock");
    assert!(matches!(root.scopes[0].units[0].status, UnitStatus::Running));
    // the name is free again
    assert!(root.start_scope("watch".to_string()).is_ok());
}

#[test]
fn stop_unit_frees_the_name() {
    let mut scope = SupervisionScope::new("root".to_string());
    scope.start_unit("watch".to_string(), false, Some(1)).unwrap();
    let done = scope.stop_unit("watch", 10).expect("the unit exists");
    assert_eq!(done, (1, false));
    assert!(scope.units.is_empty());
    assert!(scope.start_unit("watch".to_string(), false, Some(1)).is_ok());
    assert!(scope.stop_unit("ghost", 10).is_none());
}

#[test]
fn core_unit_failures_escalate_and_plugin_failures_are_isolated() {
    assert_eq!(
        on_unit_completion(true, UnitResult::Failure),
        CompletionAction::EscalateFullShutdown
    );
    assert_eq!(
        on_unit_completion(true, UnitResult::Success),
        CompletionAction::EscalateFullShutdown
    );
    assert_eq!(on_unit_completion(true, UnitResult::Cancelled), CompletionAction::Isolate);
    assert_eq!(on_unit_completion(false, UnitResult::Failure), CompletionAction::Isolate);
    assert_eq!(on_unit_completion(false, UnitResult::Success), CompletionAction::Isolate);
}

#[test]
fn force_cancellation_is_logged_as_a_timeout_condition() {
    let mut scope = SupervisionScope::new("root".to_string());
    scope.start_unit("deaf".to_string(), false, None).unwrap();
    let (_, _, timed_out) = scope.shutdown(10);
    assert_eq!(shutdown_condition(timed_out), Some(CoreError::ShutdownTimeout));
    assert_eq!(shutdown_condition(false), None);
}
