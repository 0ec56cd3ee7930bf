use vrc_osc_manager::persist::{PersistenceQueue, WriteConfigRequest};

fn req(path: &str, config: &str, debounce: Option<u64>) -> WriteConfigRequest {
    WriteConfigRequest { path: path.to_string(), config: config.to_string(), debounce }
}

#[test]
fn undebounced_write_flushes_at_once() {
    let mut q = PersistenceQueue::new();
    let flush = q.enqueue(0, req("/cfg/root.toml", "a = 1", None));
    let r = flush.expect("an undebounced write is handed back for immediate storage");
    assert_eq!(r.config, "a = 1");
    assert!(q.entries.is_empty());
}

#[test]
fn two_debounced_writes_to_one_path_flush_once_with_the_latest_value() {
    let mut q = PersistenceQueue::new();
    assert!(q.enqueue(0, req("/cfg/root.toml", "old", Some(5))).is_none());
    assert!(q.enqueue(2, req("/cfg/root.toml", "new", Some(5))).is_none());
    // exactly one entry is pending for the path
    assert_eq!(q.entries.len(), 1);
    // a sweep inside the window flushes nothing
    let early = q.sweep(3);
    assert!(early.is_empty());
    assert_eq!(q.entries.len(), 1);
    // a sweep past the replaced expiry flushes the latest value, once
    let flushed = q.sweep(7);
    assert_eq!(flushed.len(), 1);
    assert_eq!(flushed[0].config, "new");
    assert!(q.entries.is_empty());
    // and nothing is left to flush afterwards
    assert!(q.sweep(100).is_empty());
}

#[test]
fn distinct_paths_do_not_coalesce() {
    let mut q = PersistenceQueue::new();
    q.enqueue(0, req("/cfg/a.toml", "a", Some(5)));
    q.enqueue(0, req("/cfg/b.toml", "b", Some(10)));
    assert_eq!(q.entries.len(), 2);
    let flushed = q.sweep(5);
    assert_eq!(flushed.len(), 1);
    assert_eq!(flushed[0].path, "/cfg/a.toml");
    assert_eq!(q.entries.len(), 1);
}

#[test]
fn shutdown_flushes_everything_pending() {
    let mut q = PersistenceQueue::new();
    q.enqueue(0, req("/cfg/a.toml", "a", Some(1000)));
    q.enqueue(0, req("/cfg/b.toml", "b", Some(1000)));
    let flushed = q.flush_all();
    let mut paths: Vec<String> = flushed.into_iter().map(|r| r.path).collect();
    paths.sort();
    assert_eq!(paths, vec!["/cfg/a.toml".to_string(), "/cfg/b.toml".to_string()]);
    assert!(q.entries.is_empty());
}

#[test]
fn replacement_updates_the_expiry_too() {
    let mut q = PersistenceQueue::new();
    q.enqueue(0, req("/cfg/root.toml", "first", Some(5)));
    // within the window, a new write restarts the debounce
    q.enqueue(4, req("/cfg/root.toml", "second", Some(5)));
    // the original expiry (5) has passed, but the replaced entry expires at 9
    assert!(q.sweep(6).is_empty());
    let flushed = q.sweep(9);
    assert_eq!(flushed.len(), 1);
    assert_eq!(flushed[0].config, "second");
}
