use pty_engine::registry::{EngineError, Registry};
use pty_engine::session::SessionCore;

fn make_core(shell: &str) -> SessionCore {
    SessionCore::new(shell.to_string(), "/home/me".to_string(), 64, None)
}

#[test]
fn empty_registry_lists_nothing() {
    let r = Registry::new();
    assert_eq!(r.list().len(), 0);
    assert!(!r.contains(&"nope".to_string()));
}

#[test]
fn added_session_is_listed_alive() {
    let mut r = Registry::new();
    r.add_session("tab-1".to_string(), make_core("/bin/bash"));
    assert!(r.contains(&"tab-1".to_string()));
    let listing = r.list();
    assert_eq!(listing.len(), 1);
    assert_eq!(listing[0].id, "tab-1");
    assert!(listing[0].alive);
}

#[test]
fn operations_on_unknown_id_report_not_found() {
    let mut r = Registry::new();
    let id = "ghost".to_string();
    assert_eq!(r.attach(&id, 1).unwrap_err(), EngineError::NotFound);
    assert_eq!(r.detach(&id).unwrap_err(), EngineError::NotFound);
    assert_eq!(r.on_output(&id, b"x").unwrap_err(), EngineError::NotFound);
    assert_eq!(r.on_eof(&id).unwrap_err(), EngineError::NotFound);
    assert_eq!(r.snapshot_entry(&id, None).unwrap_err(), EngineError::NotFound);
}

#[test]
fn attach_replays_and_routes_output() {
    let mut r = Registry::new();
    let id = "tab-1".to_string();
    r.add_session(id.clone(), make_core("/bin/bash"));
    assert_eq!(r.on_output(&id, b"early ").unwrap(), None);
    let replay = r.attach(&id, 42).unwrap();
    assert_eq!(replay, b"early ".to_vec());
    assert_eq!(r.on_output(&id, b"late").unwrap(), Some(42));
    r.detach(&id).unwrap();
    assert_eq!(r.on_output(&id, b"!").unwrap(), None);
}

#[test]
fn duplicate_id_replaces_the_previous_session() {
    let mut r = Registry::new();
    let id = "tab-1".to_string();
    r.add_session(id.clone(), make_core("/bin/bash"));
    r.on_output(&id, b"old bytes").unwrap();
    r.add_session(id.clone(), make_core("/bin/zsh"));
    assert_eq!(r.list().len(), 1);
    // The fresh session has an empty buffer and the new shell.
    let replay = r.attach(&id, 1).unwrap();
    assert_eq!(replay, Vec::<u8>::new());
    let saved = r.snapshot_entry(&id, None).unwrap().unwrap();
    assert_eq!(saved.shell, "/bin/zsh");
}

#[test]
fn eof_is_reflected_in_the_listing() {
    let mut r = Registry::new();
    r.add_session("a".to_string(), make_core("/bin/bash"));
    r.add_session("b".to_string(), make_core("/bin/bash"));
    r.on_eof(&"a".to_string()).unwrap();
    let listing = r.list();
    assert_eq!(listing.len(), 2);
    assert_eq!(listing[0].id, "a");
    assert!(!listing[0].alive);
    assert_eq!(listing[1].id, "b");
    assert!(listing[1].alive);
}

#[test]
fn snapshot_entry_falls_back_and_skips_dead() {
    let mut r = Registry::new();
    let id = "tab-1".to_string();
    r.add_session(id.clone(), make_core("/bin/bash"));
    let with_cwd = r.snapshot_entry(&id, Some("/tmp".to_string())).unwrap().unwrap();
    assert_eq!(with_cwd.id, "tab-1");
    assert_eq!(with_cwd.cwd, "/tmp");
    let fallback = r.snapshot_entry(&id, None).unwrap().unwrap();
    assert_eq!(fallback.cwd, "/home/me");
    r.on_eof(&id).unwrap();
    assert!(r.snapshot_entry(&id, None).unwrap().is_none());
}
