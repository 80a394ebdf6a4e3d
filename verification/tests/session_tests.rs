use pty_engine::session::{saved_entry, SessionCore};

fn fresh(sink: Option<u64>) -> SessionCore {
    SessionCore::new("/bin/bash".to_string(), "/home/me".to_string(), 64, sink)
}

#[test]
fn new_session_state() {
    let core = fresh(Some(1));
    assert!(core.is_alive());
    assert_eq!(core.sink(), Some(1));
    assert_eq!(core.shell(), "/bin/bash");
    assert_eq!(core.initial_cwd(), "/home/me");
    assert_eq!(core.buffer_len(), 0);
}

#[test]
fn output_is_buffered_and_delivered_to_sink() {
    let mut core = fresh(Some(3));
    let target = core.on_output(b"hi");
    assert_eq!(target, Some(3));
    assert_eq!(core.buffered(), b"hi".to_vec());
}

#[test]
fn output_without_sink_is_still_buffered() {
    let mut core = fresh(None);
    let target = core.on_output(b"lost?");
    assert_eq!(target, None);
    assert_eq!(core.buffered(), b"lost?".to_vec());
}

#[test]
fn attach_replays_exactly_the_buffer() {
    let mut core = fresh(None);
    core.on_output(b"hello ");
    core.on_output(b"world");
    let replay = core.attach(7);
    assert_eq!(replay, b"hello world".to_vec());
    // Afterwards, live chunks go to the new sink: no gap, no duplication.
    let target = core.on_output(b"!");
    assert_eq!(target, Some(7));
    assert_eq!(core.buffered(), b"hello world!".to_vec());
}

#[test]
fn detach_then_attach_with_no_output_replays_nothing() {
    let mut core = fresh(Some(1));
    core.detach();
    let replay = core.attach(2);
    assert_eq!(replay, Vec::<u8>::new());
}

#[test]
fn detach_keeps_the_reader_buffering() {
    let mut core = fresh(Some(1));
    core.on_output(b"one");
    core.detach();
    assert_eq!(core.sink(), None);
    let target = core.on_output(b"two");
    assert_eq!(target, None);
    assert_eq!(core.buffered(), b"onetwo".to_vec());
}

#[test]
fn second_attach_fully_replaces_the_first() {
    let mut core = fresh(None);
    let first_replay = core.attach(1);
    assert_eq!(first_replay, Vec::<u8>::new());
    let t1 = core.on_output(b"a");
    assert_eq!(t1, Some(1));
    let second_replay = core.attach(2);
    assert_eq!(second_replay, b"a".to_vec());
    // After the second attach completes, no byte is delivered to sink 1.
    let t2 = core.on_output(b"b");
    assert_eq!(t2, Some(2));
    let t3 = core.on_output(b"c");
    assert_eq!(t3, Some(2));
}

#[test]
fn eof_marks_the_session_dead() {
    let mut core = fresh(Some(1));
    assert!(core.is_alive());
    core.on_eof();
    assert!(!core.is_alive());
    // The buffer stays queryable.
    assert_eq!(core.buffered(), Vec::<u8>::new());
}

#[test]
fn saved_entry_uses_introspected_cwd_when_present() {
    let core = fresh(None);
    let id = "tab-1".to_string();
    let entry = saved_entry(&id, &core, true, Some("/tmp/work".to_string())).unwrap();
    assert_eq!(entry.id, "tab-1");
    assert_eq!(entry.shell, "/bin/bash");
    assert_eq!(entry.cwd, "/tmp/work");
}

#[test]
fn saved_entry_falls_back_to_initial_cwd() {
    let core = fresh(None);
    let id = "tab-2".to_string();
    let entry = saved_entry(&id, &core, true, None).unwrap();
    assert_eq!(entry.cwd, "/home/me");
}

#[test]
fn saved_entry_skips_dead_sessions() {
    let core = fresh(None);
    let id = "tab-3".to_string();
    assert!(saved_entry(&id, &core, false, None).is_none());
}
