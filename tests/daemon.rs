use oxipaste::config::{default_config, Config, ConfigOptional};
use oxipaste::daemon::{
    all_from_reply, flush_due, latest_from_reply, paste_mime, Action, Command, Daemon, PasteMime,
    ReverseCommand,
};
use oxipaste::store::ClipboardStore;

fn daemon_with(entries: &[&str]) -> Daemon {
    let mut store = ClipboardStore::new(10);
    for p in entries.iter().rev() {
        store.insert_front(p.as_bytes().to_vec(), "text/plain".to_string());
    }
    Daemon::new(store)
}

#[test]
fn delete_all_then_restart_loads_empty() {
    let mut daemon = daemon_with(&["a", "b"]);
    let action = daemon.handle(Command::DeleteAll);
    assert!(matches!(action, Action::ClearLog));
    assert_eq!(daemon.store().len(), 0);
    // the log was emptied; a new start reads an empty log
    let restarted = ClipboardStore::from_log(&daemon.store().to_log(), 10);
    assert_eq!(restarted.len(), 0);
    let from_cleared_file = ClipboardStore::from_log(b"", 10);
    assert_eq!(from_cleared_file.len(), 0);
}

#[test]
fn copy_asks_for_clipboard_then_offer_inserts() {
    let mut daemon = daemon_with(&["a"]);
    assert!(matches!(daemon.handle(Command::Copy), Action::ReadClipboard));
    daemon.offer(b"new".to_vec(), "text/plain".to_string());
    assert_eq!(daemon.store().latest(), (b"new".to_vec(), "text/plain".to_string()));
    daemon.offer(b"a".to_vec(), "text/plain".to_string());
    assert_eq!(daemon.store().len(), 2);
}

#[test]
fn paste_found_writes_clipboard() {
    let mut daemon = daemon_with(&["a", "b"]);
    match daemon.handle(Command::Paste(1)) {
        Action::WriteClipboard(bytes, PasteMime::Text) => assert_eq!(bytes, b"b".to_vec()),
        other => panic!("unexpected {:?}", other),
    }
    assert_eq!(daemon.store().len(), 2);
}

#[test]
fn paste_missing_reports_index() {
    let mut daemon = daemon_with(&["a"]);
    assert!(matches!(daemon.handle(Command::Paste(3)), Action::MissingIndex(3)));
    assert_eq!(daemon.store().len(), 1);
}

#[test]
fn paste_and_delete_removes_entry() {
    let mut daemon = daemon_with(&["a", "b", "c"]);
    match daemon.handle(Command::PasteAndDelete(0)) {
        Action::WriteClipboard(bytes, PasteMime::Text) => assert_eq!(bytes, b"a".to_vec()),
        other => panic!("unexpected {:?}", other),
    }
    assert_eq!(
        daemon.store().all(),
        vec![(b"b".to_vec(), "text/plain".to_string()), (b"c".to_vec(), "text/plain".to_string())]
    );
    assert!(matches!(daemon.handle(Command::PasteAndDelete(7)), Action::MissingIndex(7)));
    assert_eq!(daemon.store().len(), 2);
}

#[test]
fn delete_at_index_removes_entry() {
    let mut daemon = daemon_with(&["a", "b"]);
    assert!(matches!(daemon.handle(Command::DeleteAtIndex(0)), Action::Nothing));
    assert_eq!(daemon.store().all(), vec![(b"b".to_vec(), "text/plain".to_string())]);
    assert!(matches!(daemon.handle(Command::DeleteAtIndex(4)), Action::Nothing));
    assert_eq!(daemon.store().len(), 1);
}

#[test]
fn get_latest_and_get_all_reply() {
    let mut daemon = daemon_with(&["a", "b"]);
    match daemon.handle(Command::GetLatest) {
        Action::Reply(ReverseCommand::SendLatest(entry)) => {
            assert_eq!(entry, (b"a".to_vec(), "text/plain".to_string()))
        }
        other => panic!("unexpected {:?}", other),
    }
    match daemon.handle(Command::GetAll) {
        Action::Reply(ReverseCommand::SendAll(items)) => assert_eq!(items.len(), 2),
        other => panic!("unexpected {:?}", other),
    }
}

#[test]
fn get_latest_of_empty_daemon_is_sentinel() {
    let mut daemon = daemon_with(&[]);
    match daemon.handle(Command::GetLatest) {
        Action::Reply(ReverseCommand::SendLatest(entry)) => {
            assert_eq!(entry, (Vec::new(), "Empty".to_string()))
        }
        other => panic!("unexpected {:?}", other),
    }
}

#[test]
fn write_to_file_and_shutdown() {
    let mut daemon = daemon_with(&["a"]);
    match daemon.handle(Command::WriteToFile) {
        Action::WriteLog(bytes) => assert_eq!(bytes, b"a<>:<>text/plain<><>\n".to_vec()),
        other => panic!("unexpected {:?}", other),
    }
    match daemon.handle(Command::ShutDown) {
        Action::WriteLogAndStop(bytes) => assert_eq!(bytes, b"a<>:<>text/plain<><>\n".to_vec()),
        other => panic!("unexpected {:?}", other),
    }
    assert!(!daemon.is_running());
    assert!(matches!(daemon.handle(Command::DeleteAll), Action::Nothing));
    assert_eq!(daemon.store().len(), 1);
}

#[test]
fn paste_mime_maps_plain_text() {
    assert!(matches!(paste_mime(&"text/plain".to_string()), PasteMime::Text));
    match paste_mime(&"image/png".to_string()) {
        PasteMime::Specific(s) => assert_eq!(s, "image/png"),
        other => panic!("unexpected {:?}", other),
    }
}

#[test]
fn flush_due_after_five_minutes() {
    assert!(!flush_due(300));
    assert!(flush_due(301));
    assert!(!flush_due(0));
}

#[test]
fn replies_map_to_call_results() {
    assert_eq!(latest_from_reply(None), (Vec::new(), "Empty".to_string()));
    assert_eq!(
        latest_from_reply(Some(ReverseCommand::SendLatest((b"x".to_vec(), "m".to_string())))),
        (b"x".to_vec(), "m".to_string())
    );
    assert_eq!(
        latest_from_reply(Some(ReverseCommand::SendAll(Vec::new()))),
        (Vec::new(), "Empty".to_string())
    );
    assert_eq!(all_from_reply(None), Vec::new());
    assert_eq!(
        all_from_reply(Some(ReverseCommand::SendAll(vec![(b"x".to_vec(), "m".to_string())]))),
        vec![(b"x".to_vec(), "m".to_string())]
    );
}

#[test]
fn daemon_config_defaults() {
    assert_eq!(default_config(), "max_items=100");
    assert_eq!(Config::create_from_optional(ConfigOptional { max_items: None }).max_items, 100);
    assert_eq!(Config::create_from_optional(ConfigOptional { max_items: Some(7) }).max_items, 7);
}
