use oxipaste::store::ClipboardStore;

#[test]
fn log_record_framing() {
    let mut store = ClipboardStore::new(5);
    store.insert_front(b"hello".to_vec(), "text/plain".to_string());
    assert_eq!(store.to_log(), b"hello<>:<>text/plain<><>\n".to_vec());
}

#[test]
fn log_skips_binary_payloads() {
    let mut store = ClipboardStore::new(5);
    store.insert_front(b"one".to_vec(), "text/plain".to_string());
    store.insert_front(vec![0xff, 0xfe], "image/png".to_string());
    store.insert_front(b"two".to_vec(), "text/plain".to_string());
    assert_eq!(
        store.to_log(),
        b"two<>:<>text/plain<><>\none<>:<>text/plain<><>\n".to_vec()
    );
}

#[test]
fn log_round_trip_keeps_text_entries_in_order() {
    let mut store = ClipboardStore::new(5);
    store.insert_front(b"first".to_vec(), "text/plain".to_string());
    store.insert_front(vec![0xc3, 0x28], "application/octet-stream".to_string());
    store.insert_front("gr\u{fc}\u{df} dich".as_bytes().to_vec(), "text/plain;charset=utf-8".to_string());
    store.insert_front(b"last".to_vec(), "text/html".to_string());
    let log = store.to_log();
    let loaded = ClipboardStore::from_log(&log, 5);
    assert_eq!(
        loaded.all(),
        vec![
            (b"last".to_vec(), "text/html".to_string()),
            ("gr\u{fc}\u{df} dich".as_bytes().to_vec(), "text/plain;charset=utf-8".to_string()),
            (b"first".to_vec(), "text/plain".to_string()),
        ]
    );
}

#[test]
fn empty_log_loads_empty_store() {
    let loaded = ClipboardStore::from_log(b"", 10);
    assert_eq!(loaded.len(), 0);
}

#[test]
fn load_skips_pieces_without_separator() {
    let loaded = ClipboardStore::from_log(b"junk<><>\na<>:<>text/plain<><>\ntrailing", 10);
    assert_eq!(loaded.all(), vec![(b"a".to_vec(), "text/plain".to_string())]);
}

#[test]
fn load_repeated_payload_keeps_place_and_takes_later_label() {
    let loaded = ClipboardStore::from_log(
        b"a<>:<>text/plain<><>\nb<>:<>text/plain<><>\na<>:<>text/html<><>\n",
        10,
    );
    assert_eq!(
        loaded.all(),
        vec![
            (b"a".to_vec(), "text/html".to_string()),
            (b"b".to_vec(), "text/plain".to_string())
        ]
    );
}

#[test]
fn load_cuts_to_capacity() {
    let loaded = ClipboardStore::from_log(
        b"a<>:<>m<><>\nb<>:<>m<><>\nc<>:<>m<><>\n",
        2,
    );
    assert_eq!(
        loaded.all(),
        vec![(b"a".to_vec(), "m".to_string()), (b"b".to_vec(), "m".to_string())]
    );
}

#[test]
fn load_skips_label_that_is_not_text() {
    let mut log = b"a<>:<>".to_vec();
    log.extend_from_slice(&[0xff, 0xfe]);
    log.extend_from_slice(b"<><>\nb<>:<>text/plain<><>\n");
    let loaded = ClipboardStore::from_log(&log, 10);
    assert_eq!(loaded.all(), vec![(b"b".to_vec(), "text/plain".to_string())]);
}

#[test]
fn load_splits_at_first_separator() {
    let loaded = ClipboardStore::from_log(b"k<>:<>v<>:<>w<><>\n", 10);
    assert_eq!(loaded.all(), vec![(b"k".to_vec(), "v<>:<>w".to_string())]);
}
