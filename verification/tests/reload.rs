use md_to_html::reload::{is_reload_path, page_body, reload_event_body, ReloadSignal};

#[test]
fn reload_coalescing_two_changes_one_event() {
    let mut signal = ReloadSignal::new();
    signal.notify_change();
    signal.notify_change();
    assert!(signal.take());
    assert!(!signal.take());
}

#[test]
fn fresh_signal_delivers_nothing() {
    let mut signal = ReloadSignal::new();
    assert!(!signal.take());
}

#[test]
fn change_after_delivery_delivers_again() {
    let mut signal = ReloadSignal::new();
    signal.notify_change();
    assert!(signal.take());
    signal.notify_change();
    assert!(signal.take());
}

#[test]
fn reload_path_recognised() {
    assert!(is_reload_path("/reload"));
    assert!(!is_reload_path("/"));
    assert!(!is_reload_path("/reload/"));
    assert!(!is_reload_path("/other"));
}

#[test]
fn reload_event_body_is_event_stream_message() {
    assert_eq!(reload_event_body(), "data: reload\n\n");
}

#[test]
fn page_body_serves_document_or_not_found() {
    assert_eq!(page_body(Some("<p>doc</p>".to_string())), "<p>doc</p>");
    assert_eq!(page_body(None), "<p>File not found</p>");
}
