use fswatch::filter::{FsMessageFilter, FsMessageFilterMode};
use fswatch::handler::{FsEventHandler, FsMessage, FsMessageEvent, FsMessageError, FsMessageEventKind, FsNotification, FsNotificationKind};
use fswatch::metadata::{FsMetadata, FsTimestamp};

fn meta(is_dir: bool, secs: i64) -> FsMetadata {
    FsMetadata::new(is_dir, FsTimestamp::new(secs, 0), FsTimestamp::new(secs, 0))
}

fn note(kind: FsNotificationKind, paths: &[&str]) -> Result<FsNotification, String> {
    Ok(FsNotification { kind, paths: paths.iter().map(|s| s.to_string()).collect() })
}

fn event(m: &FsMessage) -> (FsMessageEventKind, String, Option<FsMetadata>) {
    match m {
        FsMessage::Event(e) => (e.kind, e.path.clone(), e.metadata),
        FsMessage::Error(e) => panic!("unexpected error message {}", e.message),
    }
}

fn opt_out_tmp() -> FsMessageFilter {
    FsMessageFilter::create(FsMessageFilterMode::OptOut, vec!["*.tmp".to_string()]).unwrap()
}

#[test]
fn create_reports_fresh_metadata() {
    let mut h = FsEventHandler::new(FsMessageFilter::empty());
    let m = meta(false, 5);
    let out = h.handle(note(FsNotificationKind::Create, &["/r/a"]), &vec![Ok(m)]);
    assert_eq!(out.len(), 1);
    assert_eq!(event(&out[0]), (FsMessageEventKind::Created, "/r/a".to_string(), Some(m)));
    assert_eq!(h.store().get("/r/a"), Some(&m));
}

#[test]
fn rename_to_is_handled_as_create() {
    let mut h = FsEventHandler::new(FsMessageFilter::empty());
    let m = meta(false, 5);
    let out = h.handle(note(FsNotificationKind::RenameTo, &["/r/new"]), &vec![Ok(m)]);
    assert_eq!(event(&out[0]), (FsMessageEventKind::Created, "/r/new".to_string(), Some(m)));
}

#[test]
fn create_stat_failure_reports_error_and_continues() {
    let mut h = FsEventHandler::new(FsMessageFilter::empty());
    let m = meta(false, 5);
    let out = h.handle(note(FsNotificationKind::Create, &["/r/gone", "/r/b"]), &vec![Err("vanished".to_string()), Ok(m)]);
    assert_eq!(out.len(), 2);
    match &out[0] {
        FsMessage::Error(e) => assert_eq!(e.message, "vanished"),
        _ => panic!("expected an error"),
    }
    assert_eq!(event(&out[1]), (FsMessageEventKind::Created, "/r/b".to_string(), Some(m)));
    assert!(h.store().get("/r/gone").is_none());
}

#[test]
fn watcher_error_becomes_error_message() {
    let mut h = FsEventHandler::new(FsMessageFilter::empty());
    let out = h.handle(Err("watch root removed".to_string()), &Vec::new());
    assert_eq!(out.len(), 1);
    match &out[0] {
        FsMessage::Error(e) => assert_eq!(e.message, "watch root removed"),
        _ => panic!("expected an error"),
    }
}

#[test]
fn other_notifications_are_ignored() {
    let mut h = FsEventHandler::new(FsMessageFilter::empty());
    let out = h.handle(note(FsNotificationKind::Other, &["/r/a"]), &vec![Ok(meta(false, 1))]);
    assert!(out.is_empty());
    assert!(h.store().get("/r/a").is_none());
}

#[test]
fn modify_with_unchanged_timestamp_is_suppressed() {
    let mut h = FsEventHandler::new(FsMessageFilter::empty());
    h.handle(note(FsNotificationKind::Create, &["/r/p"]), &vec![Ok(meta(false, 100))]);
    let out = h.handle(note(FsNotificationKind::Modify, &["/r/p"]), &vec![Ok(meta(false, 100))]);
    assert!(out.is_empty());
}

#[test]
fn modify_with_later_timestamp_reports_once() {
    let mut h = FsEventHandler::new(FsMessageFilter::empty());
    h.handle(note(FsNotificationKind::Create, &["/r/p"]), &vec![Ok(meta(false, 100))]);
    let newer = FsMetadata::new(false, FsTimestamp::new(100, 0), FsTimestamp::new(100, 1));
    let out = h.handle(note(FsNotificationKind::Modify, &["/r/p"]), &vec![Ok(newer)]);
    assert_eq!(out.len(), 1);
    assert_eq!(event(&out[0]), (FsMessageEventKind::Modified, "/r/p".to_string(), Some(newer)));
    assert_eq!(h.store().get("/r/p"), Some(&newer));
}

#[test]
fn modify_of_unknown_path_compares_against_epoch() {
    let mut h = FsEventHandler::new(FsMessageFilter::empty());
    let out = h.handle(note(FsNotificationKind::Modify, &["/r/q", "/r/z"]), &vec![Ok(meta(false, 7)), Ok(meta(false, 0))]);
    assert_eq!(out.len(), 1);
    assert_eq!(event(&out[0]), (FsMessageEventKind::Modified, "/r/q".to_string(), Some(meta(false, 7))));
    assert_eq!(h.store().get("/r/z"), Some(&meta(false, 0)));
}

#[test]
fn modify_stat_failure_reports_error() {
    let mut h = FsEventHandler::new(FsMessageFilter::empty());
    let out = h.handle(note(FsNotificationKind::Modify, &["/r/q"]), &vec![Err("denied".to_string())]);
    assert_eq!(out.len(), 1);
    assert!(matches!(&out[0], FsMessage::Error(e) if e.message == "denied"));
}

#[test]
fn remove_cascades_descendants_before_ancestor() {
    let mut h = FsEventHandler::new(FsMessageFilter::empty());
    let (d, a, b) = (meta(true, 1), meta(true, 2), meta(false, 3));
    h.handle(note(FsNotificationKind::Create, &["d", "d/a", "d/a/b"]), &vec![Ok(d), Ok(a), Ok(b)]);
    let out = h.handle(note(FsNotificationKind::Remove, &["d"]), &vec![Err("gone".to_string())]);
    let got: Vec<_> = out.iter().map(event).collect();
    assert_eq!(
        got,
        vec![
            (FsMessageEventKind::Removed, "d/a/b".to_string(), Some(b)),
            (FsMessageEventKind::Removed, "d/a".to_string(), Some(a)),
            (FsMessageEventKind::Removed, "d".to_string(), Some(d)),
        ]
    );
    assert!(h.store().get("d").is_none());
    assert!(h.store().get("d/a").is_none());
    assert!(h.store().get("d/a/b").is_none());
}

#[test]
fn remove_of_unknown_path_reports_without_metadata() {
    let mut h = FsEventHandler::new(FsMessageFilter::empty());
    let out = h.handle(note(FsNotificationKind::RenameFrom, &["/r/never"]), &vec![Err("gone".to_string())]);
    assert_eq!(out.len(), 1);
    assert_eq!(event(&out[0]), (FsMessageEventKind::Removed, "/r/never".to_string(), None));
}

#[test]
fn remove_of_file_does_not_touch_siblings() {
    let mut h = FsEventHandler::new(FsMessageFilter::empty());
    h.handle(note(FsNotificationKind::Create, &["/r/f", "/r/f2"]), &vec![Ok(meta(false, 1)), Ok(meta(false, 1))]);
    let out = h.handle(note(FsNotificationKind::Remove, &["/r/f"]), &vec![Err("gone".to_string())]);
    assert_eq!(out.len(), 1);
    assert!(h.store().get("/r/f2").is_some());
}

#[test]
fn scan_reports_entries_that_pass_the_filter() {
    let mut h = FsEventHandler::new(opt_out_tmp());
    let mut created = Vec::new();
    for (path, m) in [("/s/f1", meta(false, 1)), ("/s/f2", meta(false, 2)), ("/s/x.tmp", meta(false, 3))] {
        let step = h.scan_entry(path.to_string(), Ok(m), true).unwrap();
        assert!(!step.descend);
        if let Some(e) = step.event {
            assert_eq!(e.kind, FsMessageEventKind::Created);
            assert_eq!(e.metadata, Some(m));
            created.push(e.path);
        }
    }
    assert_eq!(created, vec!["/s/f1".to_string(), "/s/f2".to_string()]);
    assert!(h.store().get("/s/f1").is_some());
    assert!(h.store().get("/s/f2").is_some());
    assert!(h.store().get("/s/x.tmp").is_none());
}

#[test]
fn scan_descends_into_directories_only_when_recursive() {
    let mut h = FsEventHandler::new(FsMessageFilter::empty());
    assert!(h.scan_entry("/s/d".to_string(), Ok(meta(true, 1)), true).unwrap().descend);
    assert!(!h.scan_entry("/s/e".to_string(), Ok(meta(true, 1)), false).unwrap().descend);
}

#[test]
fn scan_stat_failure_is_fatal_unless_filtered() {
    let mut h = FsEventHandler::new(opt_out_tmp());
    let err = h.scan_entry("/s/bad".to_string(), Err("unreadable".to_string()), true);
    assert!(matches!(err, Err(FsMessageError { ref message }) if message == "unreadable"));
    let skipped = h.scan_entry("/s/bad.tmp".to_string(), Err("unreadable".to_string()), true).unwrap();
    assert!(skipped.event.is_none());
}

#[test]
fn end_to_end_opt_out_create_and_remove() {
    let mut h = FsEventHandler::new(opt_out_tmp());
    let m = FsMetadata::new(false, FsTimestamp::new(1700000000, 5), FsTimestamp::new(1700000001, 6));
    let out = h.handle(note(FsNotificationKind::Create, &["/root/a.txt"]), &vec![Ok(m)]);
    assert_eq!(out.len(), 1);
    let (kind, path, md) = event(&out[0]);
    assert_eq!((kind, path.as_str()), (FsMessageEventKind::Created, "/root/a.txt"));
    assert!(!md.unwrap().is_dir);
    let out = h.handle(note(FsNotificationKind::Create, &["/root/b.tmp"]), &vec![Ok(meta(false, 9))]);
    assert!(out.is_empty());
    let out = h.handle(note(FsNotificationKind::Remove, &["/root/a.txt"]), &vec![Err("gone".to_string())]);
    assert_eq!(out.len(), 1);
    assert_eq!(event(&out[0]), (FsMessageEventKind::Removed, "/root/a.txt".to_string(), Some(m)));
}

#[test]
fn messages_convert_from_events_and_errors() {
    let e = FsMessageEvent::new(FsMessageEventKind::Created, "/x".to_string(), None);
    assert!(matches!(FsMessage::from(e), FsMessage::Event(_)));
    let err = FsMessageError::new("boom".to_string());
    assert!(matches!(FsMessage::from(err), FsMessage::Error(ref x) if x.message == "boom"));
}

#[test]
fn remove_of_rejected_path_gives_nothing() {
    let mut h = FsEventHandler::new(opt_out_tmp());
    let out = h.handle(note(FsNotificationKind::Remove, &["/r/x.tmp"]), &vec![Err("gone".to_string())]);
    assert!(out.is_empty());
}

#[test]
fn remove_of_repeated_path_reports_metadata_once() {
    let mut h = FsEventHandler::new(FsMessageFilter::empty());
    let m = meta(false, 4);
    h.handle(note(FsNotificationKind::Create, &["/r/f"]), &vec![Ok(m)]);
    let out = h.handle(note(FsNotificationKind::Remove, &["/r/f", "/r/f"]), &vec![Err("gone".to_string()), Err("gone".to_string())]);
    let got: Vec<_> = out.iter().map(event).collect();
    assert_eq!(
        got,
        vec![
            (FsMessageEventKind::Removed, "/r/f".to_string(), Some(m)),
            (FsMessageEventKind::Removed, "/r/f".to_string(), None),
        ]
    );
}
