use ghciwatch::event_filter::{
    file_events_from_action, FileEvent, WatchEventKind, WatchedEvent, WatchedPath,
};

fn watched(kind: WatchEventKind, paths: &[(&str, bool)]) -> WatchedEvent {
    WatchedEvent {
        kind,
        paths: paths
            .iter()
            .map(|(p, e)| WatchedPath {
                path: p.to_string(),
                exists: *e,
            })
            .collect(),
    }
}

#[test]
fn events_are_classified_and_deduplicated() {
    let events = vec![
        watched(WatchEventKind::Modify, &[("src/A.hs", true), ("src/Gone.hs", false)]),
        watched(WatchEventKind::Access, &[("src/Read.hs", true)]),
        watched(WatchEventKind::Create, &[("src/A.hs", true), ("src/B.hs", true)]),
        watched(WatchEventKind::Remove, &[("src/C.hs", true)]),
        watched(WatchEventKind::Any, &[("src/D.hs", true)]),
        watched(WatchEventKind::Other, &[("src/E.hs", true)]),
    ];
    assert_eq!(
        file_events_from_action(&events),
        vec![
            FileEvent::Modify("src/A.hs".to_owned()),
            FileEvent::Remove("src/Gone.hs".to_owned()),
            FileEvent::Modify("src/B.hs".to_owned()),
            FileEvent::Remove("src/C.hs".to_owned()),
            FileEvent::Modify("src/D.hs".to_owned()),
            FileEvent::Modify("src/E.hs".to_owned()),
        ]
    );
}

#[test]
fn no_events_no_changes() {
    assert!(file_events_from_action(&vec![]).is_empty());
    assert!(file_events_from_action(&vec![watched(WatchEventKind::Access, &[("a.hs", true)])]).is_empty());
}

#[test]
fn file_event_paths() {
    let modify = FileEvent::Modify("src/A.hs".to_owned());
    let remove = FileEvent::Remove("src/A.hs".to_owned());
    assert_eq!(modify.as_path(), "src/A.hs");
    assert_eq!(remove.as_path(), "src/A.hs");
    assert!(!modify.same_as(&remove));
    assert!(modify.same_as(&modify.duplicate()));
}
