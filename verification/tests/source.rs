use eip_router::source::{Entry, EventKind, FsEvent, ItemRef, Observation, Source};

fn created(path: &str) -> Observation {
    Observation::Event(FsEvent { kind: EventKind::Create, paths: vec![String::from(path)] })
}

fn event(kind: EventKind, path: &str) -> Observation {
    Observation::Event(FsEvent { kind, paths: vec![String::from(path)] })
}

fn file(path: &str) -> Observation {
    Observation::Entry(Entry { path: String::from(path), is_dir: false })
}

fn dir(path: &str) -> Observation {
    Observation::Entry(Entry { path: String::from(path), is_dir: true })
}

fn watch(filter: Option<&str>) -> Source {
    Source::Watch { root: String::from("/in"), filter: filter.map(String::from) }
}

fn scan(filter: Option<&str>) -> Source {
    Source::Scan { root: String::from("/in"), filter: filter.map(String::from) }
}

fn paths(items: &[ItemRef]) -> Vec<String> {
    items.iter().map(|item| String::from(item.path())).collect()
}

#[test]
fn an_item_knows_its_path_and_base_name() {
    let item = ItemRef::from_path("/in/sub/a.csv").unwrap();
    assert_eq!(item.path(), "/in/sub/a.csv");
    assert_eq!(item.base_name(), "a.csv");
    let bare = ItemRef::from_path("b.txt").unwrap();
    assert_eq!(bare.path(), "b.txt");
    assert_eq!(bare.base_name(), "b.txt");
}

#[test]
fn a_path_without_a_file_name_is_no_item() {
    assert!(ItemRef::from_path("/in/sub/").is_none());
    assert!(ItemRef::from_path("").is_none());
    assert!(ItemRef::from_path("/").is_none());
}

#[test]
fn a_source_knows_its_root_and_strategy() {
    assert!(watch(None).is_watch());
    assert!(!scan(None).is_watch());
    assert_eq!(watch(None).root(), "/in");
    assert_eq!(scan(Some("csv")).root(), "/in");
}

#[test]
fn scan_with_a_filter_takes_the_matching_files() {
    let listing = vec![file("/in/a.csv"), file("/in/b.csv"), file("/in/c.txt")];
    let items = scan(Some("csv")).select_all(&listing);
    assert_eq!(paths(&items), vec!["/in/a.csv", "/in/b.csv"]);
    let names: Vec<&str> = items.iter().map(|item| item.base_name()).collect();
    assert_eq!(names, vec!["a.csv", "b.csv"]);
}

#[test]
fn scan_without_a_filter_takes_every_file() {
    let listing = vec![file("/in/a.csv"), file("/in/c.txt"), file("/in/noext")];
    let items = scan(None).select_all(&listing);
    assert_eq!(paths(&items), vec!["/in/a.csv", "/in/c.txt", "/in/noext"]);
}

#[test]
fn scan_leaves_directories_out() {
    let listing = vec![dir("/in/sub.csv"), file("/in/sub.csv/a.csv"), dir("/in/other")];
    let items = scan(Some("csv")).select_all(&listing);
    assert_eq!(paths(&items), vec!["/in/sub.csv/a.csv"]);
    assert!(scan(None).select(&dir("/in/sub")).is_none());
}

#[test]
fn scan_keeps_the_order_of_the_listing() {
    let listing = vec![file("/in/z.csv"), file("/in/a.csv"), file("/in/m.csv")];
    let items = scan(Some("*.csv")).select_all(&listing);
    assert_eq!(paths(&items), vec!["/in/z.csv", "/in/a.csv", "/in/m.csv"]);
}

#[test]
fn scan_of_an_empty_listing_yields_nothing() {
    assert!(scan(Some("csv")).select_all(&Vec::new()).is_empty());
}

#[test]
fn scan_takes_no_notifications() {
    assert!(scan(None).select(&created("/in/a.csv")).is_none());
}

#[test]
fn watch_takes_a_created_file() {
    let item = watch(None).select(&created("/in/new.csv")).unwrap();
    assert_eq!(item.path(), "/in/new.csv");
    assert_eq!(item.base_name(), "new.csv");
}

#[test]
fn watch_takes_files_created_in_subdirectories() {
    let item = watch(Some("csv")).select(&created("/in/deep/er/new.csv")).unwrap();
    assert_eq!(item.base_name(), "new.csv");
}

#[test]
fn watch_takes_nothing_but_creations() {
    let source = watch(None);
    for kind in
        [EventKind::Any, EventKind::Access, EventKind::Modify, EventKind::Remove, EventKind::Other]
    {
        assert!(source.select(&event(kind, "/in/a.csv")).is_none());
    }
    assert!(source.select(&event(EventKind::Create, "/in/a.csv")).is_some());
}

#[test]
fn watch_takes_the_first_path_of_an_event() {
    let seen = Observation::Event(FsEvent {
        kind: EventKind::Create,
        paths: vec![String::from("/in/first.csv"), String::from("/in/second.csv")],
    });
    assert_eq!(watch(None).select(&seen).unwrap().path(), "/in/first.csv");
}

#[test]
fn watch_takes_nothing_from_an_event_without_paths() {
    let seen = Observation::Event(FsEvent { kind: EventKind::Create, paths: Vec::new() });
    assert!(watch(None).select(&seen).is_none());
}

#[test]
fn watch_applies_the_filter() {
    let source = watch(Some("csv"));
    assert!(source.select(&created("/in/a.csv")).is_some());
    assert!(source.select(&created("/in/c.txt")).is_none());
    assert!(source.select(&created("/in/a.CSV")).is_none());
}

#[test]
fn watch_takes_no_listing_entries() {
    assert!(watch(None).select(&file("/in/a.csv")).is_none());
}

#[test]
fn watch_passes_duplicate_creations_through() {
    let seen = vec![
        created("/in/a.csv"),
        created("/in/a.csv"),
        event(EventKind::Modify, "/in/a.csv"),
        event(EventKind::Remove, "/in/a.csv"),
    ];
    let items = watch(None).select_all(&seen);
    assert_eq!(paths(&items), vec!["/in/a.csv", "/in/a.csv"]);
}

#[test]
fn what_is_seen_in_two_parts_yields_the_same_as_at_once() {
    let source = watch(Some("csv"));
    let first = vec![created("/in/a.csv"), created("/in/x.txt")];
    let second = vec![created("/in/b.csv"), created("/in/a.csv")];
    let whole = vec![
        created("/in/a.csv"),
        created("/in/x.txt"),
        created("/in/b.csv"),
        created("/in/a.csv"),
    ];
    let mut in_parts = paths(&source.select_all(&first));
    in_parts.extend(paths(&source.select_all(&second)));
    assert_eq!(in_parts, paths(&source.select_all(&whole)));
    assert_eq!(in_parts, vec!["/in/a.csv", "/in/b.csv", "/in/a.csv"]);
}
