use eip_router::error::{ConfigurationError, ItemError};
use eip_router::location::Location;
use eip_router::route::{PendingRoute, Route};
use eip_router::sink::Sink;
use eip_router::source::{Entry, ItemRef, Observation, Source, SourceMode};
use eip_router::transform::{
    FileTransformer, Step, TransformError, TransformedData, Transformer,
};
use std::sync::Arc;

struct Upper;

impl Transformer for Upper {
    fn transform(&self, input: &[u8]) -> Result<TransformedData, TransformError> {
        Ok(TransformedData { data: input.to_ascii_uppercase() })
    }
}

struct Append(u8);

impl Transformer for Append {
    fn transform(&self, input: &[u8]) -> Result<TransformedData, TransformError> {
        let mut data = input.to_vec();
        data.push(self.0);
        Ok(TransformedData { data })
    }
}

struct RefuseEmpty;

impl Transformer for RefuseEmpty {
    fn transform(&self, input: &[u8]) -> Result<TransformedData, TransformError> {
        if input.is_empty() {
            Err(TransformError { reason: String::from("empty payload") })
        } else {
            Ok(TransformedData { data: input.to_vec() })
        }
    }
}

fn step<T: Transformer + 'static>(transformer: T) -> Step {
    Step { transformer: Arc::new(transformer) }
}

fn begin(location: &str) -> Route {
    Route::start(location).unwrap().confirm_root(true).unwrap()
}

fn file(path: &str) -> Observation {
    Observation::Entry(Entry { path: String::from(path), is_dir: false })
}

#[test]
fn location_parse_reads_scheme_path_and_text() {
    let location = Location::parse("FILE:///tmp/in/../data/").unwrap();
    assert_eq!(location.scheme, "file");
    assert_eq!(location.path, "/tmp/data/");
    assert_eq!(location.text, "file:///tmp/data/");
    assert!(location.is_local());
}

#[test]
fn location_parse_refuses_what_is_no_url() {
    assert!(Location::parse("not a url").is_none());
    assert!(Location::parse("").is_none());
    assert!(Location::parse("/tmp/in").is_none());
}

#[test]
fn location_of_another_scheme_is_not_local() {
    let location = Location::parse("https://example.com/in/").unwrap();
    assert_eq!(location.scheme, "https");
    assert_eq!(location.path, "/in/");
    assert!(!location.is_local());
}

#[test]
fn start_gives_a_pending_route_at_the_parsed_source() {
    let pending = Route::start("FILE:///tmp/in/../data/").unwrap();
    assert_eq!(pending.source_path(), "/tmp/data/");
    assert_eq!(pending.source_text(), "file:///tmp/data/");
    assert!(pending.is_local());
    let remote = Route::start("https://example.com/in/").unwrap();
    assert_eq!(remote.source_path(), "/in/");
    assert!(!remote.is_local());
}

#[test]
fn a_confirmed_root_gives_a_bare_scanning_route() {
    let route = Route::start("file:///tmp/in/").unwrap().confirm_root(true).unwrap();
    assert_eq!(route.source_path(), "/tmp/in/");
    assert_eq!(route.source_text(), "file:///tmp/in/");
    assert_eq!(route.mode(), SourceMode::Scan);
    assert_eq!(route.filter(), None);
    assert!(route.steps().is_empty());
    assert!(!route.has_destination());
    assert_eq!(route.destination_path(), None);
}

#[test]
fn start_refuses_an_invalid_source() {
    match Route::start("no url at all") {
        Err(ConfigurationError::InvalidSource { location }) => {
            assert_eq!(location, "no url at all")
        },
        _ => panic!("an invalid source must be refused"),
    }
}

#[test]
fn to_refuses_an_invalid_destination() {
    let route = begin("file:///tmp/in/");
    match route.to("::nowhere::") {
        Err(ConfigurationError::InvalidDestination { location }) => {
            assert_eq!(location, "::nowhere::")
        },
        _ => panic!("an invalid destination must be refused"),
    }
}

#[test]
fn the_builder_keeps_what_was_set_before() {
    let route = begin("file:///tmp/in/")
        .extension("csv")
        .stream()
        .then_transform(step(FileTransformer::new(1024)))
        .then_transform(step(Upper))
        .to("file:///tmp/out/")
        .unwrap();
    assert_eq!(route.source_path(), "/tmp/in/");
    assert_eq!(route.mode(), SourceMode::Watch);
    assert_eq!(route.filter(), Some("csv"));
    assert_eq!(route.steps().len(), 2);
    assert_eq!(route.destination_path(), Some("/tmp/out/"));
    assert!(route.has_destination());
}

#[test]
fn the_filter_is_kept_as_it_was_given() {
    let route = begin("file:///tmp/in/").extension("*.csv");
    assert_eq!(route.filter(), Some("*.csv"));
}

#[test]
fn a_pending_route_from_a_location_is_what_start_gives() {
    let source = Location {
        text: String::from("file:///srv/in/"),
        scheme: String::from("file"),
        path: String::from("/srv/in/"),
    };
    let pending = PendingRoute::from_location(source);
    assert_eq!(pending.source_path(), "/srv/in/");
    assert_eq!(pending.source_text(), "file:///srv/in/");
    let route = pending.confirm_root(true).unwrap();
    assert_eq!(route.source_path(), "/srv/in/");
    assert_eq!(route.mode(), SourceMode::Scan);
    assert_eq!(route.filter(), None);
    assert!(route.steps().is_empty());
    assert!(!route.has_destination());
}

#[test]
fn with_destination_sets_the_destination_only() {
    let destination = Location {
        text: String::from("file:///srv/out"),
        scheme: String::from("file"),
        path: String::from("/srv/out"),
    };
    let route =
        begin("file:///srv/in/").extension("txt").with_destination(destination);
    assert_eq!(route.destination_path(), Some("/srv/out"));
    assert_eq!(route.filter(), Some("txt"));
    assert_eq!(route.source_path(), "/srv/in/");
}

#[test]
fn a_route_without_destination_fails_validation() {
    let route = begin("file:///tmp/in/").extension("csv");
    match route.validate() {
        Err(ConfigurationError::MissingDestination { source }) => {
            assert_eq!(source, "file:///tmp/in/")
        },
        _ => panic!("a route without destination must not validate"),
    }
}

#[test]
fn a_route_with_destination_validates() {
    let route = begin("file:///tmp/in/").to("file:///tmp/out/").unwrap();
    assert!(route.validate().is_ok());
}

#[test]
fn a_route_without_destination_delivers_nothing() {
    let route = begin("file:///tmp/in/").then_transform(step(Upper));
    let item = ItemRef::from_path("/tmp/in/a.csv").unwrap();
    assert!(matches!(route.process(&item, b"abc".to_vec()), Err(ItemError::NoDestination)));
}

#[test]
fn the_source_of_a_route_carries_root_and_filter() {
    let scanning = begin("file:///tmp/in/").extension("csv");
    match scanning.source() {
        Source::Scan { root, filter } => {
            assert_eq!(root, "/tmp/in/");
            assert_eq!(filter, Some(String::from("csv")));
        },
        Source::Watch { .. } => panic!("a route scans unless it streams"),
    }
    let watching = begin("file:///tmp/in/").stream();
    match watching.source() {
        Source::Watch { root, filter } => {
            assert_eq!(root, "/tmp/in/");
            assert_eq!(filter, None);
        },
        Source::Scan { .. } => panic!("a streaming route watches"),
    }
}

#[test]
fn process_writes_below_the_destination_under_the_base_name() {
    let route = begin("file:///tmp/in/")
        .then_transform(step(FileTransformer::new(2)))
        .to("file:///tmp/out/")
        .unwrap();
    let item = ItemRef::from_path("/tmp/in/sub/a.csv").unwrap();
    let delivery = route.process(&item, b"1,2,3\n".to_vec()).unwrap();
    assert_eq!(delivery.path, "/tmp/out/a.csv");
    assert_eq!(delivery.data, b"1,2,3\n".to_vec());
}

#[test]
fn process_puts_a_slash_after_a_destination_without_one() {
    let route = begin("file:///tmp/in/").to("file:///tmp/out").unwrap();
    let item = ItemRef::from_path("/tmp/in/a.csv").unwrap();
    let delivery = route.process(&item, vec![1, 2]).unwrap();
    assert_eq!(delivery.path, "/tmp/out/a.csv");
    assert_eq!(delivery.data, vec![1, 2]);
}

#[test]
fn process_runs_the_chain_in_order() {
    let route = begin("file:///tmp/in/")
        .then_transform(step(Append(b'x')))
        .then_transform(step(Upper))
        .then_transform(step(Append(b'y')))
        .to("file:///tmp/out/")
        .unwrap();
    let item = ItemRef::from_path("/tmp/in/a.txt").unwrap();
    let delivery = route.process(&item, b"ab".to_vec()).unwrap();
    assert_eq!(delivery.data, b"ABXy".to_vec());
}

#[test]
fn process_reports_the_failing_step() {
    let route = begin("file:///tmp/in/")
        .then_transform(step(RefuseEmpty))
        .then_transform(step(Upper))
        .to("file:///tmp/out/")
        .unwrap();
    let item = ItemRef::from_path("/tmp/in/empty.csv").unwrap();
    match route.process(&item, Vec::new()) {
        Err(ItemError::Transform(e)) => assert_eq!(e.reason, "empty payload"),
        _ => panic!("the failing step must fail the item"),
    }
}

#[test]
fn scan_of_csv_files_delivers_exactly_those() {
    let route = begin("file:///data/in/")
        .extension("csv")
        .then_transform(step(FileTransformer::new(1024)))
        .to("file:///data/out/")
        .unwrap();
    let listing = vec![file("/data/in/a.csv"), file("/data/in/b.csv"), file("/data/in/c.txt")];
    let items = route.source().select_all(&listing);
    let written: Vec<(String, Vec<u8>)> = items
        .iter()
        .map(|item| {
            let delivery = route.process(item, item.base_name().as_bytes().to_vec()).unwrap();
            (delivery.path, delivery.data)
        })
        .collect();
    assert_eq!(
        written,
        vec![
            (String::from("/data/out/a.csv"), b"a.csv".to_vec()),
            (String::from("/data/out/b.csv"), b"b.csv".to_vec()),
        ]
    );
}

#[test]
fn one_failing_item_does_not_keep_the_others_back() {
    let route = begin("file:///data/in/")
        .then_transform(step(RefuseEmpty))
        .to("file:///data/out/")
        .unwrap();
    let listing = vec![file("/data/in/a.csv"), file("/data/in/bad.csv"), file("/data/in/c.csv")];
    let contents: Vec<Vec<u8>> = vec![b"a".to_vec(), Vec::new(), b"c".to_vec()];
    let items = route.source().select_all(&listing);
    let mut delivered: Vec<String> = Vec::new();
    let mut failed: Vec<String> = Vec::new();
    for (item, bytes) in items.iter().zip(contents) {
        match route.process(item, bytes) {
            Ok(delivery) => delivered.push(delivery.path),
            Err(_) => failed.push(String::from(item.path())),
        }
    }
    assert_eq!(delivered, vec!["/data/out/a.csv", "/data/out/c.csv"]);
    assert_eq!(failed, vec!["/data/in/bad.csv"]);
}

#[test]
fn a_root_that_is_there_is_confirmed() {
    let route = Route::start("file:///tmp/in/")
        .unwrap()
        .confirm_root(true)
        .unwrap()
        .extension("csv")
        .stream()
        .to("file:///tmp/out/")
        .unwrap();
    assert_eq!(route.source_path(), "/tmp/in/");
    assert_eq!(route.filter(), Some("csv"));
    assert_eq!(route.mode(), SourceMode::Watch);
    assert_eq!(route.destination_path(), Some("/tmp/out/"));
}

#[test]
fn a_root_that_is_not_there_is_refused() {
    let pending = Route::start("file:///tmp/nowhere/").unwrap();
    match pending.confirm_root(false) {
        Err(ConfigurationError::SourceNotFound { location }) => {
            assert_eq!(location, "file:///tmp/nowhere/")
        },
        _ => panic!("a missing root must be refused"),
    }
}

#[test]
fn a_source_outside_the_file_system_is_refused() {
    for is_directory in [true, false] {
        let pending = Route::start("https://example.com/feed/").unwrap();
        match pending.confirm_root(is_directory) {
            Err(ConfigurationError::SourceNotLocal { location }) => {
                assert_eq!(location, "https://example.com/feed/")
            },
            _ => panic!("a source that is not local must be refused"),
        }
    }
}

#[test]
fn a_route_has_a_sink_once_it_has_a_destination() {
    let route = begin("file:///tmp/in/");
    assert!(route.sink().is_none());
    let route = route.to("file:///tmp/out/").unwrap();
    assert_eq!(route.sink().unwrap().root, "/tmp/out/");
}

#[test]
fn a_sink_names_the_output_after_the_item() {
    let item = ItemRef::from_path("/in/deep/report.csv").unwrap();
    assert_eq!(Sink { root: String::from("/out") }.output_path(&item), "/out/report.csv");
    assert_eq!(Sink { root: String::from("/out/") }.output_path(&item), "/out/report.csv");
    assert_eq!(Sink { root: String::new() }.output_path(&item), "report.csv");
}

#[test]
fn a_sink_delivers_the_whole_payload() {
    let item = ItemRef::from_path("/in/a.bin").unwrap();
    let payload = TransformedData { data: vec![0, 255, 7] };
    let delivery = Sink { root: String::from("/out") }.deliver(&item, payload);
    assert_eq!(delivery.path, "/out/a.bin");
    assert_eq!(delivery.data, vec![0, 255, 7]);
}
