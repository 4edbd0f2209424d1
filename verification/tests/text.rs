use eip_router::text::{admits, base_name, chars_of, extension, join, last_index_of, strip_wildcard};

#[test]
fn chars_of_gives_each_character() {
    assert_eq!(chars_of("a.é"), vec!['a', '.', 'é']);
    assert!(chars_of("").is_empty());
}

#[test]
fn last_index_of_finds_the_last_one() {
    let s = chars_of("a/b/c");
    assert_eq!(last_index_of(&s, '/'), Some(3));
    assert_eq!(last_index_of(&s, 'a'), Some(0));
    assert_eq!(last_index_of(&s, 'x'), None);
    assert_eq!(last_index_of(&Vec::new(), '/'), None);
}

#[test]
fn base_name_is_what_follows_the_last_slash() {
    assert_eq!(base_name("/in/sub/a.csv"), "a.csv");
    assert_eq!(base_name("a.csv"), "a.csv");
    assert_eq!(base_name("/in/sub/"), "");
    assert_eq!(base_name(""), "");
}

#[test]
fn extension_is_what_follows_the_last_dot() {
    assert_eq!(extension("a.csv"), Some(String::from("csv")));
    assert_eq!(extension("a.tar.gz"), Some(String::from("gz")));
    assert_eq!(extension("a."), Some(String::new()));
}

#[test]
fn extension_is_missing_without_a_dot_or_with_a_leading_one_only() {
    assert_eq!(extension("Makefile"), None);
    assert_eq!(extension(".profile"), None);
    assert_eq!(extension(""), None);
    assert_eq!(extension(".profile.bak"), Some(String::from("bak")));
}

#[test]
fn strip_wildcard_takes_the_marker_off() {
    assert_eq!(strip_wildcard("*.csv"), "csv");
    assert_eq!(strip_wildcard("csv"), "csv");
    assert_eq!(strip_wildcard("*."), "");
    assert_eq!(strip_wildcard("*csv"), "*csv");
    assert_eq!(strip_wildcard(""), "");
}

#[test]
fn no_filter_admits_every_name() {
    assert!(admits(&None, "a.csv"));
    assert!(admits(&None, "Makefile"));
    assert!(admits(&None, ""));
}

#[test]
fn a_filter_admits_its_extension_only() {
    let csv = Some(String::from("csv"));
    assert!(admits(&csv, "a.csv"));
    assert!(admits(&csv, "b.tar.csv"));
    assert!(!admits(&csv, "c.txt"));
    assert!(!admits(&csv, "csv"));
    assert!(!admits(&csv, ".csv"));
    assert!(!admits(&csv, "a.csvx"));
}

#[test]
fn a_filter_is_matched_case_sensitively() {
    let csv = Some(String::from("csv"));
    assert!(!admits(&csv, "a.CSV"));
    assert!(!admits(&csv, "a.Csv"));
    let upper = Some(String::from("CSV"));
    assert!(admits(&upper, "a.CSV"));
    assert!(!admits(&upper, "a.csv"));
}

#[test]
fn a_filter_with_and_without_wildcard_are_the_same() {
    let bare = Some(String::from("csv"));
    let wild = Some(String::from("*.csv"));
    for name in ["a.csv", "c.txt", "noext", ".csv", "x.y.csv", "a.CSV"] {
        assert_eq!(admits(&bare, name), admits(&wild, name));
    }
    assert!(admits(&wild, "a.csv"));
}

#[test]
fn join_puts_one_slash_between_root_and_name() {
    assert_eq!(join("/out", "a.csv"), "/out/a.csv");
    assert_eq!(join("/out/", "a.csv"), "/out/a.csv");
    assert_eq!(join("", "a.csv"), "a.csv");
    assert_eq!(join("/", "a.csv"), "/a.csv");
}

#[test]
fn the_output_path_keeps_the_base_name() {
    for root in ["/out", "/out/", "", "/", "rel/dir"] {
        for item in ["/in/a.csv", "a.csv", "/deep/er/b.txt"] {
            let name = base_name(item);
            assert_eq!(base_name(&join(root, &name)), name);
        }
    }
}
