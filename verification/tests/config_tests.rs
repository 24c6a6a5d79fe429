use cbtr::config::{merge, Config, ConfigError, Entry, File, StringOrVec, Tools};
use cbtr::dispatch::find_match;
use cbtr::paths::DirPath;
use cbtr::search::Direction;
use cbtr::views::{BinView, FsView};

fn dp(parts: &[&str]) -> DirPath {
    let mut v: Vec<String> = Vec::new();
    for p in parts {
        v.push(p.to_string());
    }
    DirPath::new(v)
}

fn no_tools() -> Tools {
    Tools { format: None, check: None, build: None, test: None, run: None }
}

fn entry(name: &str, bin: Option<StringOrVec>, file: Option<File>) -> Entry {
    Entry { name: name.to_string(), bin, file, tools: no_tools() }
}

fn entry_names(c: &Config) -> Vec<String> {
    c.entries.iter().map(|e| e.name.clone()).collect()
}

#[test]
fn to_vec_of_a_single_string() {
    let sv = StringOrVec::Single("cargo".to_string());
    assert_eq!(sv.to_vec(), vec!["cargo".to_string()]);
}

#[test]
fn to_vec_of_a_list() {
    let sv = StringOrVec::Multiple(vec!["a".to_string(), "b".to_string()]);
    assert_eq!(sv.to_vec(), vec!["a".to_string(), "b".to_string()]);
}

#[test]
fn append_keeps_both_orders() {
    let mut a = Config { entries: vec![entry("one", None, None), entry("two", None, None)] };
    let b = Config { entries: vec![entry("three", None, None)] };
    a.append(b);
    assert_eq!(entry_names(&a), vec!["one", "two", "three"]);
}

#[test]
fn merge_orders_repository_before_user() {
    let repo = Config { entries: vec![entry("repo-rule", None, None)] };
    let user = Config { entries: vec![entry("user-rule", None, None)] };
    let merged = merge(Some(repo), Some(user)).unwrap();
    assert_eq!(entry_names(&merged), vec!["repo-rule", "user-rule"]);
}

#[test]
fn merge_with_only_repository_source_is_unchanged() {
    let repo = Config { entries: vec![entry("repo-rule", None, None)] };
    let merged = merge(Some(repo), None).unwrap();
    assert_eq!(entry_names(&merged), vec!["repo-rule"]);
}

#[test]
fn merge_with_only_user_source_is_unchanged() {
    let user = Config { entries: vec![entry("user-rule", None, None)] };
    let merged = merge(None, Some(user)).unwrap();
    assert_eq!(entry_names(&merged), vec!["user-rule"]);
}

#[test]
fn merge_with_neither_source_reports_no_configuration() {
    let r = merge(None, None);
    assert!(matches!(r, Err(ConfigError::NoConfigFound)));
}

#[test]
fn entry_without_requirements_always_matches() {
    let e = entry("default", None, None);
    let cwd = dp(&["repo"]);
    let root = dp(&["repo"]);
    assert!(e.matches(&cwd, &root, &FsView::new(), &BinView::new()));
}

#[test]
fn entry_with_missing_binary_does_not_match() {
    let e = entry("needs-foo", Some(StringOrVec::Single("foo".to_string())), None);
    let cwd = dp(&["repo"]);
    let root = dp(&["repo"]);
    assert!(!e.matches(&cwd, &root, &FsView::new(), &BinView::new()));
}

#[test]
fn entry_with_recorded_binary_matches() {
    let e = entry("needs-foo", Some(StringOrVec::Single("foo".to_string())), None);
    let cwd = dp(&["repo"]);
    let root = dp(&["repo"]);
    let mut bins = BinView::new();
    bins.record("foo".to_string());
    assert!(e.matches(&cwd, &root, &FsView::new(), &bins));
}

#[test]
fn entry_with_missing_file_does_not_match() {
    let req = File {
        name: StringOrVec::Single("Cargo.toml".to_string()),
        search_direction: Direction::Backwards,
    };
    let e = entry("rust", None, Some(req));
    let cwd = dp(&["repo", "sub"]);
    let root = dp(&["repo"]);
    assert!(!e.matches(&cwd, &root, &FsView::new(), &BinView::new()));
}

#[test]
fn entry_requires_every_named_file() {
    let req = File {
        name: StringOrVec::Multiple(vec!["a.txt".to_string(), "b.txt".to_string()]),
        search_direction: Direction::Backwards,
    };
    let e = entry("both", None, Some(req));
    let cwd = dp(&["repo"]);
    let root = dp(&["repo"]);
    let mut fs = FsView::new();
    fs.record(dp(&["repo"]), "a.txt".to_string());
    assert!(!e.matches(&cwd, &root, &fs, &BinView::new()));
    fs.record(dp(&["repo"]), "b.txt".to_string());
    assert!(e.matches(&cwd, &root, &fs, &BinView::new()));
}

#[test]
fn first_match_wins() {
    // Both profiles match; the earlier one in the merged list is chosen.
    let c = Config { entries: vec![entry("first", None, None), entry("second", None, None)] };
    let cwd = dp(&["repo"]);
    let root = dp(&["repo"]);
    let r = find_match(&c, &cwd, &root, &FsView::new(), &BinView::new());
    assert_eq!(r, Some(0));
}

#[test]
fn unresolvable_binary_skips_to_the_catch_all() {
    // Profile A requires the binary `foo` (not resolvable) and the file
    // `bar` (present); profile B has no requirements: B is selected.
    let req = File {
        name: StringOrVec::Single("bar".to_string()),
        search_direction: Direction::Backwards,
    };
    let a = entry("a", Some(StringOrVec::Single("foo".to_string())), Some(req));
    let b = entry("b", None, None);
    let c = Config { entries: vec![a, b] };
    let cwd = dp(&["repo"]);
    let root = dp(&["repo"]);
    let mut fs = FsView::new();
    fs.record(dp(&["repo"]), "bar".to_string());
    let r = find_match(&c, &cwd, &root, &fs, &BinView::new());
    assert_eq!(r, Some(1));
}

#[test]
fn no_profile_matching_is_none_not_an_error() {
    let e = entry("needs-foo", Some(StringOrVec::Single("foo".to_string())), None);
    let c = Config { entries: vec![e] };
    let cwd = dp(&["repo"]);
    let root = dp(&["repo"]);
    assert_eq!(find_match(&c, &cwd, &root, &FsView::new(), &BinView::new()), None);
}

#[test]
fn file_and_bin_names_are_collected_in_order() {
    let req = File {
        name: StringOrVec::Multiple(vec!["x".to_string(), "y".to_string()]),
        search_direction: Direction::Forwards,
    };
    let a = entry("a", Some(StringOrVec::Single("gcc".to_string())), Some(req));
    let b = entry(
        "b",
        Some(StringOrVec::Multiple(vec!["make".to_string()])),
        Some(File {
            name: StringOrVec::Single("z".to_string()),
            search_direction: Direction::Backwards,
        }),
    );
    let c = Config { entries: vec![a, b] };
    assert_eq!(c.file_names(), vec!["x".to_string(), "y".to_string(), "z".to_string()]);
    assert_eq!(c.bin_names(), vec!["gcc".to_string(), "make".to_string()]);
}
