use tagthing::file::File;
use tagthing::tagcache::{select, TagCache};
use tagthing::ui::{ends_row, Message, Tagthing, IMAGES_PER_ROW};

fn strings(items: &[&str]) -> Vec<String> {
    items.iter().map(|s| s.to_string()).collect()
}

fn record(path: &str, tags: &[&str]) -> File {
    File { path: path.to_string(), date: None, tags: strings(tags) }
}

#[test]
fn shared_tag_occurs_once() {
    let files = vec![record("a", &["x"]), record("b", &["x"])];
    let cache = TagCache::new(&files);
    assert_eq!(cache.tags(), &strings(&["x"]));
    assert_eq!(cache.tags().iter().filter(|t| t.as_str() == "x").count(), 1);
}

#[test]
fn repeated_tag_of_one_file_occurs_once() {
    let files = vec![record("a", &["x", "y", "x", "x"]), record("b", &["y", "z", "y"])];
    assert_eq!(TagCache::new(&files).tags(), &strings(&["x", "y", "z"]));
}

#[test]
fn vocabulary_is_sorted_by_code_point() {
    let files = vec![
        record("a", &["dog", "Cat", "Catnip"]),
        record("b", &["apple", "Zebra", "\u{e9}t\u{e9}", "zoo", ""]),
    ];
    assert_eq!(
        TagCache::new(&files).tags(),
        &strings(&["", "Cat", "Catnip", "Zebra", "apple", "dog", "zoo", "\u{e9}t\u{e9}"])
    );
}

#[test]
fn vocabulary_keeps_case_apart() {
    let files = vec![record("a", &["cat", "Cat", "CAT"])];
    assert_eq!(TagCache::new(&files).tags(), &strings(&["CAT", "Cat", "cat"]));
}

#[test]
fn vocabulary_of_nothing_is_empty() {
    assert!(TagCache::new(&Vec::new()).tags().is_empty());
    assert!(TagCache::new(&vec![record("a", &[])]).tags().is_empty());
    assert!(TagCache::default().tags().is_empty());
    assert!(TagCache::default().search("").is_empty());
}

#[test]
fn search_ignores_case() {
    let cache = TagCache::new(&vec![record("a", &["Cat", "dog", "Catnip"])]);
    assert_eq!(cache.search("cat"), strings(&["Cat", "Catnip"]));
    assert_eq!(cache.search("CAT"), strings(&["Cat", "Catnip"]));
    assert_eq!(cache.search("DOG"), strings(&["dog"]));
    assert_eq!(cache.search("tni"), strings(&["Catnip"]));
}

#[test]
fn search_is_containment_only() {
    let cache = TagCache::new(&vec![record("a", &["Cat", "dog", "Catnip"])]);
    assert!(cache.search("cta").is_empty());
    assert!(cache.search("cats").is_empty());
    assert!(cache.search("catnipx").is_empty());
    assert_eq!(cache.search("a"), strings(&["Cat", "Catnip"]));
    assert_eq!(cache.search("o"), strings(&["dog"]));
}

#[test]
fn empty_query_finds_everything() {
    let cache = TagCache::new(&vec![record("a", &["Cat", "dog", "Catnip"])]);
    assert_eq!(cache.search(""), strings(&["Cat", "Catnip", "dog"]));
    assert_eq!(&cache.search(""), cache.tags());
}

#[test]
fn vocabulary_does_not_follow_later_changes() {
    let mut files = vec![record("a", &["x"])];
    let cache = TagCache::new(&files);
    files[0].add_tag("y");
    assert_eq!(cache.tags(), &strings(&["x"]));
    assert_eq!(TagCache::new(&files).tags(), &strings(&["x", "y"]));
}

#[test]
fn window_state_starts_empty() {
    let state = Tagthing::new(vec![record("a", &["x", "y"]), record("b", &["x"])]);
    assert_eq!(state.files.len(), 2);
    assert!(state.selected.is_empty());
    assert!(state.query.is_empty());
    assert_eq!(state.tag_cache.tags(), &strings(&["x", "y"]));
    assert!(state.current_file().is_none());
    let blank = Tagthing::default();
    assert!(blank.files.is_empty());
    assert!(blank.tag_cache.tags().is_empty());
}

#[test]
fn update_replaces_selection_and_query() {
    let mut state = Tagthing::new(vec![record("a", &["x"]), record("b", &["y"])]);
    state.update(Message::SelectImage(1));
    assert_eq!(state.selected, vec![1]);
    assert_eq!(state.current_file().unwrap().path, "b");
    state.update(Message::SelectImage(0));
    assert_eq!(state.selected, vec![0]);
    assert_eq!(state.current_file().unwrap().path, "a");
    state.update(Message::UpdateQuery("ca".to_string()));
    assert_eq!(state.query, "ca");
    assert_eq!(state.selected, vec![0]);
    state.update(Message::TagSelected("x".to_string()));
    assert_eq!(state.query, "x");
    assert_eq!(state.files.len(), 2);
    assert_eq!(state.tag_cache.tags(), &strings(&["x", "y"]));
}

#[test]
fn selection_outside_the_gallery_shows_nothing() {
    let mut state = Tagthing::new(vec![record("a", &["x"])]);
    state.update(Message::SelectImage(5));
    assert_eq!(state.selected, vec![5]);
    assert!(state.current_file().is_none());
}

#[test]
fn select_goes_by_the_lowered_forms() {
    let entries = strings(&["Cat", "dog", "Catnip"]);
    let lowered = strings(&["cat", "dog", "catnip"]);
    assert_eq!(select(&entries, &lowered, "cat"), strings(&["Cat", "Catnip"]));
    assert_eq!(select(&entries, &lowered, "Cat"), Vec::<String>::new());
    assert_eq!(select(&entries, &lowered, ""), entries);
    assert_eq!(select(&entries, &entries, "Cat"), strings(&["Cat", "Catnip"]));
    assert_eq!(select(&entries, &strings(&["x", "y", "z"]), "y"), strings(&["dog"]));
}

#[test]
fn select_leaves_out_entries_without_form() {
    let entries = strings(&["a", "b", "c"]);
    assert_eq!(select(&entries, &strings(&["a"]), ""), strings(&["a"]));
    assert_eq!(select(&entries, &Vec::new(), ""), Vec::<String>::new());
    assert_eq!(select(&Vec::new(), &entries, ""), Vec::<String>::new());
}

#[test]
fn search_folds_case_beyond_ascii() {
    let cache = TagCache::new(&vec![record("a", &["\u{c9}t\u{e9}", "\u{e9}tude", "Sommer"])]);
    assert_eq!(cache.search("\u{e9}T"), strings(&["\u{c9}t\u{e9}", "\u{e9}tude"]));
    assert_eq!(cache.search("\u{c9}"), strings(&["\u{c9}t\u{e9}", "\u{e9}tude"]));
    assert_eq!(cache.search("SOMMER"), strings(&["Sommer"]));
}

#[test]
fn gallery_rows_hold_four_pictures() {
    assert_eq!(IMAGES_PER_ROW, 4);
    let ends: Vec<usize> = (0..13).filter(|place| ends_row(*place)).collect();
    assert_eq!(ends, vec![3, 7, 11]);
    assert!(ends_row(usize::MAX));
    assert!(!ends_row(usize::MAX - 1));
}
