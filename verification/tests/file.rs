use tagthing::dates::{parse_date, Timestamp};
use tagthing::file::{set_all_dates, File};
use tagthing::memory::write_through;
use tagthing::store::{DateField, Edit, MemoryStore, OpenMode, StoreError};

fn strings(items: &[&str]) -> Vec<String> {
    items.iter().map(|s| s.to_string()).collect()
}

fn record(tags: &[&str]) -> File {
    File { path: "photo.jpg".to_string(), date: None, tags: strings(tags) }
}

fn sorted(mut items: Vec<String>) -> Vec<String> {
    items.sort();
    items
}

#[test]
fn tags_survive_write_and_read() {
    let file = record(&["a", "b", "c"]);
    let mut store = MemoryStore::new();
    assert_eq!(file.write_tags(&mut store), Ok(()));
    let read = File::read("photo.jpg".to_string(), &mut store).unwrap();
    assert_eq!(sorted(read.tags.clone()), strings(&["a", "b", "c"]));
    assert_eq!(read.tags, strings(&["a", "b", "c"]));
    assert_eq!(read.path, "photo.jpg");
    assert_eq!(read.date, None);
}

#[test]
fn written_tags_replace_stored_tags() {
    let mut store = MemoryStore::new();
    store.subject = strings(&["old", "older", "oldest", "ancient"]);
    store.created = Some("2022-03-02".to_string());
    assert_eq!(record(&["new"]).write_tags(&mut store), Ok(()));
    assert_eq!(store.subject, strings(&["new"]));
    assert_eq!(store.created, Some("2022-03-02".to_string()));
    assert_eq!(store.open, None);
    assert_eq!(record(&[]).write_tags(&mut store), Ok(()));
    assert!(store.subject.is_empty());
}

#[test]
fn duplicate_tags_are_written_as_they_are() {
    let mut store = MemoryStore::new();
    assert_eq!(record(&["x", "y", "x"]).write_tags(&mut store), Ok(()));
    assert_eq!(store.subject, strings(&["x", "y", "x"]));
}

#[test]
fn scan_reads_items_in_index_order() {
    let mut store = MemoryStore::new();
    store.subject = strings(&["one", "two", "three"]);
    let read = File::read("a".to_string(), &mut store).unwrap();
    assert_eq!(read.tags, strings(&["one", "two", "three"]));
    assert_eq!(store.subject, strings(&["one", "two", "three"]));
    assert_eq!(store.open, None);
}

#[test]
fn scan_of_empty_array_gives_no_tags() {
    let mut store = MemoryStore::new();
    let read = File::read("a".to_string(), &mut store).unwrap();
    assert!(read.tags.is_empty());
    assert_eq!(read.date, None);
}

#[test]
fn read_resolves_the_date_in_priority_order() {
    let mut store = MemoryStore::new();
    store.create_date = Some("2022-01-01T00:00:00+00:00".to_string());
    store.date_time_original = Some("2023-06-15T10:20:30+02:00".to_string());
    store.created = Some("garbage".to_string());
    let read = File::read("a".to_string(), &mut store).unwrap();
    assert_eq!(read.date, Some(Timestamp { secs: 1686817230, nanos: 0, offset: 7200 }));
    store.created = Some("2022-03-02".to_string());
    let read = File::read("a".to_string(), &mut store).unwrap();
    assert_eq!(read.date, Some(Timestamp { secs: 1646179200, nanos: 0, offset: 0 }));
    store.date_time_original = None;
    store.created = None;
    let read = File::read("a".to_string(), &mut store).unwrap();
    assert_eq!(read.date, Some(Timestamp { secs: 1640995200, nanos: 0, offset: 0 }));
}

#[test]
fn read_of_unreadable_container_fails() {
    let mut store = MemoryStore::new();
    store.readable = false;
    store.subject = strings(&["a"]);
    assert_eq!(File::read("a".to_string(), &mut store).err(), Some(StoreError::Open));
    assert_eq!(store.open, None);
    let mut busy = MemoryStore::new();
    busy.open = Some(OpenMode::Update);
    assert_eq!(File::read("a".to_string(), &mut busy).err(), Some(StoreError::Open));
    assert_eq!(busy.open, Some(OpenMode::Update));
}

#[test]
fn read_ignores_a_failing_close() {
    let mut store = MemoryStore::new();
    store.closes = false;
    store.subject = strings(&["a"]);
    let read = File::read("a".to_string(), &mut store).unwrap();
    assert_eq!(read.tags, strings(&["a"]));
    assert_eq!(store.open, None);
}

#[test]
fn write_to_unwritable_container_fails() {
    let mut store = MemoryStore::new();
    store.writable = false;
    store.subject = strings(&["kept"]);
    assert_eq!(record(&["a"]).write_tags(&mut store), Err(StoreError::Open));
    assert_eq!(record(&["a"]).write_created_date(&mut store), Err(StoreError::Open));
    assert_eq!(record(&["a"]).write_all(&mut store), Err(StoreError::Open));
    assert_eq!(store.subject, strings(&["kept"]));
}

#[test]
fn refused_change_fails_and_closes() {
    let mut store = MemoryStore::new();
    store.accepts = false;
    store.subject = strings(&["kept"]);
    assert_eq!(record(&["a"]).write_tags(&mut store), Err(StoreError::Serialize));
    assert_eq!(store.subject, strings(&["kept"]));
    assert_eq!(store.open, None);
}

#[test]
fn failing_close_is_reported() {
    let mut store = MemoryStore::new();
    store.closes = false;
    assert_eq!(record(&["a"]).write_tags(&mut store), Err(StoreError::Close));
    assert_eq!(store.subject, strings(&["a"]));
    assert_eq!(store.open, None);
}

#[test]
fn date_is_written_to_all_three_fields() {
    let mut file = record(&["a"]);
    file.date = parse_date("2023-06-15T10:20:30+02:00");
    let mut store = MemoryStore::new();
    store.subject = strings(&["kept"]);
    assert_eq!(file.write_created_date(&mut store), Ok(()));
    let text = Some("2023-06-15 10:20:30 +02:00".to_string());
    assert_eq!(store.create_date, text);
    assert_eq!(store.date_time_original, text);
    assert_eq!(store.created, text);
    assert_eq!(store.subject, strings(&["kept"]));
    assert_eq!(store.open, None);
}

#[test]
fn absent_date_leaves_stored_dates_alone() {
    let mut store = MemoryStore::new();
    store.create_date = Some("2022-03-02".to_string());
    store.date_time_original = Some("2022:03:02 22:37:46".to_string());
    store.created = Some("2022".to_string());
    assert_eq!(record(&["a"]).write_created_date(&mut store), Ok(()));
    assert_eq!(store.create_date, Some("2022-03-02".to_string()));
    assert_eq!(store.date_time_original, Some("2022:03:02 22:37:46".to_string()));
    assert_eq!(store.created, Some("2022".to_string()));
    assert_eq!(record(&["a"]).write_all(&mut store), Ok(()));
    assert_eq!(store.create_date, Some("2022-03-02".to_string()));
    assert_eq!(store.created, Some("2022".to_string()));
    assert_eq!(store.subject, strings(&["a"]));
}

#[test]
fn absent_date_still_needs_the_container_to_close() {
    let mut store = MemoryStore::new();
    store.closes = false;
    assert_eq!(record(&[]).write_created_date(&mut store), Err(StoreError::Close));
    let mut deaf = MemoryStore::new();
    deaf.accepts = false;
    assert_eq!(record(&[]).write_created_date(&mut deaf), Ok(()));
}

#[test]
fn date_that_names_no_day_is_not_written() {
    let mut file = record(&["a"]);
    file.date = Some(Timestamp { secs: 0, nanos: 0, offset: 86_400 });
    let mut store = MemoryStore::new();
    store.created = Some("2022".to_string());
    assert_eq!(file.date_edits().err(), Some(StoreError::Serialize));
    assert_eq!(file.write_created_date(&mut store), Err(StoreError::Serialize));
    assert_eq!(store.created, Some("2022".to_string()));
    assert_eq!(store.create_date, None);
    assert_eq!(file.write_all(&mut store), Err(StoreError::Serialize));
    assert_eq!(store.subject, strings(&["a"]));
    assert_eq!(store.create_date, None);
    file.date = Some(Timestamp { secs: i64::MAX, nanos: 0, offset: 0 });
    assert_eq!(file.write_created_date(&mut store), Err(StoreError::Serialize));
    file.date = Some(Timestamp { secs: 0, nanos: 2_000_000_000, offset: 0 });
    assert_eq!(file.write_created_date(&mut store), Err(StoreError::Serialize));
}

#[test]
fn write_all_writes_tags_then_date() {
    let mut file = record(&["a", "b"]);
    file.date = parse_date("2022-03-02T22:37:46");
    let mut store = MemoryStore::new();
    assert_eq!(file.write_all(&mut store), Ok(()));
    assert_eq!(store.subject, strings(&["a", "b"]));
    assert_eq!(store.created, Some("2022-03-02 22:37:46 +00:00".to_string()));
    assert_eq!(store.create_date, store.created);
    assert_eq!(store.date_time_original, store.created);
}

#[test]
fn write_all_stops_at_the_first_failure() {
    let mut file = record(&["a", "b"]);
    file.date = parse_date("2022-03-02T22:37:46");
    let mut store = MemoryStore::new();
    store.closes = false;
    store.created = Some("2001".to_string());
    assert_eq!(file.write_all(&mut store), Err(StoreError::Close));
    assert_eq!(store.subject, strings(&["a", "b"]));
    assert_eq!(store.created, Some("2001".to_string()));
    assert_eq!(store.create_date, None);
    assert_eq!(store.date_time_original, None);
}

#[test]
fn timestamp_in_words() {
    let date = Timestamp { secs: 1686817230, nanos: 0, offset: 7200 };
    assert_eq!(date.to_text(), Some("2023-06-15 10:20:30 +02:00".to_string()));
    let utc = Timestamp { secs: 0, nanos: 0, offset: 0 };
    assert_eq!(utc.to_text(), Some("1970-01-01 00:00:00 +00:00".to_string()));
    let west = Timestamp { secs: 0, nanos: 500_000_000, offset: -5400 };
    assert_eq!(west.to_text(), Some("1969-12-31 22:30:00.500 -01:30".to_string()));
    assert_eq!(Timestamp { secs: 0, nanos: 0, offset: -86_400 }.to_text(), None);
}

#[test]
fn tag_edits_clear_then_append() {
    assert_eq!(
        record(&["a", "b"]).tag_edits(),
        vec![
            Edit::ClearSubject,
            Edit::AppendSubject("a".to_string()),
            Edit::AppendSubject("b".to_string()),
        ]
    );
    assert_eq!(record(&[]).tag_edits(), vec![Edit::ClearSubject]);
}

#[test]
fn date_edits_set_every_field() {
    let text = "2022-03-02 22:37:46 +00:00".to_string();
    let edits = vec![
        Edit::SetDate(DateField::Descriptive, text.clone()),
        Edit::SetDate(DateField::Imaging, text.clone()),
        Edit::SetDate(DateField::Core, text.clone()),
    ];
    assert_eq!(set_all_dates(&text), edits);
    let mut file = record(&[]);
    assert_eq!(file.date_edits(), Ok(Vec::new()));
    file.date = parse_date("2022-03-02T22:37:46");
    assert_eq!(file.date_edits(), Ok(edits));
}

#[test]
fn write_through_makes_changes_in_order() {
    let mut store = MemoryStore::new();
    store.subject = strings(&["x"]);
    let edits = vec![
        Edit::AppendSubject("y".to_string()),
        Edit::SetDate(DateField::Core, "first".to_string()),
        Edit::SetDate(DateField::Core, "second".to_string()),
    ];
    assert_eq!(write_through(&mut store, edits), Ok(()));
    assert_eq!(store.subject, strings(&["x", "y"]));
    assert_eq!(store.create_date, Some("second".to_string()));
    assert_eq!(write_through(&mut store, vec![Edit::ClearSubject]), Ok(()));
    assert!(store.subject.is_empty());
}

#[test]
fn add_tag_appends_duplicates_too() {
    let mut file = record(&["a"]);
    file.add_tag("b");
    file.add_tag("a");
    assert_eq!(file.get_tags(), &strings(&["a", "b", "a"]));
    assert_eq!(file.path, "photo.jpg");
}

#[test]
fn set_tags_replaces_everything() {
    let mut file = record(&["a", "b"]);
    file.set_tags(strings(&["c"]));
    assert_eq!(file.get_tags(), &strings(&["c"]));
    file.set_tags(Vec::new());
    assert!(file.get_tags().is_empty());
}

#[test]
fn remove_tag_takes_the_first_occurrence() {
    let mut file = record(&["x", "y", "x"]);
    assert_eq!(file.remove_tag("x"), Ok(()));
    assert_eq!(file.tags, strings(&["y", "x"]));
    assert_eq!(file.remove_tag("x"), Ok(()));
    assert_eq!(file.tags, strings(&["y"]));
}

#[test]
fn remove_tag_of_absent_tag_fails() {
    let mut file = record(&["x", "y"]);
    assert_eq!(file.remove_tag("z"), Err(()));
    assert_eq!(file.tags, strings(&["x", "y"]));
    assert_eq!(file.remove_tag("X"), Err(()));
    assert_eq!(file.remove_tag(""), Err(()));
    let mut empty = record(&[]);
    assert_eq!(empty.remove_tag("x"), Err(()));
}

#[test]
fn read_dir_leaves_failures_out() {
    let outcomes = vec![
        Ok(record(&["a"])),
        Err(StoreError::Open),
        Ok(record(&["b"])),
        Err(StoreError::Open),
    ];
    let files = File::read_dir(outcomes);
    assert_eq!(files.len(), 2);
    assert_eq!(files[0].tags, strings(&["a"]));
    assert_eq!(files[1].tags, strings(&["b"]));
    assert!(File::read_dir(Vec::new()).is_empty());
    assert!(File::read_dir(vec![Err(StoreError::Open)]).is_empty());
}
