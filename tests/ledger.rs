use fimfic_tracker::ledger::untrack;
use fimfic_tracker::{Story, StoryData, StoryStatus};

fn story(id: u32, title: &str) -> Story {
    Story {
        id,
        title: title.into(),
        author: "Author".into(),
        chapter_count: 1,
        words: 1000,
        update_datetime: 1607137200,
        status: StoryStatus::Incomplete,
    }
}

#[test]
fn insert_keeps_position_of_existing_key() {
    let mut data = StoryData::new("track-data.json");
    assert!(data.is_empty());
    assert!(data.insert(1, story(1, "one")).is_none());
    assert!(data.insert(2, story(2, "two")).is_none());
    assert!(data.insert(3, story(3, "three")).is_none());
    let replaced = data.insert(2, story(2, "two again")).unwrap();
    assert_eq!(replaced.title, "two");
    assert_eq!(data.keys(), vec![1, 2, 3]);
    assert_eq!(data.get(2).unwrap().title, "two again");
    assert_eq!(data.path(), "track-data.json");
}

#[test]
fn removal_preserves_order() {
    let mut data = StoryData::new("x");
    for id in [4, 8, 15, 16] {
        data.insert(id, story(id, "s"));
    }
    assert_eq!(data.shift_remove(8).unwrap().id, 8);
    assert!(data.shift_remove(8).is_none());
    assert_eq!(data.keys(), vec![4, 15, 16]);
    assert!(!data.contains_key(8));
}

#[test]
fn untrack_reports_each_id() {
    let mut data = StoryData::new("x");
    for id in [1, 2, 3] {
        data.insert(id, story(id, "s"));
    }
    let removed = untrack(&mut data, &vec![2, 9, 2, 1]);
    assert_eq!(removed.len(), 4);
    assert_eq!(removed[0].as_ref().unwrap().id, 2);
    assert!(removed[1].is_none());
    assert!(removed[2].is_none());
    assert_eq!(removed[3].as_ref().unwrap().id, 1);
    assert_eq!(data.keys(), vec![3]);
}

#[test]
fn loading_collapses_duplicate_ids() {
    let mut data = StoryData::new("x");
    data.load_records(vec![story(5, "first"), story(6, "other"), story(5, "second")]);
    assert_eq!(data.keys(), vec![5, 6]);
    assert_eq!(data.get(5).unwrap().title, "second");
}

#[test]
fn save_then_load_round_trip() {
    let mut data = StoryData::new("x");
    data.insert(30, story(30, "c"));
    data.insert(10, story(10, "a"));
    data.insert(20, story(20, "b"));
    let saved = data.values();
    let mut loaded = StoryData::new("x");
    loaded.load_records(saved.clone());
    let reloaded = loaded.values();
    assert_eq!(reloaded.len(), 3);
    for (a, b) in saved.iter().zip(reloaded.iter()) {
        assert_eq!(a.id, b.id);
        assert_eq!(a.title, b.title);
        assert_eq!(a.author, b.author);
        assert_eq!(a.chapter_count, b.chapter_count);
        assert_eq!(a.words, b.words);
        assert_eq!(a.update_datetime, b.update_datetime);
        assert_eq!(a.status, b.status);
    }
    assert_eq!(loaded.keys(), vec![30, 10, 20]);
}
