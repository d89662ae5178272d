use fimfic_tracker::args::{SortKey, StatusFilter};
use fimfic_tracker::listing::{cmp_text, listing};
use fimfic_tracker::text::indent_msg;
use fimfic_tracker::{
    default_user_config_file, default_user_tracker_file, Config, ConfigBuilder, Story, StoryData,
    StoryStatus,
};

fn story(id: u32, title: &str, words: u64, status: StoryStatus) -> Story {
    Story {
        id,
        title: title.into(),
        author: format!("Author {}", 10 - id),
        chapter_count: id as u64,
        words,
        update_datetime: 1000 - id as i64,
        status,
    }
}

fn ledger() -> StoryData {
    let mut data = StoryData::new("x");
    data.insert(3, story(3, "Charlie", 300, StoryStatus::Complete));
    data.insert(1, story(1, "alpha", 100, StoryStatus::Incomplete));
    data.insert(2, story(2, "Bravo", 300, StoryStatus::Hiatus));
    data.insert(4, story(4, "Delta", 50, StoryStatus::Cancelled));
    data
}

fn ids(stories: &[Story]) -> Vec<u32> {
    stories.iter().map(|s| s.id).collect()
}

#[test]
fn listing_keeps_ledger_order_and_filters() {
    let data = ledger();
    assert_eq!(ids(&listing(&data, StatusFilter::all(), None, false)), vec![3, 1, 2, 4]);
    assert_eq!(ids(&listing(&data, StatusFilter::all(), None, true)), vec![4, 2, 1, 3]);
    let filter = StatusFilter::new(true, false, true, false);
    assert_eq!(ids(&listing(&data, filter, None, false)), vec![3, 2]);
}

#[test]
fn listing_sorts_by_key() {
    let data = ledger();
    let all = StatusFilter::all();
    assert_eq!(ids(&listing(&data, all, Some(SortKey::Id), false)), vec![1, 2, 3, 4]);
    assert_eq!(ids(&listing(&data, all, Some(SortKey::Id), true)), vec![4, 3, 2, 1]);
    assert_eq!(ids(&listing(&data, all, Some(SortKey::Title), false)), vec![2, 3, 4, 1]);
    assert_eq!(ids(&listing(&data, all, Some(SortKey::Author), false)), vec![4, 3, 2, 1]);
    assert_eq!(ids(&listing(&data, all, Some(SortKey::Chapters), false)), vec![1, 2, 3, 4]);
    assert_eq!(ids(&listing(&data, all, Some(SortKey::Words), false)), vec![4, 1, 3, 2]);
    assert_eq!(ids(&listing(&data, all, Some(SortKey::Update), false)), vec![4, 3, 2, 1]);
}

#[test]
fn text_order_is_the_order_of_str() {
    for (a, b) in [("a", "b"), ("B", "a"), ("ab", "a"), ("", ""), ("é", "z"), ("same", "same")] {
        assert_eq!(cmp_text(a, b), a.cmp(b));
    }
}

#[test]
fn tilde_is_expanded_and_default_files_are_named() {
    let config: Config = ConfigBuilder::new().download_dir("~/Download").into();
    assert_ne!(config.download_dir, "~/Download");
    assert!(config.download_dir.ends_with("/Download"));
    if let Some(file) = default_user_tracker_file() {
        assert!(file.ends_with("track-data.json"));
        assert_ne!(file, "track-data.json");
    }
    if let Some(file) = default_user_config_file() {
        assert!(file.ends_with("config.toml"));
    }
}

#[test]
fn indenting_messages() {
    assert_eq!(indent_msg("a\nb\r\nc\n", 3), "a\n   b\n   c");
    assert_eq!(indent_msg("", 2), "");
    assert_eq!(indent_msg("single", 4), "single");
    assert_eq!(indent_msg("\n", 2), "");
    assert_eq!(indent_msg("x\n\ny", 1), "x\n \n y");
}
