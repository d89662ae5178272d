use chrono::{TimeZone, Utc};

use fimfic_tracker::errors::ErrorKind;
use fimfic_tracker::{SensibilityLevel, Story, StoryStatus, StoryUpdate};

fn datetime(yy: i32, mm: u32, dd: u32, h: u32, m: u32, s: u32) -> i64 {
    Utc.with_ymd_and_hms(yy, mm, dd, h, m, s).single().unwrap().timestamp()
}

fn get_story(chapters: Option<u64>, words: Option<u64>, datetime_value: Option<i64>) -> Story {
    Story {
        id: 100001,
        title: "An Active Story".into(),
        author: "A New Author".into(),
        chapter_count: chapters.unwrap_or(5),
        words: words.unwrap_or(12050),
        update_datetime: datetime_value.unwrap_or_else(|| datetime(2021, 1, 19, 23, 0, 0)),
        status: StoryStatus::Incomplete,
    }
}

fn assert_chapters(before: &Story, after: &Story) {
    match before.compare_to(after) {
        Ok(Some(StoryUpdate::Chapters { before: b, after: a })) => {
            assert_eq!(b, before.chapter_count);
            assert_eq!(a, after.chapter_count);
        }
        _ => unreachable!(),
    }
}

fn assert_words(before: &Story, after: &Story) {
    match before.compare_to(after) {
        Ok(Some(StoryUpdate::Words { before: b, after: a })) => {
            assert_eq!(b, before.words);
            assert_eq!(a, after.words);
        }
        _ => unreachable!(),
    }
}

fn assert_datetime(before: &Story, after: &Story) {
    match before.compare_to(after) {
        Ok(Some(StoryUpdate::DateTime { before: b, after: a })) => {
            assert_eq!(b, before.update_datetime);
            assert_eq!(a, after.update_datetime);
        }
        _ => unreachable!(),
    }
}

fn assert_no_difference(before: &Story, after: &Story) {
    match before.compare_to(after) {
        Ok(None) => {}
        _ => unreachable!(),
    }
}

#[test]
fn story_url() {
    let story = Story { id: 100000, ..get_story(None, None, None) };
    assert_eq!(story.url(), "https://www.fimfiction.net/story/100000");
    assert_eq!(datetime(2020, 12, 5, 3, 0, 0), 1607137200);
}

#[test]
fn update_comparison() {
    let story = get_story(None, None, None);

    assert_chapters(&story, &get_story(Some(2), None, None));
    assert_chapters(&story, &get_story(Some(9), None, None));
    assert_words(&story, &get_story(None, Some(9506), None));
    assert_words(&story, &get_story(None, Some(15042), None));
    assert_datetime(&story, &get_story(None, None, Some(datetime(2021, 2, 14, 23, 0, 0))));
    assert_no_difference(&story, &story);
    assert_no_difference(&story, &get_story(None, None, Some(datetime(2021, 1, 10, 12, 0, 0))));

    let another_story = Story {
        id: 100002,
        title: "Not 'An Active Story'".into(),
        author: "Another Author".into(),
        chapter_count: 12,
        words: 14012,
        update_datetime: datetime(2021, 2, 28, 23, 0, 0),
        status: StoryStatus::Incomplete,
    };

    match story.compare_to(&another_story).unwrap_err().kind {
        ErrorKind::BadStoryComparison { id, other_id } => {
            assert_eq!(id, 100001);
            assert_eq!(other_id, 100002);
        }
        _ => unreachable!(),
    }
}

#[test]
fn update_comparison_order() {
    let story = get_story(None, None, None);
    let dt = datetime(2021, 2, 14, 23, 0, 0);

    assert_chapters(&story, &get_story(Some(9), Some(15042), Some(dt)));
    assert_chapters(&story, &get_story(Some(9), Some(15042), None));
    assert_chapters(&story, &get_story(Some(9), None, Some(dt)));
    assert_words(&story, &get_story(None, Some(15042), Some(dt)));
    assert_chapters(&story, &get_story(Some(9), None, None));
    assert_words(&story, &get_story(None, Some(15042), None));
    assert_datetime(&story, &get_story(None, None, Some(dt)));
}

#[test]
fn equal_snapshots_show_no_update_at_any_level() {
    let a = get_story(None, None, None);
    let b = Story { title: "Renamed".into(), status: StoryStatus::Complete, ..a.clone() };
    for level in [
        SensibilityLevel::OnlyChapters,
        SensibilityLevel::IncludeWords,
        SensibilityLevel::Anything,
    ] {
        assert!(matches!(a.compare(&b, level), Ok(None)));
    }
}

#[test]
fn chapter_difference_counts_at_every_level() {
    let a = get_story(Some(5), None, None);
    let b = get_story(Some(6), None, None);
    for level in [
        SensibilityLevel::OnlyChapters,
        SensibilityLevel::IncludeWords,
        SensibilityLevel::Anything,
    ] {
        assert!(matches!(
            a.compare(&b, level),
            Ok(Some(StoryUpdate::Chapters { before: 5, after: 6 }))
        ));
    }
}

#[test]
fn words_difference_counts_from_include_words() {
    let a = get_story(None, Some(100), None);
    let b = get_story(None, Some(250), None);
    assert!(matches!(a.compare(&b, SensibilityLevel::OnlyChapters), Ok(None)));
    assert!(matches!(
        a.compare(&b, SensibilityLevel::IncludeWords),
        Ok(Some(StoryUpdate::Words { before: 100, after: 250 }))
    ));
    assert!(matches!(
        a.compare(&b, SensibilityLevel::Anything),
        Ok(Some(StoryUpdate::Words { before: 100, after: 250 }))
    ));
    let raw = a.compare_to(&b).unwrap().unwrap();
    assert!(!raw.is_significant(SensibilityLevel::OnlyChapters));
    assert!(raw.is_significant(SensibilityLevel::IncludeWords));
}

#[test]
fn newer_datetime_counts_only_at_anything() {
    let a = get_story(None, None, Some(1000));
    let b = get_story(None, None, Some(2000));
    assert!(matches!(a.compare(&b, SensibilityLevel::IncludeWords), Ok(None)));
    assert!(matches!(
        a.compare(&b, SensibilityLevel::Anything),
        Ok(Some(StoryUpdate::DateTime { before: 1000, after: 2000 }))
    ));
    assert!(matches!(b.compare(&a, SensibilityLevel::Anything), Ok(None)));
}

#[test]
fn mismatched_ids_fail_in_both_orders() {
    let a = get_story(None, None, None);
    let b = Story { id: 7, ..a.clone() };
    for (x, y) in [(&a, &b), (&b, &a)] {
        match x.compare(y, SensibilityLevel::Anything).unwrap_err().kind {
            ErrorKind::BadStoryComparison { id, other_id } => {
                assert_eq!(id, x.id);
                assert_eq!(other_id, y.id);
            }
            _ => unreachable!(),
        }
    }
}
