use fimfic_tracker::args::{id_from_url, parse_story_arg, Prompt, StatusFilter};
use fimfic_tracker::StoryStatus;

fn assert_id(url: &str, expect: u32) {
    assert_eq!(id_from_url(url), Some(expect), "failed to extract ID from `{}`", url);
}

fn assert_id_prefixes(path: &str, expect: u32) {
    assert_id(&format!("https://www.fimfiction.net/story/{}", path), expect);
    assert_id(&format!("http://www.fimfiction.net/story/{}", path), expect);
    assert_id(&format!("https://fimfiction.net/story/{}", path), expect);
    assert_id(&format!("http://fimfiction.net/story/{}", path), expect);
}

fn assert_id_trail(path: &str, expect: u32) {
    assert_id_prefixes(path, expect);
    assert_id_prefixes(&format!("{}/", path), expect);
}

#[test]
fn extract_story_id_from_url() {
    assert_id_trail("196256", 196256);
    assert_id_trail("196256/the-moons-apprentice", 196256);
    assert_id_prefixes(
        "196256/1/the-moons-apprentice/original-oneshot-prelude-a-dream-fulfilled",
        196256,
    );
}

#[test]
fn rejects_other_urls() {
    assert_eq!(id_from_url("ftp://www.fimfiction.net/story/196256"), None);
    assert_eq!(id_from_url("https://www.example.net/story/196256"), None);
    assert_eq!(id_from_url("https://www.fimfiction.net/stories/196256"), None);
    assert_eq!(id_from_url("https://www.fimfiction.net/story/"), None);
    assert_eq!(id_from_url("https://www.fimfiction.net/story/abc"), None);
    assert_eq!(id_from_url("https://www.fimfiction.net/story/4294967296"), None);
    assert_eq!(id_from_url("https://www.fimfiction.net/story/4294967295"), Some(4294967295));
    assert_eq!(id_from_url("https://www.fimfiction.net/story/+12"), Some(12));
    assert_eq!(id_from_url("https://www.fimfiction.net"), None);
    assert_eq!(id_from_url("196256"), None);
}

#[test]
fn story_argument_is_an_id_or_a_url() {
    assert_eq!(parse_story_arg("196256"), Some(196256));
    assert_eq!(parse_story_arg("https://fimfiction.net/story/42/x"), Some(42));
    assert_eq!(parse_story_arg("not a story"), None);
    assert_eq!(parse_story_arg(""), None);
}

#[test]
fn filter_all() {
    let filter = StatusFilter::all();
    assert!(filter.complete());
    assert!(filter.incomplete());
    assert!(filter.hiatus());
    assert!(filter.cancelled());
}

#[test]
fn filter_complete() {
    let filter = StatusFilter::new(true, false, false, false);
    assert!(filter.complete());
    assert!(!filter.incomplete());
    assert!(!filter.hiatus());
    assert!(!filter.cancelled());
}

#[test]
fn filter_incomplete() {
    let filter = StatusFilter::new(false, true, false, false);
    assert!(!filter.complete());
    assert!(filter.incomplete());
    assert!(!filter.hiatus());
    assert!(!filter.cancelled());
}

#[test]
fn filter_hiatus() {
    let filter = StatusFilter::new(false, false, true, false);
    assert!(!filter.complete());
    assert!(!filter.incomplete());
    assert!(filter.hiatus());
    assert!(!filter.cancelled());
}

#[test]
fn filter_cancelled() {
    let filter = StatusFilter::new(false, false, false, true);
    assert!(!filter.complete());
    assert!(!filter.incomplete());
    assert!(!filter.hiatus());
    assert!(filter.cancelled());
}

#[test]
fn filter_from_flags() {
    let none = StatusFilter::from_flags(false, false, false, false);
    assert_eq!(none, StatusFilter::all());
    let some = StatusFilter::from_flags(false, true, false, true);
    assert!(!some.shows(StoryStatus::Complete));
    assert!(some.shows(StoryStatus::Incomplete));
    assert!(!some.shows(StoryStatus::Hiatus));
    assert!(some.shows(StoryStatus::Cancelled));
}

#[test]
fn prompt_from_flags() {
    assert_eq!(Prompt::from_flags(true, true), Prompt::AssumeYes);
    assert_eq!(Prompt::from_flags(true, false), Prompt::AssumeYes);
    assert_eq!(Prompt::from_flags(false, true), Prompt::AssumeNo);
    assert_eq!(Prompt::from_flags(false, false), Prompt::Ask);
}
