use fimfic_tracker::api::{vote_from_i64, AuthorResponse, StoryRating, StoryResponse};
use fimfic_tracker::{Story, StoryStatus};

#[test]
fn rating_test_deserialize() {
    assert_eq!(StoryRating::from_code(0), Some(StoryRating::Everyone));
    assert_eq!(StoryRating::from_code(1), Some(StoryRating::Teen));
    assert_eq!(StoryRating::from_code(2), Some(StoryRating::Mature));
}

#[test]
fn rating_rejects_unknown_codes() {
    assert_eq!(StoryRating::from_code(3), None);
    assert_eq!(StoryRating::Teen.name(), "Teen");
}

#[test]
fn status_test_deserialize() {
    assert_eq!(StoryStatus::from_code(0), Some(StoryStatus::Complete));
    assert_eq!(StoryStatus::from_name("Complete"), Some(StoryStatus::Complete));
    assert_eq!(StoryStatus::from_code(1), Some(StoryStatus::Incomplete));
    assert_eq!(StoryStatus::from_name("Incomplete"), Some(StoryStatus::Incomplete));
    assert_eq!(StoryStatus::from_code(2), Some(StoryStatus::Hiatus));
    assert_eq!(StoryStatus::from_name("On Hiatus"), Some(StoryStatus::Hiatus));
    assert_eq!(StoryStatus::from_code(3), Some(StoryStatus::Cancelled));
    assert_eq!(StoryStatus::from_name("Cancelled"), Some(StoryStatus::Cancelled));
}

#[test]
fn test_serialize() {
    assert_eq!(StoryStatus::Complete.code(), 0);
    assert_eq!(StoryStatus::Incomplete.code(), 1);
    assert_eq!(StoryStatus::Hiatus.code(), 2);
    assert_eq!(StoryStatus::Cancelled.code(), 3);
}

#[test]
fn status_rejects_unknown_values() {
    assert_eq!(StoryStatus::from_code(4), None);
    assert_eq!(StoryStatus::from_name("Hiatus"), None);
    assert_eq!(StoryStatus::from_name(""), None);
    assert_eq!(StoryStatus::Hiatus.name(), "On Hiatus");
}

#[test]
fn votes_decode_disabled_and_counts() {
    assert_eq!(vote_from_i64(-1), Ok(None));
    assert_eq!(vote_from_i64(0), Ok(Some(0)));
    assert_eq!(vote_from_i64(4294967295), Ok(Some(4294967295)));
    assert_eq!(vote_from_i64(4294967296), Err(4294967296));
}

#[test]
fn story_from_response() {
    let response = StoryResponse {
        id: 7,
        title: "T".to_string(),
        url: "https://www.fimfiction.net/story/7".to_string(),
        short_description: String::new(),
        description: String::new(),
        date_modified: 1607137200,
        image: None,
        full_image: None,
        views: 1,
        total_views: 2,
        words: 300,
        chapter_count: 3,
        comments: 0,
        author: AuthorResponse { id: 9, name: "A".to_string() },
        status: StoryStatus::Hiatus,
        content_rating: StoryRating::Everyone,
        likes: None,
        dislikes: Some(1),
        chapters: Vec::new(),
    };
    let story: Story = response.into();
    assert_eq!(story.id, 7);
    assert_eq!(story.title, "T");
    assert_eq!(story.author, "A");
    assert_eq!(story.chapter_count, 3);
    assert_eq!(story.words, 300);
    assert_eq!(story.update_datetime, 1607137200);
    assert_eq!(story.status, StoryStatus::Hiatus);
}
