//! Data handed out by the Fimfiction story API, and the decoding of its coded fields.
use vstd::prelude::*;
use vstd::string::StringExecFns;

use crate::story::Story;

verus! {

/// The different completion statuses a story can have.
#[derive(Clone, Copy, Debug, PartialEq, Eq, Structural)]
pub enum StoryStatus {
    /// A story marked as `Completed`.
    Complete,
    /// A story marked as `Incomplete`.
    Incomplete,
    /// A story marked as `On Hiatus`.
    Hiatus,
    /// A story marked as `Cancelled`.
    Cancelled,
}

/// The numeric code under which a status is stored and transmitted.
pub open spec fn status_code(s: StoryStatus) -> u8 {
    match s {
        StoryStatus::Complete => 0,
        StoryStatus::Incomplete => 1,
        StoryStatus::Hiatus => 2,
        StoryStatus::Cancelled => 3,
    }
}

/// The display name of a status.
pub open spec fn status_name(s: StoryStatus) -> Seq<char> {
    match s {
        StoryStatus::Complete => "Complete"@,
        StoryStatus::Incomplete => "Incomplete"@,
        StoryStatus::Hiatus => "On Hiatus"@,
        StoryStatus::Cancelled => "Cancelled"@,
    }
}

impl StoryStatus {
    /// The numeric code of the status: `0` Complete, `1` Incomplete, `2` Hiatus, `3` Cancelled.
    pub fn code(&self) -> (r: u8)
        ensures
            r == status_code(*self),
    {
        match self {
            StoryStatus::Complete => 0,
            StoryStatus::Incomplete => 1,
            StoryStatus::Hiatus => 2,
            StoryStatus::Cancelled => 3,
        }
    }

    /// The display name of the status.
    pub fn name(&self) -> (r: &'static str)
        ensures
            r@ == status_name(*self),
    {
        match self {
            StoryStatus::Complete => "Complete",
            StoryStatus::Incomplete => "Incomplete",
            StoryStatus::Hiatus => "On Hiatus",
            StoryStatus::Cancelled => "Cancelled",
        }
    }

    /// Decodes a status from its display name; other names are rejected.
    pub fn from_name(value: &str) -> (r: Option<StoryStatus>)
        ensures
            r matches Some(s) ==> status_name(s) == value@,
            r is None ==> forall|s: StoryStatus| status_name(s) != value@,
    {
        let v = value.to_owned();
        if v == String::from_str("Complete") {
            Some(StoryStatus::Complete)
        } else if v == String::from_str("Incomplete") {
            Some(StoryStatus::Incomplete)
        } else if v == String::from_str("On Hiatus") {
            Some(StoryStatus::Hiatus)
        } else if v == String::from_str("Cancelled") {
            Some(StoryStatus::Cancelled)
        } else {
            proof {
                assert forall|s: StoryStatus| status_name(s) != value@ by {
                    match s {
                        StoryStatus::Complete => {},
                        StoryStatus::Incomplete => {},
                        StoryStatus::Hiatus => {},
                        StoryStatus::Cancelled => {},
                    }
                }
            }
            None
        }
    }

    /// Decodes a numeric status code; codes above `3` are rejected.
    pub fn from_code(value: u64) -> (r: Option<StoryStatus>)
        ensures
            value <= 3 <==> r is Some,
            r matches Some(s) ==> status_code(s) == value,
    {
        match value {
            0 => Some(StoryStatus::Complete),
            1 => Some(StoryStatus::Incomplete),
            2 => Some(StoryStatus::Hiatus),
            3 => Some(StoryStatus::Cancelled),
            _ => None,
        }
    }
}


/// The different ratings a story can have.
#[derive(Clone, Copy, Debug, PartialEq, Eq, Structural)]
pub enum StoryRating {
    /// A story rated as for `Everyone`.
    Everyone,
    /// A story rated as `Teen`.
    Teen,
    /// A story rated as `Mature`.
    Mature,
}

/// The numeric code under which a rating is transmitted.
pub open spec fn rating_code(r: StoryRating) -> u8 {
    match r {
        StoryRating::Everyone => 0,
        StoryRating::Teen => 1,
        StoryRating::Mature => 2,
    }
}

/// The display name of a rating.
pub open spec fn rating_name(r: StoryRating) -> Seq<char> {
    match r {
        StoryRating::Everyone => "Everyone"@,
        StoryRating::Teen => "Teen"@,
        StoryRating::Mature => "Mature"@,
    }
}

impl StoryRating {
    /// Decodes a numeric rating code; codes above `2` are rejected.
    pub fn from_code(value: u64) -> (r: Option<StoryRating>)
        ensures
            value <= 2 <==> r is Some,
            r matches Some(x) ==> rating_code(x) == value,
    {
        match value {
            0 => Some(StoryRating::Everyone),
            1 => Some(StoryRating::Teen),
            2 => Some(StoryRating::Mature),
            _ => None,
        }
    }

    /// The display name of the rating.
    pub fn name(&self) -> (r: &'static str)
        ensures
            r@ == rating_name(*self),
    {
        match self {
            StoryRating::Everyone => "Everyone",
            StoryRating::Teen => "Teen",
            StoryRating::Mature => "Mature",
        }
    }
}

/// Decodes a like or dislike count: a negative number means that votes are disabled, and a
/// count must fit in a `u32`. `Err` carries a count that does not fit.
pub fn vote_from_i64(value: i64) -> (r: core::result::Result<Option<u32>, u64>)
    ensures
        value < 0 ==> r == Ok::<Option<u32>, u64>(None),
        0 <= value <= u32::MAX ==> r == Ok::<Option<u32>, u64>(Some(value as u32)),
        value > u32::MAX ==> r == Err::<Option<u32>, u64>(value as u64),
{
    if value < 0 {
        Ok(None)
    } else if value <= u32::MAX as i64 {
        Ok(Some(value as u32))
    } else {
        Err(value as u64)
    }
}

/// Container of the author data given by the Fimfiction story API.
#[derive(Clone, Debug)]
pub struct AuthorResponse {
    /// Author's ID.
    pub id: u32,
    /// Username of the author.
    pub name: String,
}

/// Container of the data of one chapter given by the Fimfiction story API.
#[derive(Clone, Debug)]
pub struct ChapterResponse {
    /// Chapter's ID.
    pub id: u32,
    /// Title of the chapter.
    pub title: String,
    /// The amount of words the chapter has.
    pub words: u64,
    /// The amount of views the chapter has.
    pub views: u32,
    /// Fimfiction URL to the story's chapter.
    pub link: String,
    /// Last chapter update timestamp.
    pub date_modified: i64,
}

/// Container of the story data given by the Fimfiction story API.
#[derive(Clone, Debug)]
pub struct StoryResponse {
    /// Unique story ID.
    pub id: u32,
    /// Title of the story.
    pub title: String,
    /// Fimfiction URL to the story.
    pub url: String,
    /// Summary of the story, shown on story cards.
    pub short_description: String,
    /// Complete story description, shown on the main story page.
    pub description: String,
    /// Last story update timestamp, in seconds since the Unix epoch.
    pub date_modified: i64,
    /// Story cover image in thumbnail size, if any.
    pub image: Option<String>,
    /// Story cover image in full size, if any.
    pub full_image: Option<String>,
    /// The views the story has.
    pub views: u32,
    /// The total views the story has.
    pub total_views: u32,
    /// The amount of words the story has.
    pub words: u64,
    /// The amount of chapters the story has.
    pub chapter_count: u64,
    /// The amount of comments the story has.
    pub comments: u32,
    /// Author of the story.
    pub author: AuthorResponse,
    /// Story completion status.
    pub status: StoryStatus,
    /// Rating given to the story.
    pub content_rating: StoryRating,
    /// The amount of likes the story has, if not disabled.
    pub likes: Option<u32>,
    /// The amount of dislikes the story has, if not disabled.
    pub dislikes: Option<u32>,
    /// Chapters of the story.
    pub chapters: Vec<ChapterResponse>,
}

/// The response of the Fimfiction story API.
#[derive(Clone, Debug)]
pub struct FimfictionResponse {
    /// Story data.
    pub story: StoryResponse,
}

/// The story data that the ledger keeps of a response.
pub open spec fn story_of_response(response: StoryResponse) -> Story {
    Story {
        id: response.id,
        title: response.title,
        author: response.author.name,
        chapter_count: response.chapter_count,
        words: response.words,
        update_datetime: response.date_modified,
        status: response.status,
    }
}

impl From<StoryResponse> for Story {
    fn from(response: StoryResponse) -> (r: Story) {
        Story {
            id: response.id,
            title: response.title,
            author: response.author.name,
            chapter_count: response.chapter_count,
            words: response.words,
            update_datetime: response.date_modified,
            status: response.status,
        }
    }
}

impl vstd::std_specs::convert::FromSpecImpl<StoryResponse> for Story {
    open spec fn obeys_from_spec() -> bool {
        true
    }

    open spec fn from_spec(v: StoryResponse) -> Story {
        story_of_response(v)
    }
}

impl From<FimfictionResponse> for Story {
    fn from(response: FimfictionResponse) -> (r: Story) {
        Story::from(response.story)
    }
}

impl vstd::std_specs::convert::FromSpecImpl<FimfictionResponse> for Story {
    open spec fn obeys_from_spec() -> bool {
        true
    }

    open spec fn from_spec(v: FimfictionResponse) -> Story {
        story_of_response(v.story)
    }
}

} // verus!
