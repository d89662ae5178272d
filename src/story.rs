//! Stored story data and the comparison of two snapshots of one story.
use vstd::prelude::*;
use vstd::string::StringExecFns;

use crate::api::StoryStatus;
use crate::config::{level_rank, SensibilityLevel};
use crate::errors::{ErrorKind, TrackerError};
use crate::text::{decimal, push_decimal};

verus! {

/// Alias for a story ID.
pub type Id = u32;

/// Story data kept in the ledger of tracked stories.
#[derive(Clone, Debug)]
pub struct Story {
    /// Unique story ID.
    pub id: Id,
    /// Story title.
    pub title: String,
    /// Username of the author.
    pub author: String,
    /// The amount of chapters the story has.
    pub chapter_count: u64,
    /// The amount of words the story has.
    pub words: u64,
    /// Instant of the last update, in seconds since the Unix epoch (UTC).
    pub update_datetime: i64,
    /// Story completion status.
    pub status: StoryStatus,
}

/// Kind of update present in a comparison between two snapshots of a story.
#[allow(inconsistent_fields)]
#[derive(Clone, Copy, Debug, PartialEq, Eq, Structural)]
pub enum StoryUpdate {
    /// Story had a chapter update.
    Chapters {
        /// Amount of chapters before the update.
        before: u64,
        /// Amount of chapters after the update.
        after: u64,
    },
    /// Story had a words update.
    Words {
        /// Amount of words before the update.
        before: u64,
        /// Amount of words after the update.
        after: u64,
    },
    /// Story had a more recent update instant.
    DateTime {
        /// The timestamp before the update.
        before: i64,
        /// The timestamp after the update.
        after: i64,
    },
}

/// The first difference between `previous` and `updated`, in priority order: chapter count,
/// then words, then a strictly more recent update instant.
pub open spec fn first_difference(previous: Story, updated: Story) -> Option<StoryUpdate> {
    if previous.chapter_count != updated.chapter_count {
        Some(StoryUpdate::Chapters { before: previous.chapter_count, after: updated.chapter_count })
    } else if previous.words != updated.words {
        Some(StoryUpdate::Words { before: previous.words, after: updated.words })
    } else if previous.update_datetime < updated.update_datetime {
        Some(
            StoryUpdate::DateTime {
                before: previous.update_datetime,
                after: updated.update_datetime,
            },
        )
    } else {
        None
    }
}

/// Whether an update of this kind counts at the given sensitivity level: chapter changes
/// always do, word changes from `IncludeWords` on, newer update instants only at `Anything`.
pub open spec fn is_significant(update: StoryUpdate, level: SensibilityLevel) -> bool {
    match update {
        StoryUpdate::Chapters { .. } => true,
        StoryUpdate::Words { .. } => level_rank(level) >= 1,
        StoryUpdate::DateTime { .. } => level == SensibilityLevel::Anything,
    }
}

/// The first difference that counts at `level`, in the same priority order as
/// [`first_difference`].
pub open spec fn significant_update(previous: Story, updated: Story, level: SensibilityLevel) -> Option<StoryUpdate> {
    if previous.chapter_count != updated.chapter_count {
        Some(StoryUpdate::Chapters { before: previous.chapter_count, after: updated.chapter_count })
    } else if previous.words != updated.words && level_rank(level) >= 1 {
        Some(StoryUpdate::Words { before: previous.words, after: updated.words })
    } else if previous.update_datetime < updated.update_datetime && level
        == SensibilityLevel::Anything {
        Some(
            StoryUpdate::DateTime {
                before: previous.update_datetime,
                after: updated.update_datetime,
            },
        )
    } else {
        None
    }
}

/// The IDs that a comparison of `previous` with `updated` fails with, if they differ.
pub open spec fn comparison_mismatch(previous: Story, updated: Story) -> Option<(u32, u32)> {
    if previous.id != updated.id {
        Some((previous.id, updated.id))
    } else {
        None
    }
}

/// The URL of the story page for an ID.
pub open spec fn story_url(id: Id) -> Seq<char> {
    "https://www.fimfiction.net/story/"@ + decimal(id as nat)
}

impl Story {
    /// A copy of the story, equal to it field by field.
    pub fn duplicate(&self) -> (r: Story)
        ensures
            r == *self,
    {
        Story {
            id: self.id,
            title: self.title.clone(),
            author: self.author.clone(),
            chapter_count: self.chapter_count,
            words: self.words,
            update_datetime: self.update_datetime,
            status: self.status,
        }
    }

    /// Gets the Fimfiction URL to the story.
    pub fn url(&self) -> (r: String)
        ensures
            r@ == story_url(self.id),
    {
        let mut s = String::from_str("https://www.fimfiction.net/story/");
        push_decimal(&mut s, self.id as u64);
        s
    }

    /// Checks for the existence of an update from the comparison with a more recent snapshot
    /// of the same story, by comparing fields in the following order:
    /// 1. `chapter_count`, an update if the counts differ. It is the most meaningful and
    ///    visible update, so it has priority.
    /// 2. `words`, an update if the counts differ.
    /// 3. `update_datetime`, an update if `updated_story`'s instant is more recent.
    ///
    /// Fails with [`BadStoryComparison`](ErrorKind::BadStoryComparison) if the IDs differ.
    pub fn compare_to(&self, updated_story: &Story) -> (r: Result<Option<StoryUpdate>, TrackerError>)
        ensures
            comparison_mismatch(*self, *updated_story) is None <==> r is Ok,
            r matches Ok(u) ==> u == first_difference(*self, *updated_story),
            r matches Err(e) ==> e.kind == (ErrorKind::BadStoryComparison {
                id: self.id,
                other_id: updated_story.id,
            }),
    {
        if self.id != updated_story.id {
            Err(TrackerError::story_comparison(self.id, updated_story.id))
        } else if self.chapter_count != updated_story.chapter_count {
            Ok(
                Some(
                    StoryUpdate::Chapters {
                        before: self.chapter_count,
                        after: updated_story.chapter_count,
                    },
                ),
            )
        } else if self.words != updated_story.words {
            Ok(Some(StoryUpdate::Words { before: self.words, after: updated_story.words }))
        } else if self.update_datetime < updated_story.update_datetime {
            Ok(
                Some(
                    StoryUpdate::DateTime {
                        before: self.update_datetime,
                        after: updated_story.update_datetime,
                    },
                ),
            )
        } else {
            Ok(None)
        }
    }

    /// Like [`Story::compare_to`], but returns only the first difference that counts at
    /// `level`; differences below the level are passed over.
    pub fn compare(&self, updated_story: &Story, level: SensibilityLevel) -> (r: Result<
        Option<StoryUpdate>,
        TrackerError,
    >)
        ensures
            comparison_mismatch(*self, *updated_story) is None <==> r is Ok,
            r matches Ok(u) ==> u == significant_update(*self, *updated_story, level),
            r matches Err(e) ==> e.kind == (ErrorKind::BadStoryComparison {
                id: self.id,
                other_id: updated_story.id,
            }),
    {
        let rank = level.rank();
        if self.id != updated_story.id {
            Err(TrackerError::story_comparison(self.id, updated_story.id))
        } else if self.chapter_count != updated_story.chapter_count {
            Ok(
                Some(
                    StoryUpdate::Chapters {
                        before: self.chapter_count,
                        after: updated_story.chapter_count,
                    },
                ),
            )
        } else if self.words != updated_story.words && rank >= 1 {
            Ok(Some(StoryUpdate::Words { before: self.words, after: updated_story.words }))
        } else if self.update_datetime < updated_story.update_datetime && rank == 2 {
            Ok(
                Some(
                    StoryUpdate::DateTime {
                        before: self.update_datetime,
                        after: updated_story.update_datetime,
                    },
                ),
            )
        } else {
            Ok(None)
        }
    }
}

impl StoryUpdate {
    /// Whether the update counts at the given sensitivity level.
    pub fn is_significant(&self, level: SensibilityLevel) -> (r: bool)
        ensures
            r == is_significant(*self, level),
    {
        match self {
            StoryUpdate::Chapters { .. } => true,
            StoryUpdate::Words { .. } => level.rank() >= 1,
            StoryUpdate::DateTime { .. } => level.rank() == 2,
        }
    }
}

/// Two snapshots that agree on ID, chapter count, words and update instant show no update, at
/// any sensitivity level, and not even a difference below the level.
pub proof fn lemma_no_update_between_equal_snapshots(a: Story, b: Story, level: SensibilityLevel)
    requires
        a.id == b.id,
        a.chapter_count == b.chapter_count,
        a.words == b.words,
        a.update_datetime == b.update_datetime,
    ensures
        comparison_mismatch(a, b) is None,
        significant_update(a, b, level) is None,
        first_difference(a, b) is None,
{
}

/// Two snapshots that differ only in their chapter count show a chapter update carrying both
/// counts, at every sensitivity level.
pub proof fn lemma_chapter_update_always_counts(a: Story, b: Story, level: SensibilityLevel)
    requires
        a.id == b.id,
        a.chapter_count != b.chapter_count,
        a.words == b.words,
        a.update_datetime == b.update_datetime,
    ensures
        comparison_mismatch(a, b) is None,
        significant_update(a, b, level) == Some(
            StoryUpdate::Chapters { before: a.chapter_count, after: b.chapter_count },
        ),
{
}

/// Two snapshots that differ only in their words show a words update exactly when the level
/// is `IncludeWords` or above; below it the difference is still found by
/// [`first_difference`], but does not count.
pub proof fn lemma_words_update_needs_level(a: Story, b: Story, level: SensibilityLevel)
    requires
        a.id == b.id,
        a.chapter_count == b.chapter_count,
        a.words != b.words,
        a.update_datetime == b.update_datetime,
    ensures
        comparison_mismatch(a, b) is None,
        significant_update(a, b, level) == (if level_rank(level) >= 1 {
            Some(StoryUpdate::Words { before: a.words, after: b.words })
        } else {
            None
        }),
        first_difference(a, b) == Some(StoryUpdate::Words { before: a.words, after: b.words }),
        is_significant(StoryUpdate::Words { before: a.words, after: b.words }, level)
            <==> level_rank(level) >= 1,
{
}

/// Comparing snapshots of different IDs fails in both orders, carrying the IDs in the order of
/// the comparison.
pub proof fn lemma_mismatched_ids_fail_both_ways(a: Story, b: Story)
    requires
        a.id != b.id,
    ensures
        comparison_mismatch(a, b) == Some((a.id, b.id)),
        comparison_mismatch(b, a) == Some((b.id, a.id)),
{
}

/// The update that counts at a level is the first difference, when that difference counts at
/// the level, and there is none otherwise.
pub proof fn lemma_significant_is_counted_first_difference(
    a: Story,
    b: Story,
    level: SensibilityLevel,
)
    ensures
        significant_update(a, b, level) == (match first_difference(a, b) {
            Some(u) => if is_significant(u, level) {
                Some(u)
            } else {
                None
            },
            None => None,
        }),
{
}

} // verus!
