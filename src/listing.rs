//! The listing of tracked stories: filtered by status, optionally sorted by a key, optionally
//! reversed.
use vstd::prelude::*;

use core::cmp::Ordering;

use crate::args::{SortKey, StatusFilter};
use crate::ledger::{values_of, StoryData};
use crate::story::Story;
use crate::text::chars_of;

verus! {

/// Lexicographic order of character sequences, by code point; it is the order of `str`, whose
/// UTF-8 encoding keeps the order of code points.
pub open spec fn text_cmp(a: Seq<char>, b: Seq<char>) -> Ordering
    decreases a.len(),
{
    if a.len() == 0 {
        if b.len() == 0 {
            Ordering::Equal
        } else {
            Ordering::Less
        }
    } else if b.len() == 0 {
        Ordering::Greater
    } else if a[0] < b[0] {
        Ordering::Less
    } else if a[0] > b[0] {
        Ordering::Greater
    } else {
        text_cmp(a.drop_first(), b.drop_first())
    }
}

/// The order of two integers.
pub open spec fn int_cmp(a: int, b: int) -> Ordering {
    if a < b {
        Ordering::Less
    } else if a > b {
        Ordering::Greater
    } else {
        Ordering::Equal
    }
}

/// The order of two stories by a key.
pub open spec fn story_cmp(a: Story, b: Story, key: SortKey) -> Ordering {
    match key {
        SortKey::Id => int_cmp(a.id as int, b.id as int),
        SortKey::Title => text_cmp(a.title@, b.title@),
        SortKey::Author => text_cmp(a.author@, b.author@),
        SortKey::Chapters => int_cmp(a.chapter_count as int, b.chapter_count as int),
        SortKey::Words => int_cmp(a.words as int, b.words as int),
        SortKey::Update => int_cmp(a.update_datetime as int, b.update_datetime as int),
    }
}

/// No story of `s` comes after a later one in the order of `key`.
pub open spec fn sorted_by(s: Seq<Story>, key: SortKey) -> bool {
    forall|i: int, j: int| 0 <= i < j < s.len() ==> story_cmp(s[i], s[j], key) != Ordering::Greater
}

/// The stories of `s` that tie with `x` under `key`, in their order in `s`.
pub open spec fn ties(s: Seq<Story>, x: Story, key: SortKey) -> Seq<Story> {
    s.filter(|y: Story| story_cmp(y, x, key) == Ordering::Equal)
}

/// The stories of `s` whose status the filter shows, in order.
pub open spec fn shown(s: Seq<Story>, filter: StatusFilter) -> Seq<Story>
    decreases s.len(),
{
    if s.len() == 0 {
        Seq::empty()
    } else if filter.spec_shows(s.last().status) {
        shown(s.drop_last(), filter).push(s.last())
    } else {
        shown(s.drop_last(), filter)
    }
}

/// `s` in reverse order.
pub open spec fn reversed(s: Seq<Story>) -> Seq<Story> {
    Seq::new(s.len(), |i: int| s[s.len() - 1 - i])
}

fn cmp_u64(a: u64, b: u64) -> (r: Ordering)
    ensures
        r == int_cmp(a as int, b as int),
{
    if a < b {
        Ordering::Less
    } else if a > b {
        Ordering::Greater
    } else {
        Ordering::Equal
    }
}

fn cmp_i64(a: i64, b: i64) -> (r: Ordering)
    ensures
        r == int_cmp(a as int, b as int),
{
    if a < b {
        Ordering::Less
    } else if a > b {
        Ordering::Greater
    } else {
        Ordering::Equal
    }
}

/// The lexicographic order of two strings, by code point.
pub fn cmp_text(a: &str, b: &str) -> (r: Ordering)
    ensures
        r == text_cmp(a@, b@),
{
    let x = chars_of(a);
    let y = chars_of(b);
    let mut i: usize = 0;
    assert(x@.skip(0) =~= x@);
    assert(y@.skip(0) =~= y@);
    while i < x.len() && i < y.len() && x[i] == y[i]
        invariant
            i <= x.len(),
            i <= y.len(),
            text_cmp(x@, y@) == text_cmp(x@.skip(i as int), y@.skip(i as int)),
        decreases x.len() - i,
    {
        proof {
            assert(x@.skip(i as int).drop_first() =~= x@.skip(i + 1));
            assert(y@.skip(i as int).drop_first() =~= y@.skip(i + 1));
        }
        i += 1;
    }
    if i == x.len() {
        if i == y.len() {
            Ordering::Equal
        } else {
            Ordering::Less
        }
    } else if i == y.len() {
        Ordering::Greater
    } else if x[i] < y[i] {
        Ordering::Less
    } else {
        Ordering::Greater
    }
}

/// The order of two stories by a key.
pub fn compare_by(a: &Story, b: &Story, key: SortKey) -> (r: Ordering)
    ensures
        r == story_cmp(*a, *b, key),
{
    match key {
        SortKey::Id => cmp_u64(a.id as u64, b.id as u64),
        SortKey::Title => cmp_text(a.title.as_str(), b.title.as_str()),
        SortKey::Author => cmp_text(a.author.as_str(), b.author.as_str()),
        SortKey::Chapters => cmp_u64(a.chapter_count, b.chapter_count),
        SortKey::Words => cmp_u64(a.words, b.words),
        SortKey::Update => cmp_i64(a.update_datetime, b.update_datetime),
    }
}

/// Relies on `slice::sort_by`: the stories are reordered so that none comes after a later one
/// under the comparison, which [`compare_by`] makes a total order; the sort is stable, so the
/// stories that compare equal keep their order.
#[verifier::external_body]
fn sort_stories(stories: &mut Vec<Story>, key: SortKey)
    ensures
        final(stories)@.to_multiset() == old(stories)@.to_multiset(),
        sorted_by(final(stories)@, key),
        forall|x: Story| #[trigger] ties(final(stories)@, x, key) == ties(old(stories)@, x, key),
{
    stories.sort_by(|a, b| compare_by(a, b, key));
}

/// The tracked stories whose status `filter` shows, in ledger order, then sorted by `sort_by`
/// if given (ties keep their order), then reversed if asked.
pub fn listing(
    story_data: &StoryData,
    filter: StatusFilter,
    sort_by: Option<SortKey>,
    reverse: bool,
) -> (r: Vec<Story>)
    ensures
        sort_by is None && !reverse ==> r@ == shown(values_of(story_data.entries()), filter),
        sort_by is None && reverse ==> r@ == reversed(
            shown(values_of(story_data.entries()), filter),
        ),
        r@.to_multiset() == shown(values_of(story_data.entries()), filter).to_multiset(),
        sort_by is Some && !reverse ==> sorted_by(r@, sort_by->0),
        sort_by is Some && reverse ==> sorted_by(reversed(r@), sort_by->0),
        sort_by is Some && !reverse ==> forall|x: Story|
            #[trigger] ties(r@, x, sort_by->0) == ties(
                shown(values_of(story_data.entries()), filter),
                x,
                sort_by->0,
            ),
        sort_by is Some && reverse ==> forall|x: Story|
            #[trigger] ties(reversed(r@), x, sort_by->0) == ties(
                shown(values_of(story_data.entries()), filter),
                x,
                sort_by->0,
            ),
{
    let all = story_data.values();
    let mut stories: Vec<Story> = Vec::new();
    let mut i: usize = 0;
    while i < all.len()
        invariant
            i <= all.len(),
            stories@ == shown(all@.take(i as int), filter),
        decreases all.len() - i,
    {
        assert(all@.take(i + 1).drop_last() =~= all@.take(i as int));
        assert(all@.take(i + 1).last() == all@[i as int]);
        if filter.shows(all[i].status) {
            stories.push(all[i].duplicate());
        }
        i += 1;
    }
    assert(all@.take(i as int) =~= all@);
    let ghost filtered = stories@;
    if let Some(key) = sort_by {
        sort_stories(&mut stories, key);
    }
    if reverse {
        let mut out: Vec<Story> = Vec::new();
        let mut k: usize = stories.len();
        while k > 0
            invariant
                k <= stories.len(),
                out@ == reversed(stories@).take(stories.len() - k),
            decreases k,
        {
            k -= 1;
            out.push(stories[k].duplicate());
            assert(out@ =~= reversed(stories@).take(stories.len() - k));
        }
        assert(out@ =~= reversed(stories@));
        proof {
            lemma_reversed_multiset(stories@);
            assert(reversed(reversed(stories@)) =~= stories@);
        }
        out
    } else {
        stories
    }
}

proof fn lemma_reversed_multiset(s: Seq<Story>)
    ensures
        reversed(s).to_multiset() == s.to_multiset(),
    decreases s.len(),
{
    broadcast use vstd::seq_lib::group_to_multiset_ensures;

    if s.len() > 0 {
        let rest = s.drop_last();
        lemma_reversed_multiset(rest);
        assert(reversed(s) =~= seq![s.last()] + reversed(rest));
        assert(s =~= rest.push(s.last()));
        vstd::seq_lib::lemma_multiset_commutative(seq![s.last()], reversed(rest));
        assert(reversed(rest).push(s.last()) =~= reversed(rest) + seq![s.last()]);
    } else {
        assert(reversed(s) =~= s);
    }
}

} // verus!
