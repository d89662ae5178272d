//! The "download" operation: find which tracked stories have an update worth delivering,
//! deliver them one at a time, and keep the ledger's metadata current.
//!
//! The operation is a state machine, [`DownloadRun`]. Each call of [`DownloadRun::step`]
//! hands it the outcome of the outside work it asked for last, and returns the next piece of
//! outside work ([`Step`]): a question to the user, a lookup, a pause, or a delivery.
use vstd::prelude::*;
use vstd::string::StringExecFns;

use crate::args::Prompt;
use crate::config::SensibilityLevel;
use crate::errors::{ErrorKind, Result, TrackerError};
use crate::ledger::{
    distinct_keys, insert_entry, key_pos, keyed_by_id, keys_of, lemma_insert_keeps_ledger_valid,
    StoryData,
};
use crate::story::{first_difference, is_significant, Id, Story, StoryUpdate};

verus! {

/// The outside work that an operation asks of its caller next.
#[derive(Debug)]
pub enum Step {
    /// Ask whether to go on with this stored story, which is not marked as incomplete (for a
    /// download) or is already tracked (for a track); answer with [`Event::Confirmed`].
    Confirm(Story),
    /// Look the story with this ID up; answer with [`Event::Fetched`].
    Lookup(Id),
    /// Suspend for the configured delay between two deliveries, then emit a separator where
    /// [`Config::use_separator`](crate::Config::use_separator) says so; answer with
    /// [`Event::Paused`].
    Pause,
    /// Deliver this story; answer with [`Event::Delivered`].
    Deliver(Story),
    /// The operation is over.
    Done,
}

/// The outcome of the outside work that an operation asked for.
#[derive(Debug)]
pub enum Event {
    /// The operation is to begin.
    Start,
    /// The answer to a [`Step::Confirm`].
    Confirmed(bool),
    /// The snapshot returned by a [`Step::Lookup`].
    Fetched(Story),
    /// A [`Step::Pause`] is over.
    Paused,
    /// A [`Step::Deliver`] succeeded.
    Delivered,
}

/// What a fetched snapshot tells about a stored story.
#[derive(Clone, Copy, Debug, PartialEq, Eq, Structural)]
pub struct Classification {
    /// The first difference found, whether or not it counts at the configured level.
    pub update: Option<StoryUpdate>,
    /// Whether the title differs.
    pub title_changed: bool,
    /// Whether the author differs.
    pub author_changed: bool,
    /// Whether the completion status differs.
    pub status_changed: bool,
    /// Whether the difference counts at the configured level, so that the story is to be
    /// delivered.
    pub queued: bool,
}

/// The classification of `fetched` against `stored` at `level`.
pub open spec fn classification_of(stored: Story, fetched: Story, level: SensibilityLevel) -> Classification {
    Classification {
        update: first_difference(stored, fetched),
        title_changed: stored.title@ != fetched.title@,
        author_changed: stored.author@ != fetched.author@,
        status_changed: stored.status != fetched.status,
        queued: match first_difference(stored, fetched) {
            Some(u) => is_significant(u, level),
            None => false,
        },
    }
}

impl Classification {
    /// Whether the snapshot carries anything new: an update, counted or not, or a change of
    /// title, author or status. Such a snapshot is merged into the ledger.
    pub open spec fn spec_staged(&self) -> bool {
        self.update is Some || self.title_changed || self.author_changed || self.status_changed
    }

    /// Whether the snapshot carries anything new, so that it is merged into the ledger.
    pub fn staged(&self) -> (r: bool)
        ensures
            r == self.spec_staged(),
    {
        self.update.is_some() || self.title_changed || self.author_changed || self.status_changed
    }
}

/// Compares a fetched snapshot with the stored story. Fails with
/// [`BadStoryComparison`](ErrorKind::BadStoryComparison) if the IDs differ.
pub fn classify(stored: &Story, fetched: &Story, level: SensibilityLevel) -> (r: Result<Classification>)
    ensures
        stored.id == fetched.id <==> r is Ok,
        r matches Ok(c) ==> c == classification_of(*stored, *fetched, level),
        r matches Err(e) ==> e.kind == (ErrorKind::BadStoryComparison {
            id: stored.id,
            other_id: fetched.id,
        }),
{
    let update = match stored.compare_to(fetched) {
        Ok(u) => u,
        Err(e) => return Err(e),
    };
    let queued = match &update {
        Some(u) => u.is_significant(level),
        None => false,
    };
    Ok(
        Classification {
            update,
            title_changed: !(stored.title == fetched.title),
            author_changed: !(stored.author == fetched.author),
            status_changed: stored.status != fetched.status,
            queued,
        },
    )
}

/// Where a [`DownloadRun`] stands.
#[derive(Clone, Copy, Debug, PartialEq, Eq, Structural)]
pub enum Phase {
    /// Not started.
    Start,
    /// Awaiting the answer about the selected story at this position.
    Gate(usize),
    /// Awaiting the lookup of the selected story at this position.
    Fetch(usize),
    /// Awaiting the delivery at this position of the plan.
    Deliver(usize),
    /// Awaiting the pause before the delivery at this position of the plan.
    Pause(usize),
    /// Over.
    Done,
}

/// The IDs of the ledger that a run selects: all of them when no ID is requested, otherwise
/// those that are requested, in ledger order.
pub open spec fn select(keys: Seq<Id>, ids: Seq<Id>) -> Seq<Id>
    decreases keys.len(),
{
    if keys.len() == 0 {
        Seq::empty()
    } else if ids.len() == 0 || ids.contains(keys.last()) {
        select(keys.drop_last(), ids).push(keys.last())
    } else {
        select(keys.drop_last(), ids)
    }
}

/// The IDs among `selected` whose stored story is not marked as incomplete.
pub open spec fn not_incomplete(entries: Seq<(Id, Story)>, selected: Seq<Id>) -> Seq<Id>
    decreases selected.len(),
{
    if selected.len() == 0 {
        Seq::empty()
    } else if stored_is_incomplete(entries, selected.last()) {
        not_incomplete(entries, selected.drop_last())
    } else {
        not_incomplete(entries, selected.drop_last()).push(selected.last())
    }
}

/// Whether the story stored under `id` is marked as incomplete (or absent).
pub open spec fn stored_is_incomplete(entries: Seq<(Id, Story)>, id: Id) -> bool {
    key_pos(entries, id) < 0 || entries[key_pos(entries, id)].1.status
        == crate::api::StoryStatus::Incomplete
}

/// The position of the last staged snapshot of `id`, or `-1`.
pub open spec fn staged_pos(staged: Seq<Story>, id: Id) -> int
    decreases staged.len(),
{
    if staged.len() == 0 {
        -1
    } else if staged.last().id == id {
        staged.len() - 1
    } else {
        staged_pos(staged.drop_last(), id)
    }
}

/// `staged_pos` finds a snapshot of the ID, where there is one.
pub proof fn lemma_staged_pos(staged: Seq<Story>, id: Id)
    ensures
        -1 <= staged_pos(staged, id) < staged.len(),
        staged_pos(staged, id) >= 0 ==> staged[staged_pos(staged, id)].id == id,
    decreases staged.len(),
{
    if staged.len() > 0 && staged.last().id != id {
        lemma_staged_pos(staged.drop_last(), id);
    }
}

/// The ledger entries after merging, in order, each staged snapshot whose ID is not queued.
pub open spec fn merge_unqueued(entries: Seq<(Id, Story)>, staged: Seq<Story>, queued: Seq<Id>) -> Seq<(Id, Story)>
    decreases staged.len(),
{
    if staged.len() == 0 {
        entries
    } else if queued.contains(staged.last().id) {
        merge_unqueued(entries, staged.drop_last(), queued)
    } else {
        insert_entry(
            merge_unqueued(entries, staged.drop_last(), queued),
            staged.last().id,
            staged.last(),
        )
    }
}

/// The stories to deliver, in ledger order: those selected and not ignored that are queued,
/// or all of them when forced; each as its staged snapshot where there is one.
pub open spec fn plan_of(
    entries: Seq<(Id, Story)>,
    selected: Seq<Id>,
    ignored: Seq<Id>,
    queued: Seq<Id>,
    staged: Seq<Story>,
    force: bool,
) -> Seq<Story>
    decreases entries.len(),
{
    if entries.len() == 0 {
        Seq::empty()
    } else {
        let rest = plan_of(entries.drop_last(), selected, ignored, queued, staged, force);
        let (id, story) = entries.last();
        if selected.contains(id) && !ignored.contains(id) && (force || queued.contains(id)) {
            rest.push(
                if staged_pos(staged, id) >= 0 {
                    staged[staged_pos(staged, id)]
                } else {
                    story
                },
            )
        } else {
            rest
        }
    }
}

/// A download run over the ledger.
pub struct DownloadRun {
    /// Deliver every selected story that is not ignored, updated or not.
    pub force: bool,
    /// How to answer the question about stories not marked as incomplete.
    pub prompt: Prompt,
    /// Which differences count as updates.
    pub level: SensibilityLevel,
    /// The IDs that the run covers, in ledger order.
    pub selected: Vec<Id>,
    /// The selected IDs that are left out of the lookups.
    pub ignored: Vec<Id>,
    /// The fetched snapshots that carry something new, in the order of the lookups.
    pub staged: Vec<Story>,
    /// The IDs whose update counts at the level.
    pub queued: Vec<Id>,
    /// The stories to deliver, in order.
    pub plan: Vec<Story>,
    /// Where the run stands.
    pub phase: Phase,
}


/// Whether `v` holds `id`.
pub fn contains_id(v: &Vec<Id>, id: Id) -> (r: bool)
    ensures
        r == v@.contains(id),
{
    let mut i: usize = 0;
    while i < v.len()
        invariant
            i <= v.len(),
            forall|k: int| 0 <= k < i ==> v@[k] != id,
        decreases v.len() - i,
    {
        if v[i] == id {
            assert(v@[i as int] == id);
            return true;
        }
        i += 1;
    }
    false
}

/// Whether the story stored under `id` is marked as incomplete (or absent).
fn is_incomplete(story_data: &StoryData, id: Id) -> (r: bool)
    ensures
        r == stored_is_incomplete(story_data.entries(), id),
{
    match story_data.get(id) {
        Some(story) => story.status == crate::api::StoryStatus::Incomplete,
        None => true,
    }
}

/// The last staged snapshot of `id`.
fn find_staged(staged: &Vec<Story>, id: Id) -> (r: Option<&Story>)
    ensures
        staged_pos(staged@, id) >= 0 ==> r == Some(&staged@[staged_pos(staged@, id)]),
        staged_pos(staged@, id) < 0 ==> r is None,
{
    let mut found: Option<usize> = None;
    let mut i: usize = 0;
    while i < staged.len()
        invariant
            i <= staged.len(),
            staged_pos(staged@.take(i as int), id) >= 0 ==> found == Some(
                staged_pos(staged@.take(i as int), id) as usize,
            ),
            staged_pos(staged@.take(i as int), id) < 0 ==> found is None,
            -1 <= staged_pos(staged@.take(i as int), id) < i,
        decreases staged.len() - i,
    {
        assert(staged@.take(i + 1).drop_last() =~= staged@.take(i as int));
        if staged[i].id == id {
            found = Some(i);
        }
        i += 1;
    }
    assert(staged@.take(i as int) =~= staged@);
    match found {
        Some(k) => Some(&staged[k]),
        None => None,
    }
}

/// The story stored under `id` in `entries`.
pub open spec fn stored(entries: Seq<(Id, Story)>, id: Id) -> Story {
    entries[key_pos(entries, id)].1
}

impl DownloadRun {
    /// Whether the selected story at position `j` needs a question before its lookup.
    pub open spec fn needs_confirmation(&self, entries: Seq<(Id, Story)>, j: int) -> bool {
        self.prompt == Prompt::Ask && !stored_is_incomplete(entries, self.selected@[j])
    }

    /// Whether the selected story at position `j` is looked up.
    pub open spec fn fetchable(&self, entries: Seq<(Id, Story)>, j: int) -> bool {
        !self.ignored@.contains(self.selected@[j]) && keys_of(entries).contains(self.selected@[j])
    }

    /// `j` is the first position from `from` on that needs a question, or the end.
    pub open spec fn next_question(&self, entries: Seq<(Id, Story)>, from: int, j: int) -> bool {
        &&& from <= j <= self.selected.len()
        &&& forall|k: int| from <= k < j ==> !self.needs_confirmation(entries, k)
        &&& j < self.selected.len() ==> self.needs_confirmation(entries, j)
    }

    /// `j` is the first position from `from` on that is looked up, or the end.
    pub open spec fn next_lookup(&self, entries: Seq<(Id, Story)>, from: int, j: int) -> bool {
        &&& from <= j <= self.selected.len()
        &&& forall|k: int| from <= k < j ==> !self.fetchable(entries, k)
        &&& j < self.selected.len() ==> self.fetchable(entries, j)
    }

    /// The run and the ledger once the lookups are over: the snapshots that are not queued are
    /// merged, and the plan is made; then the first delivery is asked for, or the run is over.
    pub open spec fn after_lookups(
        &self,
        entries: Seq<(Id, Story)>,
        next: DownloadRun,
        next_entries: Seq<(Id, Story)>,
        step: Step,
    ) -> bool {
        &&& next_entries == merge_unqueued(entries, self.staged@, self.queued@)
        &&& next.plan@ == plan_of(
            next_entries,
            self.selected@,
            self.ignored@,
            self.queued@,
            self.staged@,
            self.force,
        )
        &&& next == (DownloadRun { plan: next.plan, phase: next.phase, ..*self })
        &&& if next.plan.len() == 0 {
            next.phase == Phase::Done && step is Done
        } else {
            next.phase == Phase::Deliver(0) && step == Step::Deliver(next.plan@[0])
        }
    }

    /// The run and the ledger after going on with the lookups from position `from`: the next
    /// lookup is asked for, or the lookups are over.
    pub open spec fn after_fetch(
        &self,
        entries: Seq<(Id, Story)>,
        from: int,
        next: DownloadRun,
        next_entries: Seq<(Id, Story)>,
        step: Step,
    ) -> bool {
        match step {
            Step::Lookup(id) => next.phase matches Phase::Fetch(j) && {
                &&& self.next_lookup(entries, from, j as int)
                &&& j < self.selected.len()
                &&& id == self.selected@[j as int]
                &&& next == (DownloadRun { phase: next.phase, ..*self })
                &&& next_entries == entries
            },
            _ => {
                &&& self.next_lookup(entries, from, self.selected.len() as int)
                &&& self.after_lookups(entries, next, next_entries, step)
            },
        }
    }

    /// The run and the ledger after going on with the questions from position `from`: the
    /// next question is asked, or the lookups begin.
    pub open spec fn after_gate(
        &self,
        entries: Seq<(Id, Story)>,
        from: int,
        next: DownloadRun,
        next_entries: Seq<(Id, Story)>,
        step: Step,
    ) -> bool {
        match step {
            Step::Confirm(story) => next.phase matches Phase::Gate(j) && {
                &&& self.next_question(entries, from, j as int)
                &&& j < self.selected.len()
                &&& story == stored(entries, self.selected@[j as int])
                &&& next == (DownloadRun { phase: next.phase, ..*self })
                &&& next_entries == entries
            },
            _ => {
                &&& self.next_question(entries, from, self.selected.len() as int)
                &&& self.after_fetch(entries, 0, next, next_entries, step)
            },
        }
    }

    /// Starts a run over the stories of `story_data` whose IDs are in `ids` (all of them when
    /// `ids` is empty). Under [`Prompt::AssumeNo`], the selected stories that are not marked
    /// as incomplete are ignored from the start.
    pub fn new(
        story_data: &StoryData,
        ids: &Vec<Id>,
        force: bool,
        prompt: Prompt,
        level: SensibilityLevel,
    ) -> (r: DownloadRun)
        ensures
            r.force == force,
            r.prompt == prompt,
            r.level == level,
            r.selected@ == select(story_data.spec_keys(), ids@),
            r.ignored@ == (if prompt == Prompt::AssumeNo {
                not_incomplete(story_data.entries(), r.selected@)
            } else {
                Seq::<Id>::empty()
            }),
            r.staged@ == Seq::<Story>::empty(),
            r.queued@ == Seq::<Id>::empty(),
            r.plan@ == Seq::<Story>::empty(),
            r.phase == Phase::Start,
    {
        let keys = story_data.keys();
        let mut selected: Vec<Id> = Vec::new();
        let mut i: usize = 0;
        while i < keys.len()
            invariant
                i <= keys.len(),
                selected@ == select(keys@.take(i as int), ids@),
            decreases keys.len() - i,
        {
            assert(keys@.take(i + 1).drop_last() =~= keys@.take(i as int));
            assert(keys@.take(i + 1).last() == keys@[i as int]);
            if ids.len() == 0 || contains_id(ids, keys[i]) {
                selected.push(keys[i]);
            }
            i += 1;
        }
        assert(keys@.take(i as int) =~= keys@);
        let mut ignored: Vec<Id> = Vec::new();
        if prompt == Prompt::AssumeNo {
            let mut k: usize = 0;
            while k < selected.len()
                invariant
                    k <= selected.len(),
                    ignored@ == not_incomplete(story_data.entries(), selected@.take(k as int)),
                decreases selected.len() - k,
            {
                assert(selected@.take(k + 1).drop_last() =~= selected@.take(k as int));
                assert(selected@.take(k + 1).last() == selected@[k as int]);
                if !is_incomplete(story_data, selected[k]) {
                    ignored.push(selected[k]);
                }
                k += 1;
            }
            assert(selected@.take(k as int) =~= selected@);
        }
        DownloadRun {
            force,
            prompt,
            level,
            selected,
            ignored,
            staged: Vec::new(),
            queued: Vec::new(),
            plan: Vec::new(),
            phase: Phase::Start,
        }
    }
}


impl DownloadRun {
    fn needs_question(&self, story_data: &StoryData, j: usize) -> (r: bool)
        requires
            j < self.selected.len(),
        ensures
            r == self.needs_confirmation(story_data.entries(), j as int),
    {
        self.prompt == Prompt::Ask && !is_incomplete(story_data, self.selected[j])
    }

    fn is_fetchable(&self, story_data: &StoryData, j: usize) -> (r: bool)
        requires
            j < self.selected.len(),
        ensures
            r == self.fetchable(story_data.entries(), j as int),
    {
        !contains_id(&self.ignored, self.selected[j]) && story_data.contains_key(self.selected[j])
    }

    fn scan_questions(&self, story_data: &StoryData, from: usize) -> (j: usize)
        requires
            from <= self.selected.len(),
        ensures
            self.next_question(story_data.entries(), from as int, j as int),
    {
        let mut j = from;
        while j < self.selected.len() && !self.needs_question(story_data, j)
            invariant
                from <= j <= self.selected.len(),
                forall|k: int|
                    from <= k < j ==> !self.needs_confirmation(story_data.entries(), k),
            decreases self.selected.len() - j,
        {
            j += 1;
        }
        j
    }

    fn scan_lookups(&self, story_data: &StoryData, from: usize) -> (j: usize)
        requires
            from <= self.selected.len(),
        ensures
            self.next_lookup(story_data.entries(), from as int, j as int),
    {
        let mut j = from;
        while j < self.selected.len() && !self.is_fetchable(story_data, j)
            invariant
                from <= j <= self.selected.len(),
                forall|k: int| from <= k < j ==> !self.fetchable(story_data.entries(), k),
            decreases self.selected.len() - j,
        {
            j += 1;
        }
        j
    }

    fn merge_ignored_updates(&self, story_data: &mut StoryData)
        ensures
            distinct_keys(old(story_data).entries()) ==> distinct_keys(final(story_data).entries()),
            keyed_by_id(old(story_data).entries()) ==> keyed_by_id(final(story_data).entries()),
            final(story_data).spec_path() == old(story_data).spec_path(),
            final(story_data).entries() == merge_unqueued(
                old(story_data).entries(),
                self.staged@,
                self.queued@,
            ),
    {
        let mut i: usize = 0;
        while i < self.staged.len()
            invariant
                i <= self.staged.len(),
                story_data.entries() == merge_unqueued(
                    old(story_data).entries(),
                    self.staged@.take(i as int),
                    self.queued@,
                ),
                story_data.spec_path() == old(story_data).spec_path(),
                distinct_keys(old(story_data).entries()) ==> distinct_keys(story_data.entries()),
                keyed_by_id(old(story_data).entries()) ==> keyed_by_id(story_data.entries()),
            decreases self.staged.len() - i,
        {
            assert(self.staged@.take(i + 1).drop_last() =~= self.staged@.take(i as int));
            assert(self.staged@.take(i + 1).last() == self.staged@[i as int]);
            if !contains_id(&self.queued, self.staged[i].id) {
                let story = self.staged[i].duplicate();
                proof {
                    lemma_insert_keeps_ledger_valid(story_data.entries(), story);
                }
                story_data.insert(story.id, story);
            }
            i += 1;
        }
        assert(self.staged@.take(i as int) =~= self.staged@);
    }

    fn build_plan(&self, story_data: &StoryData) -> (plan: Vec<Story>)
        ensures
            plan@ == plan_of(
                story_data.entries(),
                self.selected@,
                self.ignored@,
                self.queued@,
                self.staged@,
                self.force,
            ),
    {
        let n = story_data.len();
        let mut plan: Vec<Story> = Vec::new();
        let mut i: usize = 0;
        while i < n
            invariant
                n == story_data.entries().len(),
                i <= n,
                plan@ == plan_of(
                    story_data.entries().take(i as int),
                    self.selected@,
                    self.ignored@,
                    self.queued@,
                    self.staged@,
                    self.force,
                ),
            decreases n - i,
        {
            let ghost prefix = story_data.entries().take(i + 1);
            assert(prefix.drop_last() =~= story_data.entries().take(i as int));
            assert(prefix.last() == story_data.entries()[i as int]);
            let (id, story) = story_data.get_index(i).unwrap();
            if contains_id(&self.selected, id) && !contains_id(&self.ignored, id) && (self.force
                || contains_id(&self.queued, id)) {
                match find_staged(&self.staged, id) {
                    Some(snapshot) => plan.push(snapshot.duplicate()),
                    None => plan.push(story.duplicate()),
                }
            }
            i += 1;
        }
        assert(story_data.entries().take(n as int) =~= story_data.entries());
        plan
    }

    fn finish_lookups(&mut self, story_data: &mut StoryData) -> (step: Step)
        ensures
            distinct_keys(old(story_data).entries()) ==> distinct_keys(final(story_data).entries()),
            keyed_by_id(old(story_data).entries()) ==> keyed_by_id(final(story_data).entries()),
            final(story_data).spec_path() == old(story_data).spec_path(),
            old(self).after_lookups(
                old(story_data).entries(),
                *final(self),
                final(story_data).entries(),
                step,
            ),
    {
        self.merge_ignored_updates(story_data);
        self.plan = self.build_plan(story_data);
        if self.plan.len() == 0 {
            self.phase = Phase::Done;
            Step::Done
        } else {
            self.phase = Phase::Deliver(0);
            Step::Deliver(self.plan[0].duplicate())
        }
    }

    fn continue_lookups(&mut self, story_data: &mut StoryData, from: usize) -> (step: Step)
        requires
            from <= old(self).selected.len(),
        ensures
            distinct_keys(old(story_data).entries()) ==> distinct_keys(final(story_data).entries()),
            keyed_by_id(old(story_data).entries()) ==> keyed_by_id(final(story_data).entries()),
            final(story_data).spec_path() == old(story_data).spec_path(),
            old(self).after_fetch(
                old(story_data).entries(),
                from as int,
                *final(self),
                final(story_data).entries(),
                step,
            ),
    {
        let j = self.scan_lookups(story_data, from);
        if j < self.selected.len() {
            self.phase = Phase::Fetch(j);
            Step::Lookup(self.selected[j])
        } else {
            self.finish_lookups(story_data)
        }
    }

    fn continue_questions(&mut self, story_data: &mut StoryData, from: usize) -> (step: Step)
        requires
            from <= old(self).selected.len(),
        ensures
            distinct_keys(old(story_data).entries()) ==> distinct_keys(final(story_data).entries()),
            keyed_by_id(old(story_data).entries()) ==> keyed_by_id(final(story_data).entries()),
            final(story_data).spec_path() == old(story_data).spec_path(),
            old(self).after_gate(
                old(story_data).entries(),
                from as int,
                *final(self),
                final(story_data).entries(),
                step,
            ),
    {
        let j = self.scan_questions(story_data, from);
        if j < self.selected.len() {
            let story = story_data.get(self.selected[j]).unwrap().duplicate();
            self.phase = Phase::Gate(j);
            Step::Confirm(story)
        } else {
            self.continue_lookups(story_data, 0)
        }
    }
}


impl DownloadRun {
    /// The error returned for an event that does not answer the step asked for last.
    fn out_of_order() -> (e: TrackerError)
        ensures
            e.kind is Custom,
    {
        TrackerError::custom(String::from_str("event does not answer the last step of the run"))
    }

    /// Takes in the outcome of the last step asked for, and returns the next one.
    ///
    /// - `Start` begins the run with the questions: under [`Prompt::Ask`], one for each
    ///   selected story that is not marked as incomplete. Then come the lookups, one for each
    ///   selected story that is not ignored.
    /// - `Confirmed(false)` ignores the story asked about.
    /// - `Fetched` classifies the snapshot against the stored story: a snapshot carrying
    ///   anything new is staged, and its ID is queued when the update counts at the level.
    ///   A snapshot of another ID fails the run.
    /// - Once the lookups are over, the staged snapshots that are not queued are merged into
    ///   the ledger, and the plan is made in ledger order: the queued stories, or every
    ///   looked-up one when forced.
    /// - `Delivered` merges the delivered story's staged snapshot into the ledger; a pause
    ///   comes before every delivery but the first.
    ///
    /// An event that does not answer the last step fails, and changes nothing.
    pub fn step(&mut self, story_data: &mut StoryData, event: Event) -> (r: Result<Step>)
        ensures
            distinct_keys(old(story_data).entries()) ==> distinct_keys(final(story_data).entries()),
            keyed_by_id(old(story_data).entries()) ==> keyed_by_id(final(story_data).entries()),
            r is Err ==> *final(self) == *old(self) && final(story_data).entries() == old(
                story_data,
            ).entries(),
            final(story_data).spec_path() == old(story_data).spec_path(),
            (old(self).phase, event) matches (Phase::Start, Event::Start) ==> (r matches Ok(step)
                && old(self).after_gate(
                old(story_data).entries(),
                0,
                *final(self),
                final(story_data).entries(),
                step,
            )),
            (old(self).phase, event) matches (Phase::Gate(i), Event::Confirmed(yes)) ==> (i
                < old(self).selected.len() <==> r is Ok) && (r matches Ok(step) ==> {
                let id = old(self).selected@[i as int];
                let taken = if yes {
                    old(self).ignored@
                } else {
                    old(self).ignored@.push(id)
                };
                &&& final(self).ignored@ == taken
                &&& (DownloadRun { ignored: final(self).ignored, ..*old(self) }).after_gate(
                    old(story_data).entries(),
                    i + 1,
                    *final(self),
                    final(story_data).entries(),
                    step,
                )
            }),
            (old(self).phase, event) matches (Phase::Fetch(i), Event::Fetched(snapshot)) ==> {
                let entries = old(story_data).entries();
                let id = old(self).selected@[i as int];
                let ok = i < old(self).selected.len() && keys_of(entries).contains(id);
                &&& ok && stored(entries, id).id == snapshot.id <==> r is Ok
                &&& ok && stored(entries, id).id != snapshot.id ==> (r matches Err(e) && e.kind
                    == (ErrorKind::BadStoryComparison {
                    id: stored(entries, id).id,
                    other_id: snapshot.id,
                }))
                &&& r matches Ok(step) ==> {
                    let c = classification_of(stored(entries, id), snapshot, old(self).level);
                    let staged = if c.spec_staged() {
                        old(self).staged@.push(snapshot)
                    } else {
                        old(self).staged@
                    };
                    let queued = if c.queued {
                        old(self).queued@.push(id)
                    } else {
                        old(self).queued@
                    };
                    &&& final(self).staged@ == staged
                    &&& final(self).queued@ == queued
                    &&& (DownloadRun {
                        staged: final(self).staged,
                        queued: final(self).queued,
                        ..*old(self)
                    }).after_fetch(
                        entries,
                        i + 1,
                        *final(self),
                        final(story_data).entries(),
                        step,
                    )
                }
            },
            (old(self).phase, event) matches (Phase::Deliver(i), Event::Delivered) ==> (i
                < old(self).plan.len() <==> r is Ok) && (r matches Ok(step) ==> {
                let id = old(self).plan@[i as int].id;
                let staged = old(self).staged@;
                &&& final(story_data).entries() == (if staged_pos(staged, id) >= 0 {
                    insert_entry(old(story_data).entries(), id, staged[staged_pos(staged, id)])
                } else {
                    old(story_data).entries()
                })
                &&& if i + 1 < old(self).plan.len() {
                    &&& step is Pause
                    &&& *final(self) == (DownloadRun { phase: Phase::Pause((i + 1) as usize), ..*old(self) })
                } else {
                    &&& step is Done
                    &&& *final(self) == (DownloadRun { phase: Phase::Done, ..*old(self) })
                }
            }),
            (old(self).phase, event) matches (Phase::Pause(i), Event::Paused) ==> (i < old(
                self,
            ).plan.len() <==> r is Ok) && (r matches Ok(step) ==> {
                &&& step == Step::Deliver(old(self).plan@[i as int])
                &&& *final(self) == (DownloadRun { phase: Phase::Deliver(i), ..*old(self) })
                &&& final(story_data).entries() == old(story_data).entries()
            }),
            !((old(self).phase, event) matches (Phase::Start, Event::Start)) && !((old(
                self,
            ).phase, event) matches (Phase::Gate(_), Event::Confirmed(_))) && !((old(self).phase, event) matches (
            Phase::Fetch(_), Event::Fetched(_))) && !((old(self).phase, event) matches (
            Phase::Deliver(_), Event::Delivered)) && !((old(self).phase, event) matches (
            Phase::Pause(_), Event::Paused)) ==> r is Err,
    {
        match (self.phase, event) {
            (Phase::Start, Event::Start) => Ok(self.continue_questions(story_data, 0)),
            (Phase::Gate(i), Event::Confirmed(yes)) => {
                if i >= self.selected.len() {
                    return Err(DownloadRun::out_of_order());
                }
                if !yes {
                    let id = self.selected[i];
                    self.ignored.push(id);
                }
                Ok(self.continue_questions(story_data, i + 1))
            },
            (Phase::Fetch(i), Event::Fetched(snapshot)) => {
                if i >= self.selected.len() {
                    return Err(DownloadRun::out_of_order());
                }
                let id = self.selected[i];
                let c = match story_data.get(id) {
                    Some(stored) => classify(stored, &snapshot, self.level),
                    None => return Err(DownloadRun::out_of_order()),
                };
                let c = match c {
                    Ok(c) => c,
                    Err(e) => return Err(e),
                };
                if c.staged() {
                    self.staged.push(snapshot);
                }
                if c.queued {
                    self.queued.push(id);
                }
                Ok(self.continue_lookups(story_data, i + 1))
            },
            (Phase::Deliver(i), Event::Delivered) => {
                if i >= self.plan.len() {
                    return Err(DownloadRun::out_of_order());
                }
                let id = self.plan[i].id;
                proof {
                    lemma_staged_pos(self.staged@, id);
                }
                match find_staged(&self.staged, id) {
                    Some(snapshot) => {
                        proof {
                            lemma_insert_keeps_ledger_valid(story_data.entries(), *snapshot);
                        }
                        story_data.insert(id, snapshot.duplicate());
                    },
                    None => {},
                }
                if i + 1 < self.plan.len() {
                    self.phase = Phase::Pause(i + 1);
                    Ok(Step::Pause)
                } else {
                    self.phase = Phase::Done;
                    Ok(Step::Done)
                }
            },
            (Phase::Pause(i), Event::Paused) => {
                if i >= self.plan.len() {
                    return Err(DownloadRun::out_of_order());
                }
                self.phase = Phase::Deliver(i);
                Ok(Step::Deliver(self.plan[i].duplicate()))
            },
            _ => Err(DownloadRun::out_of_order()),
        }
    }
}

/// A download run never asks to look up a story that it ignores, nor one that it did not
/// select: whatever the answers so far, a lookup step names a selected, not ignored ID.
pub proof fn lemma_lookups_skip_ignored(
    run: DownloadRun,
    entries: Seq<(Id, Story)>,
    from: int,
    next: DownloadRun,
    next_entries: Seq<(Id, Story)>,
    id: Id,
)
    requires
        run.after_gate(entries, from, next, next_entries, Step::Lookup(id))
            || run.after_fetch(entries, from, next, next_entries, Step::Lookup(id)),
    ensures
        !run.ignored@.contains(id),
        run.selected@.contains(id),
        keys_of(entries).contains(id),
{
    if let Phase::Fetch(j) = next.phase {
        assert(run.fetchable(entries, j as int));
        assert(run.selected@[j as int] == id);
    }
}

/// A snapshot that differs from the stored story only in its words is staged, so that the
/// ledger learns the new count, but it is queued for delivery only from `IncludeWords` on.
pub proof fn lemma_words_only_update_is_staged_and_gated(
    stored: Story,
    fetched: Story,
    level: SensibilityLevel,
)
    requires
        stored.id == fetched.id,
        stored.chapter_count == fetched.chapter_count,
        stored.words != fetched.words,
    ensures
        classification_of(stored, fetched, level).spec_staged(),
        classification_of(stored, fetched, level).queued <==> crate::config::level_rank(level)
            >= 1,
{
}

proof fn lemma_select_all(keys: Seq<Id>)
    ensures
        select(keys, Seq::empty()) == keys,
    decreases keys.len(),
{
    if keys.len() > 0 {
        lemma_select_all(keys.drop_last());
        assert(keys.drop_last().push(keys.last()) =~= keys);
    }
}

proof fn lemma_forced_plan(
    entries: Seq<(Id, Story)>,
    selected: Seq<Id>,
    queued: Seq<Id>,
)
    requires
        forall|i: int| 0 <= i < entries.len() ==> selected.contains(#[trigger] entries[i].0),
    ensures
        plan_of(entries, selected, Seq::empty(), queued, Seq::empty(), true) == crate::ledger::values_of(
            entries,
        ),
    decreases entries.len(),
{
    if entries.len() > 0 {
        let rest = entries.drop_last();
        assert forall|i: int| 0 <= i < rest.len() implies selected.contains(#[trigger] rest[i].0) by {
            assert(rest[i] == entries[i]);
        }
        lemma_forced_plan(rest, selected, queued);
        assert(selected.contains(entries[entries.len() - 1].0));
        assert(crate::ledger::values_of(rest).push(entries.last().1) =~= crate::ledger::values_of(
            entries,
        ));
    }
}

/// A forced run over the whole ledger (no ID requested, nothing ignored) in which no lookup
/// brings anything new plans every stored story, in ledger order, and leaves the ledger as
/// it was: there is nothing to merge before the deliveries, nor after any of them.
pub proof fn lemma_forced_run_delivers_whole_ledger(entries: Seq<(Id, Story)>, queued: Seq<Id>)
    ensures
        select(keys_of(entries), Seq::empty()) == keys_of(entries),
        plan_of(
            merge_unqueued(entries, Seq::empty(), queued),
            keys_of(entries),
            Seq::empty(),
            queued,
            Seq::empty(),
            true,
        ) == crate::ledger::values_of(entries),
        merge_unqueued(entries, Seq::empty(), queued) == entries,
        forall|id: Id| staged_pos(Seq::<Story>::empty(), id) < 0,
{
    lemma_select_all(keys_of(entries));
    assert forall|i: int| 0 <= i < entries.len() implies keys_of(entries).contains(
        #[trigger] entries[i].0,
    ) by {
        assert(keys_of(entries)[i] == entries[i].0);
    }
    lemma_forced_plan(entries, keys_of(entries), queued);
}

proof fn lemma_unforced_plan_without_queue(
    entries: Seq<(Id, Story)>,
    selected: Seq<Id>,
    ignored: Seq<Id>,
    staged: Seq<Story>,
)
    ensures
        plan_of(entries, selected, ignored, Seq::empty(), staged, false) == Seq::<Story>::empty(),
    decreases entries.len(),
{
    if entries.len() > 0 {
        lemma_unforced_plan_without_queue(entries.drop_last(), selected, ignored, staged);
    }
}

/// When the only snapshot that a run staged is not queued (a difference below the level) and
/// the run is not forced, the snapshot replaces the stored story in place, keeping the order
/// of the ledger, and nothing is planned for delivery.
pub proof fn lemma_unqueued_update_is_merged_not_delivered(
    entries: Seq<(Id, Story)>,
    selected: Seq<Id>,
    ignored: Seq<Id>,
    snapshot: Story,
)
    requires
        keys_of(entries).contains(snapshot.id),
    ensures
        merge_unqueued(entries, seq![snapshot], Seq::empty()) == entries.update(
            key_pos(entries, snapshot.id),
            (snapshot.id, snapshot),
        ),
        keys_of(merge_unqueued(entries, seq![snapshot], Seq::empty())) == keys_of(entries),
        plan_of(
            merge_unqueued(entries, seq![snapshot], Seq::empty()),
            selected,
            ignored,
            Seq::empty(),
            seq![snapshot],
            false,
        ) == Seq::<Story>::empty(),
{
    crate::ledger::lemma_key_pos(entries, snapshot.id);
    if key_pos(entries, snapshot.id) < 0 {
        let k = choose|k: int| 0 <= k < keys_of(entries).len() && keys_of(entries)[k]
            == snapshot.id;
        assert(entries[k].0 == snapshot.id);
    }
    assert(seq![snapshot].drop_last() =~= Seq::<Story>::empty());
    assert(seq![snapshot].last() == snapshot);
    assert(!Seq::<Id>::empty().contains(snapshot.id));
    assert(merge_unqueued(entries, Seq::<Story>::empty(), Seq::empty()) == entries);
    let merged = merge_unqueued(entries, seq![snapshot], Seq::empty());
    assert(merged == insert_entry(entries, snapshot.id, snapshot));
    assert(keys_of(merged) =~= keys_of(entries));
    lemma_unforced_plan_without_queue(merged, selected, ignored, seq![snapshot]);
}

} // verus!
