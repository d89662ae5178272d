//! The "track" operation: add stories to the ledger, asking before overwriting a tracked
//! one, then deliver them one at a time.
//!
//! Like [`DownloadRun`](crate::download::DownloadRun), the operation is a state machine that
//! asks its caller for the outside work through [`Step`] and takes the outcome as [`Event`].
use vstd::prelude::*;
use vstd::string::StringExecFns;

use crate::download::{stored, Event, Step};
use crate::errors::{ErrorKind, Result, TrackerError};
use crate::ledger::{
    distinct_keys, insert_entry, keyed_by_id, keys_of, lemma_insert_keeps_ledger_valid, StoryData,
};
use crate::story::{Id, Story};

verus! {

/// Where a [`TrackRun`] stands.
#[derive(Clone, Copy, Debug, PartialEq, Eq, Structural)]
pub enum TrackPhase {
    /// Not started.
    Start,
    /// Awaiting the answer about overwriting the requested ID at this position.
    Confirm(usize),
    /// Awaiting the lookup of the requested ID at this position.
    Fetch(usize),
    /// Awaiting the delivery at this position of the queue.
    Deliver(usize),
    /// Awaiting the pause before the delivery at this position of the queue.
    Pause(usize),
    /// Over.
    Done,
}

/// A track run over the ledger.
pub struct TrackRun {
    /// The requested IDs, in order; a repeated ID is handled again.
    pub ids: Vec<Id>,
    /// Overwrite tracked stories without asking.
    pub overwrite: bool,
    /// Only update the ledger, without delivering.
    pub skip_download: bool,
    /// The fetched snapshots, in order: the delivery queue.
    pub queue: Vec<Story>,
    /// Where the run stands.
    pub phase: TrackPhase,
}

impl TrackRun {
    /// Starts a run over `ids`.
    pub fn new(ids: Vec<Id>, overwrite: bool, skip_download: bool) -> (r: TrackRun)
        ensures
            r.ids == ids,
            r.overwrite == overwrite,
            r.skip_download == skip_download,
            r.queue@ == Seq::<Story>::empty(),
            r.phase == TrackPhase::Start,
    {
        TrackRun { ids, overwrite, skip_download, queue: Vec::new(), phase: TrackPhase::Start }
    }

    /// The run after going on from the requested ID at position `i`: the question about
    /// overwriting it when it is tracked and overwriting is not assumed, else its lookup; past
    /// the last ID, the first delivery unless there is none to make or delivery is skipped.
    pub open spec fn after_id(
        &self,
        entries: Seq<(Id, Story)>,
        i: int,
        next: TrackRun,
        step: Step,
    ) -> bool {
        if i < self.ids.len() {
            let id = self.ids@[i];
            if !self.overwrite && keys_of(entries).contains(id) {
                &&& step == Step::Confirm(stored(entries, id))
                &&& next == (TrackRun { phase: TrackPhase::Confirm(i as usize), ..*self })
            } else {
                &&& step == Step::Lookup(id)
                &&& next == (TrackRun { phase: TrackPhase::Fetch(i as usize), ..*self })
            }
        } else if self.skip_download || self.queue.len() == 0 {
            &&& step is Done
            &&& next == (TrackRun { phase: TrackPhase::Done, ..*self })
        } else {
            &&& step == Step::Deliver(self.queue@[0])
            &&& next == (TrackRun { phase: TrackPhase::Deliver(0), ..*self })
        }
    }

    fn continue_from(&mut self, story_data: &StoryData, i: usize) -> (step: Step)
        requires
            i <= old(self).ids.len(),
        ensures
            old(self).after_id(story_data.entries(), i as int, *final(self), step),
    {
        if i < self.ids.len() {
            let id = self.ids[i];
            if !self.overwrite && story_data.contains_key(id) {
                let story = story_data.get(id).unwrap().duplicate();
                self.phase = TrackPhase::Confirm(i);
                Step::Confirm(story)
            } else {
                self.phase = TrackPhase::Fetch(i);
                Step::Lookup(id)
            }
        } else if self.skip_download || self.queue.len() == 0 {
            self.phase = TrackPhase::Done;
            Step::Done
        } else {
            self.phase = TrackPhase::Deliver(0);
            Step::Deliver(self.queue[0].duplicate())
        }
    }

    fn out_of_order() -> (e: TrackerError)
        ensures
            e.kind is Custom,
    {
        TrackerError::custom(String::from_str("event does not answer the last step of the run"))
    }

    /// Takes in the outcome of the last step asked for, and returns the next one.
    ///
    /// - Each requested ID that is tracked is asked about first, unless overwriting is
    ///   assumed; `Confirmed(false)` leaves its entry untouched and moves to the next ID.
    /// - `Fetched` with a snapshot of another ID fails the run, like a comparison of two
///   different stories.
/// - `Fetched` stores the snapshot under the requested ID at once (in place for a tracked
    ///   one, last for a new one) and queues it for delivery; a later repeat of the ID sees it.
    /// - Once every ID is handled, the queue is delivered in order, with a pause before every
    ///   delivery but the first, unless delivery is skipped.
    ///
    /// An event that does not answer the last step fails, and changes nothing.
    pub fn step(&mut self, story_data: &mut StoryData, event: Event) -> (r: Result<Step>)
        ensures
            distinct_keys(old(story_data).entries()) ==> distinct_keys(final(story_data).entries()),
            keyed_by_id(old(story_data).entries()) ==> keyed_by_id(final(story_data).entries()),
            r is Err ==> *final(self) == *old(self) && final(story_data).entries() == old(
                story_data,
            ).entries(),
            final(story_data).spec_path() == old(story_data).spec_path(),
            (old(self).phase, event) matches (TrackPhase::Start, Event::Start) ==> (r matches Ok(
                step,
            ) && old(self).after_id(old(story_data).entries(), 0, *final(self), step)
                && final(story_data).entries() == old(story_data).entries()),
            (old(self).phase, event) matches (TrackPhase::Confirm(i), Event::Confirmed(yes)) ==> (i
                < old(self).ids.len() <==> r is Ok) && (r matches Ok(step) ==> {
                &&& final(story_data).entries() == old(story_data).entries()
                &&& yes ==> step == Step::Lookup(old(self).ids@[i as int]) && *final(self) == (
                TrackRun { phase: TrackPhase::Fetch(i), ..*old(self) })
                &&& !yes ==> old(self).after_id(
                    old(story_data).entries(),
                    i + 1,
                    *final(self),
                    step,
                )
            }),
            (old(self).phase, event) matches (TrackPhase::Fetch(i), Event::Fetched(snapshot)) ==> (i
                < old(self).ids.len() && snapshot.id == old(self).ids@[i as int] <==> r is Ok) && (i
                < old(self).ids.len() && snapshot.id != old(self).ids@[i as int] ==> (r matches Err(
                e) && e.kind == (ErrorKind::BadStoryComparison {
                id: old(self).ids@[i as int],
                other_id: snapshot.id,
            }))) && (r matches Ok(step) ==> {
                let id = old(self).ids@[i as int];
                &&& final(story_data).entries() == insert_entry(
                    old(story_data).entries(),
                    id,
                    snapshot,
                )
                &&& final(self).queue@ == old(self).queue@.push(snapshot)
                &&& (TrackRun { queue: final(self).queue, ..*old(self) }).after_id(
                    final(story_data).entries(),
                    i + 1,
                    *final(self),
                    step,
                )
            }),
            (old(self).phase, event) matches (TrackPhase::Deliver(i), Event::Delivered) ==> (i
                < old(self).queue.len() <==> r is Ok) && (r matches Ok(step) ==> {
                &&& final(story_data).entries() == old(story_data).entries()
                &&& if i + 1 < old(self).queue.len() {
                    &&& step is Pause
                    &&& *final(self) == (TrackRun {
                        phase: TrackPhase::Pause((i + 1) as usize),
                        ..*old(self)
                    })
                } else {
                    &&& step is Done
                    &&& *final(self) == (TrackRun { phase: TrackPhase::Done, ..*old(self) })
                }
            }),
            (old(self).phase, event) matches (TrackPhase::Pause(i), Event::Paused) ==> (i < old(
                self,
            ).queue.len() <==> r is Ok) && (r matches Ok(step) ==> {
                &&& step == Step::Deliver(old(self).queue@[i as int])
                &&& *final(self) == (TrackRun { phase: TrackPhase::Deliver(i), ..*old(self) })
                &&& final(story_data).entries() == old(story_data).entries()
            }),
            !((old(self).phase, event) matches (TrackPhase::Start, Event::Start)) && !((old(
                self,
            ).phase, event) matches (TrackPhase::Confirm(_), Event::Confirmed(_))) && !((old(
                self,
            ).phase, event) matches (TrackPhase::Fetch(_), Event::Fetched(_))) && !((old(
                self,
            ).phase, event) matches (TrackPhase::Deliver(_), Event::Delivered)) && !((old(
                self,
            ).phase, event) matches (TrackPhase::Pause(_), Event::Paused)) ==> r is Err,
    {
        match (self.phase, event) {
            (TrackPhase::Start, Event::Start) => Ok(self.continue_from(story_data, 0)),
            (TrackPhase::Confirm(i), Event::Confirmed(yes)) => {
                if i >= self.ids.len() {
                    return Err(TrackRun::out_of_order());
                }
                if yes {
                    self.phase = TrackPhase::Fetch(i);
                    Ok(Step::Lookup(self.ids[i]))
                } else {
                    Ok(self.continue_from(story_data, i + 1))
                }
            },
            (TrackPhase::Fetch(i), Event::Fetched(snapshot)) => {
                if i >= self.ids.len() {
                    return Err(TrackRun::out_of_order());
                }
                let id = self.ids[i];
                if snapshot.id != id {
                    return Err(TrackerError::story_comparison(id, snapshot.id));
                }
                proof {
                    lemma_insert_keeps_ledger_valid(story_data.entries(), snapshot);
                }
                story_data.insert(id, snapshot.duplicate());
                self.queue.push(snapshot);
                Ok(self.continue_from(story_data, i + 1))
            },
            (TrackPhase::Deliver(i), Event::Delivered) => {
                if i >= self.queue.len() {
                    return Err(TrackRun::out_of_order());
                }
                if i + 1 < self.queue.len() {
                    self.phase = TrackPhase::Pause(i + 1);
                    Ok(Step::Pause)
                } else {
                    self.phase = TrackPhase::Done;
                    Ok(Step::Done)
                }
            },
            (TrackPhase::Pause(i), Event::Paused) => {
                if i >= self.queue.len() {
                    return Err(TrackRun::out_of_order());
                }
                self.phase = TrackPhase::Deliver(i);
                Ok(Step::Deliver(self.queue[i].duplicate()))
            },
            _ => Err(TrackRun::out_of_order()),
        }
    }
}

/// Going on from position `i` of the requested IDs never looks up an ID other than the one at
/// `i`, nor touches the ledger: so an ID that occurs once, whose overwrite was declined, is
/// never looked up nor queued, and its entry stays as it was.
pub proof fn lemma_track_goes_on_with_current_id(
    run: TrackRun,
    entries: Seq<(Id, Story)>,
    i: int,
    next: TrackRun,
    step: Step,
)
    requires
        0 <= i,
        run.after_id(entries, i, next, step),
    ensures
        step matches Step::Lookup(id) ==> 0 <= i < run.ids.len() && id == run.ids@[i],
        next.queue == run.queue,
{
}

} // verus!
