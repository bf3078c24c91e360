//! The queue of a turn's events, drained in batches.

use crate::ffi::events::{AgentEventFfi, FlatView};
use crate::model::{lemma_views_push, views};
use vstd::prelude::*;

verus! {

/// The events of a turn that the app has not fetched, and whether the turn has
/// finished.
pub struct TurnQueue {
    events: Vec<AgentEventFfi>,
    finished: bool,
}

/// [`TurnQueue`] as a mathematical value.
pub struct QueueView {
    pub events: Seq<FlatView>,
    pub finished: bool,
}

impl View for TurnQueue {
    type V = QueueView;

    closed spec fn view(&self) -> QueueView {
        QueueView { events: views(self.events@), finished: self.finished }
    }
}

/// The greatest number of events that a batch of the asked size holds: one at least.
pub open spec fn batch_size(max: u32) -> int {
    if max < 1 {
        1
    } else {
        max as int
    }
}

impl QueueView {
    /// The number of events of the next batch.
    pub open spec fn batch_len(self, max: int) -> int {
        if self.events.len() <= max {
            self.events.len() as int
        } else {
            max
        }
    }

    /// The queue once the next batch was fetched, and the batch; none where there
    /// is nothing to fetch yet. The batch is empty exactly where the turn has
    /// finished and everything was fetched.
    pub open spec fn fetched(self, max: int) -> (QueueView, Option<Seq<FlatView>>) {
        if self.events.len() > 0 {
            let n = self.batch_len(max);
            (QueueView { events: self.events.skip(n), ..self }, Some(self.events.take(n)))
        } else if self.finished {
            (self, Some(Seq::empty()))
        } else {
            (self, None)
        }
    }
}

impl TurnQueue {
    /// A queue without events, of a turn that runs.
    pub fn new() -> (r: TurnQueue)
        ensures
            r@ == (QueueView { events: Seq::empty(), finished: false }),
    {
        let r = TurnQueue { events: Vec::new(), finished: false };
        assert(views(r.events@) =~= Seq::<FlatView>::empty());
        r
    }

    /// Puts an event behind the others.
    pub fn push(&mut self, event: AgentEventFfi)
        ensures
            final(self)@ == (QueueView { events: old(self)@.events.push(event@), ..old(self)@ }),
    {
        proof {
            lemma_views_push(self.events@, event);
        }
        self.events.push(event);
    }

    /// Marks the turn as finished.
    pub fn finish(&mut self)
        ensures
            final(self)@ == (QueueView { finished: true, ..old(self)@ }),
    {
        self.finished = true;
    }

    /// Fetches up to `max` events, in order; none where there are none yet.
    pub fn next_batch(&mut self, max: usize) -> (r: Option<Vec<AgentEventFfi>>)
        ensures
            (final(self)@, (match r {
                Some(v) => Some(views(v@)),
                None => None,
            })) == old(self)@.fetched(max as int),
    {
        let ghost before = self.events@;
        if self.events.len() > 0 {
            let take: usize = if self.events.len() <= max {
                self.events.len()
            } else {
                max
            };
            let mut batch = self.events.split_off(take);
            core::mem::swap(&mut batch, &mut self.events);
            assert(views(batch@) =~= views(before).take(take as int));
            assert(views(self.events@) =~= views(before).skip(take as int));
            Some(batch)
        } else if self.finished {
            let batch: Vec<AgentEventFfi> = Vec::new();
            assert(views(batch@) =~= Seq::empty());
            Some(batch)
        } else {
            None
        }
    }

    /// Fetches up to the asked number of events, one at least.
    pub fn poll_batch(&mut self, max_events: u32) -> (r: Option<Vec<AgentEventFfi>>)
        ensures
            (final(self)@, (match r {
                Some(v) => Some(views(v@)),
                None => None,
            })) == old(self)@.fetched(batch_size(max_events)),
    {
        let max: u32 = if max_events < 1 {
            1
        } else {
            max_events
        };
        self.next_batch(max as usize)
    }
}

/// Nothing is lost and nothing comes twice: a batch and what is left are the
/// events that were there, in order.
pub proof fn law_batches_keep_every_event(q: QueueView, max: u32)
    ensures
        ({
            let (after, batch) = q.fetched(batch_size(max));
            &&& batch matches Some(b) ==> b + after.events == q.events
            &&& batch is None ==> after == q
            &&& after.finished == q.finished
        }),
{
    let (after, batch) = q.fetched(batch_size(max));
    if let Some(b) = batch {
        assert(b + after.events =~= q.events);
    }
}

/// An empty batch comes exactly when the turn has finished and everything was
/// fetched; a batch holds no more than was asked for.
pub proof fn law_empty_batch_means_the_end(q: QueueView, max: u32)
    ensures
        ({
            let batch = q.fetched(batch_size(max)).1;
            &&& (batch matches Some(b) && b.len() == 0) <==> (q.finished && q.events.len() == 0)
            &&& batch matches Some(b) ==> b.len() <= batch_size(max)
        }),
{
}

/// A batch holds as many events as were asked for, or all where there are fewer.
pub proof fn law_batch_is_as_great_as_asked(q: QueueView, max: u32)
    requires
        q.events.len() > 0,
    ensures
        q.fetched(batch_size(max)).1 matches Some(b) && b.len() == (if q.events.len() < max {
            q.events.len() as int
        } else if max == 0 {
            1
        } else {
            max as int
        }),
{
}

} // verus!
