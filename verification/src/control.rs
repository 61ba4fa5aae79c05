//! The rules that tie a queue to the engine that plays from it: what editing the queue means for
//! what is playing.

use crate::engine::types::{Command, State};
use crate::queue::model::QueueModel;
use crate::queue::{ItemId, Queue, QueueSnapshot};
use crate::text::{decimal, decimal_text};
use vstd::prelude::*;

verus! {

/// A queue, edited along with what is playing. What an edit asks of the engine is returned for
/// whoever drives the engine to send.
pub struct Controller {
    queue: Queue,
}

impl View for Controller {
    type V = QueueModel;

    closed spec fn view(&self) -> QueueModel {
        self.queue@
    }
}

/// What playing an entry that does not exist is told.
pub open spec fn no_entry_text(id: ItemId) -> Seq<char> {
    "there is no queue entry "@ + decimal_text(id.0 as nat)
}

/// Whether `id` is one of `ids`.
fn is_among(ids: &[ItemId], id: ItemId) -> (r: bool)
    ensures
        r == ids@.contains(id),
{
    let mut i: usize = 0;
    while i < ids.len()
        invariant
            i <= ids.len(),
            forall|j: int| 0 <= j < i ==> ids@[j] != id,
        decreases ids.len() - i,
    {
        if ids[i] == id {
            return true;
        }
        i += 1;
    }
    false
}

impl Controller {
    /// What holds of a controller at every moment.
    pub closed spec fn wf(self) -> bool {
        self.queue.wf()
    }

    /// A controller of `queue`.
    pub fn new(queue: Queue) -> (r: Self)
        requires
            queue.wf(),
        ensures
            r@ == queue@,
            r.wf(),
    {
        Controller { queue }
    }

    /// The queue.
    pub fn queue(&self) -> (r: &Queue)
        requires
            self.wf(),
        ensures
            r@ == self@,
            r.wf(),
    {
        &self.queue
    }

    /// The queue, to edit without regard to what is playing, or to play from.
    pub fn queue_mut(&mut self) -> (r: &mut Queue)
        requires
            old(self).wf(),
        ensures
            r@ == old(self)@,
            r.wf(),
            final(r)@ == final(self)@,
            final(r).wf() == final(self).wf(),
    {
        &mut self.queue
    }

    /// Plays the entry `id` now, wherever it is in the queue.
    pub fn play_item(&self, id: ItemId) -> (r: Result<Command, String>)
        ensures
            if self@.has(id) {
                r matches Ok(Command::Play(Some(track))) && track.0@ == decimal_text(id.0 as nat)
            } else {
                r matches Err(why) && why@ == no_entry_text(id)
            },
    {
        if !self.queue.contains(id) {
            let mut why = String::new();
            why.push_str("there is no queue entry ");
            why.push_str(decimal(id.0).as_str());
            assert(why@ =~= no_entry_text(id));
            return Err(why);
        }
        Ok(Command::Play(Some(id.track_ref())))
    }

    /// The queue entry that an engine in state `state` is playing (or has loaded), if any. A
    /// stopped engine is not playing anything, however recently it was: removing the last entry
    /// that played must not start playback.
    pub open spec fn playing(queue: QueueModel, state: State) -> Option<ItemId> {
        if state is Stopped {
            None
        } else {
            queue.current
        }
    }

    /// The queue entry that an engine in state `state` is playing, if any.
    pub fn playing_entry(&self, state: State) -> (r: Option<ItemId>)
        requires
            self.wf(),
        ensures
            r == Controller::playing(self@, state),
    {
        match state {
            State::Stopped => None,
            _ => self.queue.current(),
        }
    }

    /// Removes entries from the queue while the engine is in state `state`. The queue leaves a
    /// track that is playing alone (it only answers what comes next), so if the playing entry was
    /// one of them, the engine has to skip to the next. Returns how many entries existed, and
    /// what to tell the engine.
    pub fn remove(&mut self, ids: &[ItemId], state: State) -> (r: (usize, Option<Command>))
        requires
            old(self).wf(),
        ensures
            r.0 == old(self)@.removals(ids@),
            final(self)@ == old(self)@.remove(ids@),
            final(self).wf(),
            match Controller::playing(old(self)@, state) {
                Some(id) if ids@.contains(id) && r.0 > 0 => r.1 == Some(Command::Next),
                _ => r.1 is None,
            },
    {
        let playing = self.playing_entry(state);
        let removed: usize = self.queue.remove(ids);
        let command = match playing {
            Some(id) => if removed > 0 && is_among(ids, id) {
                Some(Command::Next)
            } else {
                None
            },
            None => None,
        };
        (removed, command)
    }

    /// Empties the queue; the engine has to stop, since what was playing is no longer in it.
    pub fn clear(&mut self) -> (r: Command)
        requires
            old(self).wf(),
        ensures
            r == Command::Stop,
            final(self)@ == old(self)@.clear(),
            final(self).wf(),
    {
        self.queue.clear();
        Command::Stop
    }

    /// What a list shows of the queue.
    pub fn snapshot(&self) -> (r: QueueSnapshot)
        requires
            self.wf(),
        ensures
            r.shows(self@),
    {
        self.queue.snapshot()
    }
}

/// However it was edited, a stopped engine is not set going by a removal.
pub proof fn removing_does_not_start_a_stopped_engine(queue: QueueModel)
    ensures
        Controller::playing(queue, State::Stopped) is None,
{
}

} // verus!
