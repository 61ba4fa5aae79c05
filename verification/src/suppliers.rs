//! Where the playback engine's tracks come from without a queue: a list of local files, or a
//! single TIDAL track.

use crate::engine::supplier::Advance;
use crate::engine::types::TrackRef;
use crate::text::same;
use vstd::prelude::*;

verus! {

/// Local audio files, played in the order given.
pub struct FileSupplier {
    paths: Vec<String>,
    cursor: Option<usize>,
}

impl FileSupplier {
    /// The paths of the files.
    pub closed spec fn paths(self) -> Seq<String> {
        self.paths@
    }

    /// The place of the file that was opened last.
    pub closed spec fn cursor(self) -> Option<nat> {
        match self.cursor {
            Some(at) => Some(at as nat),
            None => None,
        }
    }

    /// What holds of a list at every moment.
    pub open spec fn wf(self) -> bool {
        self.cursor() matches Some(at) ==> at < self.paths().len()
    }

    /// Nothing was opened yet.
    pub fn new(paths: Vec<String>) -> (r: Self)
        ensures
            r.paths() == paths@,
            r.cursor() is None,
            r.wf(),
    {
        FileSupplier { paths, cursor: None }
    }

    /// The place that `how` leads to.
    pub open spec fn target(self, how: Advance) -> Option<int> {
        let place = match how {
            Advance::Auto | Advance::Next => match self.cursor() {
                Some(at) => Some(at as int + 1),
                None => Some(0int),
            },
            Advance::Previous => match self.cursor() {
                Some(at) => Some(at - 1),
                None => None,
            },
            Advance::Restart => match self.cursor() {
                Some(at) => Some(at as int),
                None => None,
            },
        };
        match place {
            Some(at) if 0 <= at < self.paths().len() => Some(at),
            _ => None,
        }
    }

    /// Which file comes next. Asking does not move the cursor; opening does.
    pub fn advance(&self, how: Advance) -> (r: Option<TrackRef>)
        requires
            self.wf(),
        ensures
            match self.target(how) {
                Some(at) => r == Some(TrackRef(self.paths()[at])),
                None => r is None,
            },
    {
        let length: usize = self.paths.len();
        let at: usize = match (how, self.cursor) {
            (Advance::Auto, Some(at)) | (Advance::Next, Some(at)) => at + 1,
            (Advance::Auto, None) | (Advance::Next, None) => 0,
            (Advance::Previous, Some(at)) => if at > 0 {
                at - 1
            } else {
                return None;
            },
            (Advance::Restart, Some(at)) => at,
            (Advance::Previous, None) | (Advance::Restart, None) => {
                return None;
            },
        };
        if at < length {
            Some(TrackRef(self.paths[at].clone()))
        } else {
            None
        }
    }

    /// Whether `path` is the file at `at`, and none before it is.
    pub open spec fn is_first(self, path: Seq<char>, at: int) -> bool {
        &&& 0 <= at < self.paths().len()
        &&& self.paths()[at]@ == path
        &&& forall|i: int| 0 <= i < at ==> (#[trigger] self.paths()[i])@ != path
    }

    /// A file is opened: if it is in the list, the cursor moves to it.
    pub fn opened(&mut self, track: &TrackRef)
        requires
            old(self).wf(),
        ensures
            final(self).paths() == old(self).paths(),
            final(self).wf(),
            forall|at: int| #[trigger]
                old(self).is_first(track.0@, at) ==> final(self).cursor() == Some(at as nat),
            (forall|at: int| !(#[trigger] old(self).is_first(track.0@, at))) ==> final(self).cursor()
                == old(self).cursor(),
    {
        let mut i: usize = 0;
        while i < self.paths.len()
            invariant
                i <= self.paths.len(),
                self.paths() == old(self).paths(),
                self.cursor() == old(self).cursor(),
                forall|j: int| 0 <= j < i ==> (#[trigger] self.paths()[j])@ != track.0@,
            decreases self.paths.len() - i,
        {
            if same(self.paths[i].as_str(), track.0.as_str()) {
                self.cursor = Some(i);
                assert(old(self).is_first(track.0@, i as int));
                return ;
            }
            i += 1;
        }
    }
}

/// Walking forward from the start offers every file in order, and then nothing.
pub proof fn files_play_in_order(files: FileSupplier, at: int)
    requires
        files.wf(),
        0 <= at <= files.paths().len(),
        at == 0 ==> files.cursor() is None,
        at > 0 ==> files.cursor() == Some((at - 1) as nat),
    ensures
        files.target(Advance::Auto) == if at < files.paths().len() {
            Some(at)
        } else {
            None
        },
{
}

/// A single TIDAL track, streamed. No other one is ever offered: a queue supplies those.
pub struct TidalSupplier;

impl TidalSupplier {
    /// Never anything.
    pub fn advance(&self, how: Advance) -> (r: Option<TrackRef>)
        ensures
            r is None,
    {
        None
    }
}

} // verus!
