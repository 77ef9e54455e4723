//! The strip of a transcript: one marker for each block.

use vstd::prelude::*;

use crate::model::select::{keep_within, kept_within, move_in, moved};

verus! {

/// What a marker stands for.
#[derive(Debug, Clone, Copy, PartialEq, Eq, Structural)]
pub enum TimelineMarkerKind {
    User,
    Assistant,
    Tool,
}

/// A marker of the strip.
#[derive(Debug, Clone, Copy, PartialEq, Eq, Structural)]
pub struct TimelineMarker {
    /// Place in the strip.
    pub index: usize,
    pub kind: TimelineMarkerKind,
}

/// The strip.
#[derive(Debug, Clone, PartialEq, Eq)]
pub struct TimelineState {
    pub show: bool,
    pub markers: Vec<TimelineMarker>,
    pub cursor: usize,
}

impl Default for TimelineState {
    fn default() -> (r: Self)
        ensures
            !r.show,
            r.markers@.len() == 0,
            r.cursor == 0,
    {
        TimelineState { show: false, markers: Vec::new(), cursor: 0 }
    }
}

impl TimelineState {
    /// Makes the markers anew, one for each block.
    pub fn rebuild(&mut self, kinds: &[TimelineMarkerKind])
        ensures
            final(self).markers@ == Seq::new(
                kinds@.len(),
                |i: int| TimelineMarker { index: i as usize, kind: kinds@[i] },
            ),
            final(self).cursor == kept_within(old(self).cursor as int, kinds@.len() as int),
            final(self).show == old(self).show,
    {
        let mut markers: Vec<TimelineMarker> = Vec::new();
        let mut i: usize = 0;
        while i < kinds.len()
            invariant
                i <= kinds@.len(),
                markers@.len() == i,
                forall|k: int|
                    0 <= k < i ==> #[trigger] markers@[k] == (TimelineMarker {
                        index: k as usize,
                        kind: kinds@[k],
                    }),
            decreases kinds@.len() - i,
        {
            markers.push(TimelineMarker { index: i, kind: kinds[i] });
            i = i + 1;
        }
        assert(markers@ =~= Seq::new(
            kinds@.len(),
            |i: int| TimelineMarker { index: i as usize, kind: kinds@[i] },
        ));
        self.cursor = keep_within(self.cursor, markers.len());
        self.markers = markers;
    }

    /// Moves the cursor; it stops at the ends.
    pub fn move_cursor(&mut self, delta: isize)
        ensures
            final(self).cursor == if old(self).markers@.len() == 0 {
                old(self).cursor as int
            } else {
                moved(old(self).cursor as int, delta as int, old(self).markers@.len() as int)
            },
            final(self).markers == old(self).markers,
            final(self).show == old(self).show,
    {
        if self.markers.len() == 0 {
            return;
        }
        self.cursor = move_in(self.cursor, delta, self.markers.len());
    }
}

} // verus!
