//! The viewer's state between two frames: which detections it draws, which
//! of them show a distance, and when the camera frame must be loaded again.

use vstd::prelude::*;

verus! {

/// What is drawn after a frame whose fresh detections are `fresh`, when
/// `drawn` was drawn before: a non-empty batch replaces them, an empty one
/// keeps them.
pub open spec fn refreshed<T>(drawn: Seq<T>, fresh: Seq<T>) -> Seq<T> {
    if fresh.len() == 0 {
        drawn
    } else {
        fresh
    }
}

/// The detections that the viewer draws. A frame without fresh detections
/// draws the last ones it had, so boxes do not flicker between updates.
pub struct DetectionMemory<T> {
    prev_objects: Vec<T>,
}

impl<T> DetectionMemory<T> {
    /// The detections that are drawn.
    pub closed spec fn drawn(&self) -> Seq<T> {
        self.prev_objects@
    }

    /// A memory that draws nothing yet.
    pub fn new() -> (memory: Self)
        ensures
            memory.drawn() == Seq::<T>::empty(),
    {
        DetectionMemory { prev_objects: Vec::new() }
    }

    /// Takes the detections of this frame: non-empty ones replace those
    /// drawn; an empty batch keeps the previous ones.
    pub fn refresh(&mut self, fresh: Vec<T>)
        ensures
            final(self).drawn() == refreshed(old(self).drawn(), fresh@),
    {
        if !fresh.is_empty() {
            self.prev_objects = fresh;
        }
    }

    /// The detections to draw in this frame.
    pub fn objects(&self) -> (objects: &Vec<T>)
        ensures
            objects@ == self.drawn(),
    {
        &self.prev_objects
    }
}

/// A non-empty batch of fresh detections is drawn whole and alone: every
/// fresh detection, in its order, and nothing else; an empty batch leaves
/// the drawn detections as they were.
pub proof fn lemma_fresh_batch_drawn_whole<T>(drawn: Seq<T>, fresh: Seq<T>)
    ensures
        fresh.len() > 0 ==> refreshed(drawn, fresh).len() == fresh.len(),
        fresh.len() > 0 ==> forall|i: int|
            0 <= i < fresh.len() ==> #[trigger] refreshed(drawn, fresh)[i] == fresh[i],
        fresh.len() == 0 ==> refreshed(drawn, fresh).len() == drawn.len(),
        fresh.len() == 0 ==> forall|i: int|
            0 <= i < drawn.len() ==> #[trigger] refreshed(drawn, fresh)[i] == drawn[i],
{
}

/// Once some detections are drawn, the view never goes blank again: every
/// later refresh still draws at least one detection.
pub proof fn lemma_drawn_stays_nonempty<T>(drawn: Seq<T>, fresh: Seq<T>)
    requires
        drawn.len() > 0,
    ensures
        refreshed(drawn, fresh).len() > 0,
{
}

/// A frame without detections right after a refresh draws what that
/// refresh drew.
pub proof fn lemma_empty_refresh_is_identity<T>(drawn: Seq<T>, fresh: Seq<T>)
    ensures
        refreshed(refreshed(drawn, fresh), Seq::<T>::empty()) == refreshed(drawn, fresh),
{
}

/// The object type whose estimated distance the viewer shows.
pub const DISTANCE_TYPE: &'static str = "pylon";

/// Whether the label of a detection of type `otype` shows its estimated
/// distance; for every other type the distance shown is zero.
pub fn shows_distance(otype: &String) -> (shown: bool)
    ensures
        shown == (otype@ == DISTANCE_TYPE@),
{
    let pylon = String::from_str(DISTANCE_TYPE);
    *otype == pylon
}

/// A point in time as seconds and nanoseconds since the Unix epoch.
#[derive(Clone, Copy, Debug, PartialEq, Eq)]
pub struct Timestamp {
    pub secs: u64,
    pub nanos: u32,
}

/// `a` is strictly later than `b`: seconds first, then nanoseconds.
pub open spec fn later_than(a: Timestamp, b: Timestamp) -> bool {
    a.secs > b.secs || (a.secs == b.secs && a.nanos > b.nanos)
}

impl Timestamp {
    /// The Unix epoch.
    pub fn epoch() -> (t: Timestamp)
        ensures
            t.secs == 0 && t.nanos == 0,
    {
        Timestamp { secs: 0, nanos: 0 }
    }

    /// Whether `self` is strictly later than `other`.
    pub fn is_later_than(&self, other: &Timestamp) -> (later: bool)
        ensures
            later == later_than(*self, *other),
    {
        self.secs > other.secs || (self.secs == other.secs && self.nanos > other.nanos)
    }
}

/// Of two different times exactly one is later, and no time is later than
/// itself: a frame file is loaded again only when its time moved forward,
/// and a loaded frame is never loaded twice for the same time.
pub proof fn lemma_later_than_strict_total(a: Timestamp, b: Timestamp)
    ensures
        !later_than(a, a),
        a != b ==> (later_than(a, b) <==> !later_than(b, a)),
        a == b ==> !later_than(a, b) && !later_than(b, a),
{
}

/// Being later follows the clock: a time with more whole seconds is later,
/// and within the same second the one with more nanoseconds is later.
pub proof fn lemma_later_than_follows_the_clock(a: Timestamp, b: Timestamp)
    ensures
        a.secs > b.secs ==> later_than(a, b),
        a.secs < b.secs ==> !later_than(a, b),
        a.secs == b.secs ==> (later_than(a, b) <==> a.nanos > b.nanos),
{
}

/// Being later is transitive.
pub proof fn lemma_later_than_transitive(a: Timestamp, b: Timestamp, c: Timestamp)
    requires
        later_than(a, b),
        later_than(b, c),
    ensures
        later_than(a, c),
{
}

/// The clock of the displayed frame only moves forward: after any sequence of
/// loads, each of a frame newer than the one before, the last time is later
/// than every earlier one.
pub proof fn lemma_loads_move_forward(times: Seq<Timestamp>)
    requires
        forall|k: int| 0 < k < times.len() ==> later_than(#[trigger] times[k], times[k - 1]),
    ensures
        forall|i: int, j: int| 0 <= i < j < times.len() ==> later_than(#[trigger] times[j], #[trigger] times[i]),
    decreases times.len(),
{
    if times.len() > 0 {
        let prefix = times.drop_last();
        lemma_loads_move_forward(prefix);
        assert forall|i: int, j: int| 0 <= i < j < times.len() implies later_than(
            #[trigger] times[j],
            #[trigger] times[i],
        ) by {
            if j < times.len() - 1 {
                assert(prefix[j] == times[j] && prefix[i] == times[i]);
            } else if i < j - 1 {
                assert(prefix[j - 1] == times[j - 1] && prefix[i] == times[i]);
                assert(later_than(times[j - 1], times[i]));
                lemma_later_than_transitive(times[j], times[j - 1], times[i]);
            }
        }
    }
}

/// Remembers when the displayed camera frame was last modified.
pub struct ImageClock {
    last_update_time: Timestamp,
}

impl ImageClock {
    /// When the displayed frame was last modified.
    pub closed spec fn last_update(&self) -> Timestamp {
        self.last_update_time
    }

    /// A clock for which no frame has been loaded: its time is the epoch.
    pub fn new() -> (clock: Self)
        ensures
            clock.last_update() == (Timestamp { secs: 0, nanos: 0 }),
    {
        ImageClock { last_update_time: Timestamp::epoch() }
    }

    /// Whether a frame file modified at `modified` must be loaded: only when
    /// it is strictly newer than the one displayed.
    pub fn needs_reload(&self, modified: Timestamp) -> (reload: bool)
        ensures
            reload == later_than(modified, self.last_update()),
    {
        modified.is_later_than(&self.last_update_time)
    }

    /// Records that the frame modified at `modified`, which is newer than the
    /// one displayed, is now displayed: the clock only moves forward.
    pub fn record_load(&mut self, modified: Timestamp)
        requires
            later_than(modified, old(self).last_update()),
        ensures
            final(self).last_update() == modified,
            later_than(final(self).last_update(), old(self).last_update()),
    {
        self.last_update_time = modified;
    }

    /// The time of the displayed frame.
    pub fn last_update_time(&self) -> (t: Timestamp)
        ensures
            t == self.last_update(),
    {
        self.last_update_time
    }
}

} // verus!
