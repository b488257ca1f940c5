//! Modifier segments: a do-nothing filler, a hard deadline wrapper, a
//! repeat-from-template wrapper, and a run-two-trees-concurrently
//! wrapper. Their behavior is dispatched through `Segment`.

use vstd::prelude::*;

use crate::path::{path_duplicable, path_wf, seg_duplicable, seg_dup_rel, seg_wf, segs_duplicable, segs_wf, Path, Segment};

verus! {

/// A primitive that never completes on its own; useful only inside a
/// deadline wrapper, whose timeout provides the exit.
#[derive(Clone, Copy, Debug, PartialEq, Eq, Structural)]
pub struct Nop {}

/// Forwards to an inner segment but forces completion, through the
/// inner segment's abrupt end, once a fixed duration has elapsed since
/// `start`.
pub struct TimedSegment {
    pub seg: Box<Segment>,
    pub dur: u64,
    pub start: u64,
}

impl TimedSegment {
    pub fn new(seg: Segment, dur: u64, now: u64) -> (r: TimedSegment)
        ensures
            *r.seg == seg,
            r.dur == dur,
            r.start == now,
    {
        TimedSegment { seg: Box::new(seg), dur, start: now }
    }
}

/// Runs a duplicable template to completion up to `max_count` extra
/// times before reporting completion itself.
pub struct RepeatSegment {
    pub max_count: usize,
    pub count: usize,
    pub ref_seg: Box<Segment>,
    pub current_seg: Box<Segment>,
}

impl RepeatSegment {
    /// Wraps the template in a single-segment sub-path (so activation
    /// inside the wrapper starts it properly) and snapshots the first
    /// running copy.
    pub fn new(seg: Segment, max_count: usize) -> (r: RepeatSegment)
        requires
            seg_duplicable(seg),
            seg_wf(seg),
        ensures
            r.max_count == max_count,
            r.count == 0,
            (*r.ref_seg) matches Segment::Sub(p) && p.current is None && p.pending@.len() == 1
                && p.pending@[0] == seg,
            seg_dup_rel(*r.ref_seg, *r.current_seg),
            seg_wf(*r.ref_seg),
            seg_duplicable(*r.ref_seg),
    {
        let mut pending: Vec<Segment> = Vec::new();
        pending.push(seg);
        let template = Segment::Sub(Box::new(Path { pending, current: None }));
        proof {
            let p = *(template->Sub_0);
            assert(template matches Segment::Sub(b) && *b == p);
            assert(p.pending@.len() == 1 && p.pending@[0] == seg);
            assert(p.pending@.drop_first() =~= Seq::<Segment>::empty());
            assert(segs_wf(p.pending@.drop_first()));
            assert(segs_duplicable(p.pending@.drop_first()));
            assert(segs_wf(p.pending@));
            assert(segs_duplicable(p.pending@));
            assert(p.current is None);
            assert(path_wf(p));
            assert(path_duplicable(p));
            assert(seg_wf(template));
            assert(seg_duplicable(template));
        }
        let first = template.duplicate();
        RepeatSegment {
            max_count,
            count: 0,
            ref_seg: Box::new(template),
            current_seg: Box::new(first),
        }
    }
}

/// Drives `secondary` every tick purely for side effects while `main`
/// produces the actual output; completes when `main` completes, and
/// can end `secondary` abruptly at that point.
pub struct WhileSegment {
    pub main: Path,
    pub secondary: Path,
    pub end_secondary: bool,
}

impl WhileSegment {
    pub fn new(main: Path, secondary: Path, end_secondary: bool) -> (r: WhileSegment)
        ensures
            r.main == main,
            r.secondary == secondary,
            r.end_secondary == end_secondary,
    {
        WhileSegment { main, secondary, end_secondary }
    }
}

} // verus!
