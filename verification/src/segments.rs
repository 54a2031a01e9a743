//! Scanline segments and the greedy segment merger.
//!
//! The upstream segmenter delivers, per vertical scanline, an ordered run of
//! non-overlapping segments.  Field-line cross-sections are frequently split
//! by noise into adjacent small segments; the merger closes gaps smaller than
//! a configured pixel count, left to right, never reconsidering earlier
//! merges.

use vstd::prelude::*;

verus! {

/// Luma transition kind at a segment boundary.
#[derive(Clone, Copy, Debug, PartialEq, Eq, Structural)]
pub enum EdgeType {
    Rising,
    Falling,
    Border,
}

/// A contiguous luma run on a vertical scanline, rows `start..=end`.
#[derive(Clone, Copy, Debug, PartialEq, Eq, Structural)]
pub struct Segment {
    pub start: u16,
    pub end: u16,
    pub start_edge_type: EdgeType,
    pub end_edge_type: EdgeType,
}

/// One vertical scanline at column `position` with its segments.
#[derive(Clone, Debug)]
pub struct ScanLine {
    pub position: u16,
    pub segments: Vec<Segment>,
}

/// The vertically scanned segment grid of one frame.
#[derive(Clone, Debug)]
pub struct FilteredSegments {
    pub vertical_scan_lines: Vec<ScanLine>,
}

pub open spec fn segment_wf(s: Segment) -> bool {
    s.start <= s.end
}

/// Segments of one scanline are well-formed, ordered and non-overlapping.
pub open spec fn scan_line_wf(sl: ScanLine) -> bool {
    &&& forall|i: int| 0 <= i < sl.segments@.len() ==> segment_wf(#[trigger] sl.segments@[i])
    &&& forall|i: int, j: int|
        0 <= i < j < sl.segments@.len() ==> (#[trigger] sl.segments@[i]).end
            <= (#[trigger] sl.segments@[j]).start
}

pub open spec fn filtered_segments_wf(fs: FilteredSegments) -> bool {
    forall|i: int|
        0 <= i < fs.vertical_scan_lines@.len() ==> scan_line_wf(
            #[trigger] fs.vertical_scan_lines@[i],
        )
}

/// One merge step: absorb the next segment into the current one.
pub open spec fn absorb(cur: Segment, next: Segment) -> Segment {
    Segment {
        start: cur.start,
        end: next.end,
        start_edge_type: cur.start_edge_type,
        end_edge_type: next.end_edge_type,
    }
}

/// Greedy merge with `cur` open and `rest` still to consume.
pub open spec fn merge_from(cur: Segment, rest: Seq<Segment>, gap: u16) -> Seq<Segment>
    decreases rest.len(),
{
    if rest.len() == 0 {
        seq![cur]
    } else if rest[0].start - cur.end < gap {
        merge_from(absorb(cur, rest[0]), rest.skip(1), gap)
    } else {
        seq![cur] + merge_from(rest[0], rest.skip(1), gap)
    }
}

/// The merged form of a scanline's segment run.
pub open spec fn merge_spec(segs: Seq<Segment>, gap: u16) -> Seq<Segment> {
    if segs.len() == 0 {
        Seq::empty()
    } else {
        merge_from(segs[0], segs.skip(1), gap)
    }
}

/// Merges adjacent segments whose gap is below `gap` pixels, greedily and
/// left to right.
pub fn merge_segments(segs: &Vec<Segment>, gap: u16) -> (out: Vec<Segment>)
    requires
        forall|i: int| 0 <= i < segs@.len() ==> segment_wf(#[trigger] segs@[i]),
        forall|i: int, j: int|
            0 <= i < j < segs@.len() ==> (#[trigger] segs@[i]).end <= (#[trigger] segs@[j]).start,
    ensures
        out@ == merge_spec(segs@, gap),
{
    let mut out: Vec<Segment> = Vec::new();
    if segs.len() == 0 {
        return out;
    }
    let mut cur: Segment = segs[0];
    let mut i: usize = 1;
    proof {
        assert(out@ + merge_from(cur, segs@.skip(1), gap) =~= merge_from(cur, segs@.skip(1), gap));
    }
    while i < segs.len()
        invariant
            1 <= i <= segs@.len(),
            forall|j: int| 0 <= j < segs@.len() ==> segment_wf(#[trigger] segs@[j]),
            forall|j: int, k: int|
                0 <= j < k < segs@.len() ==> (#[trigger] segs@[j]).end <= (#[trigger] segs@[k]).start,
            forall|j: int| i <= j < segs@.len() ==> cur.end <= (#[trigger] segs@[j]).start,
            out@ + merge_from(cur, segs@.skip(i as int), gap) == merge_spec(segs@, gap),
        decreases segs@.len() - i,
    {
        let next = segs[i];
        proof {
            assert(segs@.skip(i as int)[0] == segs@[i as int]);
            assert(segs@.skip(i as int).skip(1) =~= segs@.skip(i as int + 1));
        }
        if next.start - cur.end < gap {
            cur =
            Segment {
                start: cur.start,
                end: next.end,
                start_edge_type: cur.start_edge_type,
                end_edge_type: next.end_edge_type,
            };
        } else {
            proof {
                assert((out@ + seq![cur]) + merge_from(next, segs@.skip(i as int + 1), gap)
                    =~= out@ + (seq![cur] + merge_from(next, segs@.skip(i as int + 1), gap)));
            }
            out.push(cur);
            cur = next;
        }
        i = i + 1;
    }
    proof {
        assert(segs@.skip(i as int).len() == 0);
    }
    out.push(cur);
    out
}

} // verus!
