//! Frames, control events, and the flow-failure code that a downstream
//! consumer can answer with.

use vstd::prelude::*;

verus! {

/// A data frame: an opaque payload plus the two things the valve reads of
/// it, a presentation timestamp in nanoseconds of stream time and a
/// keyframe flag.
#[derive(Debug, Clone, PartialEq)]
pub struct Frame {
    pub data: Vec<u8>,
    pub timestamp: u64,
    pub is_keyframe: bool,
}

/// The mathematical value of a `Frame`.
pub ghost struct FrameView {
    pub data: Seq<u8>,
    pub timestamp: u64,
    pub is_keyframe: bool,
}

impl View for Frame {
    type V = FrameView;

    open spec fn view(&self) -> FrameView {
        FrameView { data: self.data@, timestamp: self.timestamp, is_keyframe: self.is_keyframe }
    }
}

/// The timestamp a frame is given on intake: its presentation time or, if
/// absent, its decode time; if neither is present, time zero.
pub open spec fn derived_timestamp(pts: Option<u64>, dts: Option<u64>) -> u64 {
    match pts {
        Some(t) => t,
        None => match dts {
            Some(t) => t,
            None => 0,
        },
    }
}

impl Frame {
    /// Builds a frame from the values an inbound buffer carries: optional
    /// presentation and decode times, and a "not independently decodable"
    /// flag whose absence marks a keyframe.
    pub fn new(data: Vec<u8>, pts: Option<u64>, dts: Option<u64>, delta_unit: bool) -> (f: Frame)
        ensures
            f@.data == data@,
            f@.timestamp == derived_timestamp(pts, dts),
            f@.is_keyframe == !delta_unit,
    {
        let timestamp = match pts {
            Some(t) => t,
            None => match dts {
                Some(t) => t,
                None => 0,
            },
        };
        Frame { data, timestamp, is_keyframe: !delta_unit }
    }
}

/// The mathematical values of a sequence of frames, kept in order.
pub open spec fn frame_views(s: Seq<Frame>) -> Seq<FrameView> {
    s.map_values(|f: Frame| f@)
}

pub proof fn lemma_frame_views_len(s: Seq<Frame>)
    ensures
        frame_views(s).len() == s.len(),
{
}

pub proof fn lemma_frame_views_index(s: Seq<Frame>, i: int)
    requires
        0 <= i < s.len(),
    ensures
        frame_views(s)[i] == s[i]@,
{
}

pub proof fn lemma_frame_views_push(s: Seq<Frame>, f: Frame)
    ensures
        frame_views(s.push(f)) == frame_views(s).push(f@),
{
    assert(frame_views(s.push(f)) =~= frame_views(s).push(f@));
}

pub proof fn lemma_frame_views_remove_head(s: Seq<Frame>)
    requires
        s.len() > 0,
    ensures
        frame_views(s.remove(0)) == frame_views(s).drop_first(),
{
    assert(frame_views(s.remove(0)) =~= frame_views(s).drop_first());
}

/// A non-data signal (end-of-stream, flush request, format change): the
/// valve forwards it downstream unexamined, so only its opaque payload is
/// modelled.
#[derive(Debug, Clone, PartialEq)]
pub struct ControlEvent {
    pub data: Vec<u8>,
}

impl View for ControlEvent {
    type V = Seq<u8>;

    open spec fn view(&self) -> Seq<u8> {
        self.data@
    }
}

/// The failure a downstream consumer can answer a forwarded frame with.
/// It is propagated verbatim to the upstream caller.
#[derive(Debug, Clone, Copy, PartialEq, Eq, Structural)]
pub enum FlowError {
    NotLinked,
    Flushing,
    Eos,
    NotNegotiated,
    Error,
}

} // verus!
