//! The downstream consumer's interface, and an in-memory consumer.
//!
//! The valve's only call into its consumer is `push` (and `push_event` for
//! non-data signals). Whether a push is accepted is the consumer's
//! decision alone, so the interface promises nothing about which answer
//! comes back; it only pins what each answer means for the sequence of
//! frames the consumer has accepted so far.

use vstd::prelude::*;

use crate::frame::{ControlEvent, FlowError, Frame, FrameView};

verus! {

/// A consumer of forwarded frames and control events.
///
/// `pushed` is the sequence of frames the consumer has accepted, in the
/// order it accepted them; `forwarded_events` likewise for control
/// events. A frame or event answered with a failure is not part of it.
pub trait Downstream {
    spec fn pushed(&self) -> Seq<FrameView>;

    spec fn forwarded_events(&self) -> Seq<Seq<u8>>;

    /// Hands one frame to the consumer. The consumer decides the answer;
    /// an accepted frame is appended to `pushed`, a rejected one changes
    /// nothing.
    fn push(&mut self, frame: Frame) -> (r: Result<(), FlowError>)
        ensures
            r is Ok ==> final(self).pushed() == old(self).pushed().push(frame@),
            r is Err ==> final(self).pushed() == old(self).pushed(),
            final(self).forwarded_events() == old(self).forwarded_events(),
    ;

    /// Hands one control event to the consumer; the answer says whether
    /// forwarding succeeded.
    fn push_event(&mut self, event: ControlEvent) -> (r: bool)
        ensures
            final(self).pushed() == old(self).pushed(),
            r ==> final(self).forwarded_events() == old(self).forwarded_events().push(event@),
            !r ==> final(self).forwarded_events() == old(self).forwarded_events(),
    ;
}

/// An in-memory consumer that keeps every frame and event it accepts, and
/// can be told to start failing once a given number of frames has been
/// accepted. It is the consumer the tests drive the valve against.
pub struct RecordingSink {
    frames: Vec<Frame>,
    events: Vec<ControlEvent>,
    fail_from: Option<usize>,
    refuse_events: bool,
}

impl RecordingSink {
    /// The frames accepted so far, as mathematical values.
    pub closed spec fn accepted(&self) -> Seq<FrameView> {
        self.frames@.map_values(|f: Frame| f@)
    }

    pub closed spec fn accepted_events(&self) -> Seq<Seq<u8>> {
        self.events@.map_values(|e: ControlEvent| e@)
    }

    /// Whether the sink fails a push once `n` frames are held.
    pub closed spec fn failure_point(&self) -> Option<usize> {
        self.fail_from
    }

    /// A sink that accepts everything.
    pub fn new() -> (s: RecordingSink)
        ensures
            s.accepted() == Seq::<FrameView>::empty(),
            s.accepted_events() == Seq::<Seq<u8>>::empty(),
            s.failure_point() is None,
    {
        let s = RecordingSink {
            frames: Vec::new(),
            events: Vec::new(),
            fail_from: None,
            refuse_events: false,
        };
        proof {
            assert(s.accepted() =~= Seq::<FrameView>::empty());
            assert(s.accepted_events() =~= Seq::<Seq<u8>>::empty());
        }
        s
    }

    /// A sink that accepts the first `n` frames and fails every push
    /// after that.
    pub fn failing_from(n: usize) -> (s: RecordingSink)
        ensures
            s.accepted() == Seq::<FrameView>::empty(),
            s.accepted_events() == Seq::<Seq<u8>>::empty(),
            s.failure_point() == Some(n),
    {
        let s = RecordingSink {
            frames: Vec::new(),
            events: Vec::new(),
            fail_from: Some(n),
            refuse_events: false,
        };
        proof {
            assert(s.accepted() =~= Seq::<FrameView>::empty());
            assert(s.accepted_events() =~= Seq::<Seq<u8>>::empty());
        }
        s
    }

    /// A sink that answers every control event with a failure.
    pub fn refusing_events() -> (s: RecordingSink)
        ensures
            s.accepted() == Seq::<FrameView>::empty(),
            s.accepted_events() == Seq::<Seq<u8>>::empty(),
            s.failure_point() is None,
    {
        let s = RecordingSink {
            frames: Vec::new(),
            events: Vec::new(),
            fail_from: None,
            refuse_events: true,
        };
        proof {
            assert(s.accepted() =~= Seq::<FrameView>::empty());
            assert(s.accepted_events() =~= Seq::<Seq<u8>>::empty());
        }
        s
    }

    /// The frames accepted so far, oldest first.
    pub fn frames(&self) -> (r: &Vec<Frame>)
        ensures
            r@.map_values(|f: Frame| f@) == self.accepted(),
    {
        &self.frames
    }

    /// The control events accepted so far, oldest first.
    pub fn events(&self) -> (r: &Vec<ControlEvent>)
        ensures
            r@.map_values(|e: ControlEvent| e@) == self.accepted_events(),
    {
        &self.events
    }
}

impl Downstream for RecordingSink {
    open spec fn pushed(&self) -> Seq<FrameView> {
        self.accepted()
    }

    open spec fn forwarded_events(&self) -> Seq<Seq<u8>> {
        self.accepted_events()
    }

    fn push(&mut self, frame: Frame) -> (r: Result<(), FlowError>)
        ensures
            r is Ok ==> final(self).pushed() == old(self).pushed().push(frame@),
            r is Err ==> final(self).pushed() == old(self).pushed(),
            final(self).forwarded_events() == old(self).forwarded_events(),
    {
        let full = match self.fail_from {
            Some(n) => self.frames.len() >= n,
            None => false,
        };
        if full {
            Err(FlowError::Error)
        } else {
            let ghost before = self.frames@;
            self.frames.push(frame);
            proof {
                assert(self.accepted() =~= before.map_values(|f: Frame| f@).push(frame@));
            }
            Ok(())
        }
    }

    fn push_event(&mut self, event: ControlEvent) -> (r: bool)
        ensures
            final(self).pushed() == old(self).pushed(),
            r ==> final(self).forwarded_events() == old(self).forwarded_events().push(event@),
            !r ==> final(self).forwarded_events() == old(self).forwarded_events(),
    {
        if self.refuse_events {
            false
        } else {
            let ghost before = self.events@;
            self.events.push(event);
            proof {
                assert(self.accepted_events() =~= before.map_values(|e: ControlEvent| e@).push(
                    event@,
                ));
            }
            true
        }
    }
}

} // verus!
