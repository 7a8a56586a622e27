//! The valve itself: frame intake, the closed-mode backlog with pruning,
//! and the keyframe-aware flush performed on the first arrival after the
//! valve opens.

use vstd::prelude::*;

use crate::backlog::{
    expired, first_keyframe, flush_frames, flush_start, has_keyframe, history_nanos,
    lemma_first_keyframe_is_first, pruned,
};
use crate::frame::{
    frame_views, lemma_frame_views_index, lemma_frame_views_len, lemma_frame_views_push,
    lemma_frame_views_remove_head, ControlEvent, FlowError, Frame, FrameView,
};
use crate::settings::{
    with_debug, with_max_history, with_open, Settings, DEFAULT_DEBUG, DEFAULT_MAX_HISTORY_MS,
    DEFAULT_OPEN,
};
use crate::sink::Downstream;

verus! {

/// The configured history window in nanoseconds of stream time.
pub fn history_window_ns(ms: u64) -> (r: u64)
    ensures
        r == history_nanos(ms),
{
    if ms > u64::MAX / 1_000_000 {
        u64::MAX
    } else {
        ms * 1_000_000
    }
}

/// A stream stage that either forwards frames downstream at once (open)
/// or withholds them in a time-windowed backlog (closed), releasing the
/// backlog from its most recent decodable point when it opens.
pub struct PrerollValve {
    pub settings: Settings,
    pub backlog: Vec<Frame>,
}

impl PrerollValve {
    /// The buffered frames, oldest first, as mathematical values.
    pub open spec fn backlog_view(&self) -> Seq<FrameView> {
        frame_views(self.backlog@)
    }

    /// A closed valve with default settings and an empty backlog.
    pub fn new() -> (v: PrerollValve)
        ensures
            v.settings == (Settings {
                open: DEFAULT_OPEN,
                max_history: DEFAULT_MAX_HISTORY_MS,
                debug: DEFAULT_DEBUG,
            }),
            v.backlog_view() == Seq::<FrameView>::empty(),
    {
        let v = PrerollValve { settings: Settings::default(), backlog: Vec::new() };
        proof {
            assert(v.backlog_view() =~= Seq::<FrameView>::empty());
        }
        v
    }

    /// Whether the valve currently forwards frames at once.
    pub fn is_open(&self) -> (r: bool)
        ensures
            r == self.settings.open,
    {
        self.settings.open
    }

    /// The retained-history bound, in milliseconds of stream time.
    pub fn max_history(&self) -> (r: u64)
        ensures
            r == self.settings.max_history,
    {
        self.settings.max_history
    }

    /// Whether trace-level diagnostics are asked for.
    pub fn debug_enabled(&self) -> (r: bool)
        ensures
            r == self.settings.debug,
    {
        self.settings.debug
    }

    /// Opens or closes the valve. Takes effect on the next intake call;
    /// nothing already buffered or forwarded is reprocessed.
    pub fn set_open(&mut self, v: bool)
        ensures
            final(self).settings == with_open(old(self).settings, v),
            final(self).backlog == old(self).backlog,
    {
        self.settings.open = v;
    }

    /// Sets the retained-history bound in milliseconds.
    pub fn set_max_history(&mut self, v: u64)
        ensures
            final(self).settings == with_max_history(old(self).settings, v),
            final(self).backlog == old(self).backlog,
    {
        self.settings.max_history = v;
    }

    /// Switches trace-level diagnostics on or off.
    pub fn set_debug(&mut self, v: bool)
        ensures
            final(self).settings == with_debug(old(self).settings, v),
            final(self).backlog == old(self).backlog,
    {
        self.settings.debug = v;
    }

    /// Takes delivery of one frame from upstream.
    ///
    /// Closed: the frame joins the tail of the backlog, expired frames
    /// leave its head, and nothing reaches the consumer. Open: whatever
    /// the backlog holds is flushed first — from its first keyframe, or
    /// whole if it has none — then the live frame follows; the backlog is
    /// cleared whether or not the consumer accepts every frame, and the
    /// first refusal is answered to the caller as it came. The live frame
    /// is never forwarded unless the whole flush was accepted.
    pub fn on_frame<S: Downstream>(&mut self, frame: Frame, sink: &mut S) -> (r: Result<
        (),
        FlowError,
    >)
        ensures
            final(self).settings == old(self).settings,
            final(sink).forwarded_events() == old(sink).forwarded_events(),
            !old(self).settings.open ==> ({
                &&& r is Ok
                &&& final(self).backlog_view() == pruned(
                    old(self).backlog_view().push(frame@),
                    frame@.timestamp,
                    history_nanos(old(self).settings.max_history),
                )
                &&& final(sink).pushed() == old(sink).pushed()
            }),
            old(self).settings.open ==> ({
                let attempt = flush_frames(old(self).backlog_view()).push(frame@);
                &&& final(self).backlog_view() == Seq::<FrameView>::empty()
                &&& (r is Ok ==> final(sink).pushed() == old(sink).pushed() + attempt)
                &&& (r is Err ==> exists|i: int|
                    0 <= i < attempt.len() && final(sink).pushed() == old(sink).pushed()
                        + attempt.take(i))
            }),
    {
        let ghost q0 = old(self).backlog_view();
        if self.settings.open {
            let ghost fl = flush_frames(q0);
            let ghost pushed0 = old(sink).pushed();
            let ghost attempt = fl.push(frame@);

            // Find the first keyframe, the earliest point a fresh decoder
            // can start from.
            let n = self.backlog.len();
            let mut found = false;
            let mut start: usize = 0;
            let mut i: usize = 0;
            while i < n
                invariant
                    i <= n,
                    n == self.backlog.len(),
                    self.backlog_view() == q0,
                    n == q0.len(),
                    !found ==> start == 0 && (forall|j: int|
                        0 <= j < i ==> !q0[j].is_keyframe),
                    found ==> (start as int) < n && q0[start as int].is_keyframe && (forall|
                        j: int,
                    |
                        0 <= j < start ==> !q0[j].is_keyframe),
                decreases n - i,
            {
                proof {
                    lemma_frame_views_index(self.backlog@, i as int);
                }
                if !found && self.backlog[i].is_keyframe {
                    found = true;
                    start = i;
                }
                i += 1;
            }
            proof {
                if found {
                    assert(has_keyframe(q0));
                    lemma_first_keyframe_is_first(q0);
                    let fk = first_keyframe(q0);
                    if (start as int) < fk {
                        assert(!q0[start as int].is_keyframe);
                    }
                    if fk < (start as int) {
                        assert(!q0[fk].is_keyframe);
                    }
                    assert(start as int == flush_start(q0));
                } else {
                    assert(!has_keyframe(q0)) by {
                        if has_keyframe(q0) {
                            let w = choose|w: int| 0 <= w < q0.len() && q0[w].is_keyframe;
                            assert(!q0[w].is_keyframe);
                        }
                    }
                    assert(start as int == flush_start(q0));
                }
                assert(fl == q0.skip(start as int));
            }

            // Discard the prefix that a fresh decoder could not use. It is
            // dropped, not forwarded.
            let mut d: usize = 0;
            while d < start
                invariant
                    d <= start,
                    (start as int) <= q0.len(),
                    self.settings == old(self).settings,
                    self.backlog_view() == q0.skip(d as int),
                    sink.pushed() == pushed0,
                    sink.forwarded_events() == old(sink).forwarded_events(),
                decreases start - d,
            {
                let ghost before = self.backlog@;
                proof {
                    lemma_frame_views_len(before);
                    assert(before.len() == q0.len() - d);
                }
                self.backlog.remove(0);
                proof {
                    lemma_frame_views_remove_head(before);
                    assert(self.backlog_view() == frame_views(before).drop_first());
                    assert(frame_views(before).drop_first() =~= q0.skip(d + 1));
                }
                d += 1;
            }

            // Forward the flush range in order; the first refusal aborts
            // the flush, and the backlog is cleared regardless.
            let ghost mut k: int = 0;
            proof {
                assert(self.backlog_view() == fl.skip(k)) by {
                    assert(q0.skip(start as int).skip(0) =~= q0.skip(start as int));
                }
                assert(fl.take(0) =~= Seq::<FrameView>::empty());
                assert(pushed0 + fl.take(k) =~= pushed0);
            }
            while self.backlog.len() > 0
                invariant
                    0 <= k <= fl.len(),
                    old(self).settings.open,
                    q0 == old(self).backlog_view(),
                    pushed0 == old(sink).pushed(),
                    self.settings == old(self).settings,
                    self.backlog_view() == fl.skip(k),
                    sink.pushed() == pushed0 + fl.take(k),
                    sink.forwarded_events() == old(sink).forwarded_events(),
                    fl == flush_frames(q0),
                    attempt == fl.push(frame@),
                decreases self.backlog.len(),
            {
                let ghost before = self.backlog@;
                proof {
                    lemma_frame_views_len(before);
                    assert(before.len() == fl.len() - k);
                }
                let f = self.backlog.remove(0);
                proof {
                    lemma_frame_views_index(before, 0);
                    assert(f@ == frame_views(before)[0]);
                    assert(frame_views(before)[0] == fl.skip(k)[0]);
                    assert(fl.skip(k)[0] == fl[k]);
                    lemma_frame_views_remove_head(before);
                    assert(self.backlog_view() == frame_views(before).drop_first());
                    assert(frame_views(before).drop_first() =~= fl.skip(k + 1));
                }
                match sink.push(f) {
                    Ok(_) => {
                        proof {
                            assert(sink.pushed() == pushed0 + fl.take(k + 1)) by {
                                assert(fl.take(k + 1) =~= fl.take(k).push(fl[k]));
                                assert((pushed0 + fl.take(k)).push(fl[k]) =~= pushed0 + fl.take(k).push(
                                    fl[k],
                                ));
                            }
                            k = k + 1;
                        }
                    },
                    Err(e) => {
                        self.backlog.clear();
                        proof {
                            assert(self.backlog_view() =~= Seq::<FrameView>::empty());
                            assert(attempt.take(k) =~= fl.take(k));
                            assert(sink.pushed() == pushed0 + attempt.take(k));
                            assert(0 <= k < attempt.len());
                        }
                        return Err(e);
                    },
                }
            }
            proof {
                assert(fl.skip(k).len() == 0);
                assert(k == fl.len());
                assert(fl.take(k) =~= fl);
                assert(self.backlog_view() =~= Seq::<FrameView>::empty());
            }

            // The backlog is drained; the live frame follows it.
            match sink.push(frame) {
                Ok(_) => {
                    proof {
                        assert(sink.pushed() == pushed0 + attempt) by {
                            assert((pushed0 + fl).push(frame@) =~= pushed0 + fl.push(frame@));
                        }
                    }
                    Ok(())
                },
                Err(e) => {
                    proof {
                        assert(attempt.take(fl.len() as int) =~= fl);
                        assert(sink.pushed() == pushed0 + attempt.take(fl.len() as int));
                        assert(0 <= fl.len() < attempt.len());
                    }
                    Err(e)
                },
            }
        } else {
            // Closed: buffer the frame, then age the head of the backlog
            // out of the history window, measured in stream time against
            // the timestamp just appended.
            let cur = frame.timestamp;
            let ghost fv = frame@;
            let max_ns = history_window_ns(self.settings.max_history);
            let ghost before_push = self.backlog@;
            self.backlog.push(frame);
            proof {
                lemma_frame_views_push(before_push, frame);
                assert(self.backlog_view() == q0.push(fv));
            }
            let ghost q1 = q0.push(fv);
            while self.backlog.len() > 0 && cur > self.backlog[0].timestamp && cur
                - self.backlog[0].timestamp > max_ns
                invariant
                    self.settings == old(self).settings,
                    max_ns == history_nanos(old(self).settings.max_history),
                    pruned(self.backlog_view(), cur, max_ns) == pruned(q1, cur, max_ns),
                    sink.pushed() == old(sink).pushed(),
                    sink.forwarded_events() == old(sink).forwarded_events(),
                decreases self.backlog.len(),
            {
                let ghost before = self.backlog@;
                let ghost bv = self.backlog_view();
                proof {
                    lemma_frame_views_len(before);
                    lemma_frame_views_index(before, 0);
                    assert(expired(cur, bv[0], max_ns));
                }
                self.backlog.remove(0);
                proof {
                    lemma_frame_views_remove_head(before);
                    assert(self.backlog_view() == bv.drop_first());
                    assert(pruned(bv, cur, max_ns) == pruned(bv.drop_first(), cur, max_ns));
                }
            }
            proof {
                let bv = self.backlog_view();
                lemma_frame_views_len(self.backlog@);
                if bv.len() > 0 {
                    lemma_frame_views_index(self.backlog@, 0);
                    assert(!expired(cur, bv[0], max_ns));
                }
                assert(pruned(bv, cur, max_ns) == bv);
            }
            Ok(())
        }
    }

    /// Takes delivery of one non-data signal and forwards it downstream
    /// unexamined; the backlog is not involved. The answer says whether
    /// the consumer took it.
    pub fn on_control_event<S: Downstream>(&self, event: ControlEvent, sink: &mut S) -> (r: bool)
        ensures
            final(sink).pushed() == old(sink).pushed(),
            r ==> final(sink).forwarded_events() == old(sink).forwarded_events().push(event@),
            !r ==> final(sink).forwarded_events() == old(sink).forwarded_events(),
    {
        sink.push_event(event)
    }
}

impl Default for PrerollValve {
    fn default() -> (v: PrerollValve)
        ensures
            v.settings == (Settings {
                open: DEFAULT_OPEN,
                max_history: DEFAULT_MAX_HISTORY_MS,
                debug: DEFAULT_DEBUG,
            }),
            v.backlog_view() == Seq::<FrameView>::empty(),
    {
        PrerollValve::new()
    }
}

} // verus!
