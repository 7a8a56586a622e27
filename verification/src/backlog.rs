//! The mathematical model of the backlog: pruning by stream-time age, and
//! the keyframe-aware choice of the range a flush forwards.

use vstd::prelude::*;

use crate::frame::FrameView;

verus! {

/// Timestamps never decrease along the queue, the shape a well-behaved
/// upstream produces.
pub open spec fn monotone(q: Seq<FrameView>) -> bool {
    forall|i: int, j: int| 0 <= i <= j < q.len() ==> q[i].timestamp <= q[j].timestamp
}

/// A queued frame is expired once it is strictly older than the newest
/// timestamp by more than the history window. A frame at or ahead of the
/// newest timestamp is never expired, so out-of-order input is left alone
/// rather than mishandled.
pub open spec fn expired(cur: u64, f: FrameView, max_ns: u64) -> bool {
    cur > f.timestamp && cur - f.timestamp > max_ns
}

/// The backlog after pruning: expired frames are removed from the head,
/// stopping at the first frame that is not expired.
pub open spec fn pruned(q: Seq<FrameView>, cur: u64, max_ns: u64) -> Seq<FrameView>
    decreases q.len(),
{
    if q.len() > 0 && expired(cur, q[0], max_ns) {
        pruned(q.drop_first(), cur, max_ns)
    } else {
        q
    }
}

/// Whether any queued frame is a keyframe.
pub open spec fn has_keyframe(q: Seq<FrameView>) -> bool {
    exists|i: int| 0 <= i < q.len() && q[i].is_keyframe
}

/// The index of the first keyframe; meaningful only when one exists.
pub open spec fn first_keyframe(q: Seq<FrameView>) -> int
    decreases q.len(),
{
    if q.len() == 0 {
        0
    } else if q[0].is_keyframe {
        0
    } else {
        1 + first_keyframe(q.drop_first())
    }
}

/// Where a flush starts: at the first keyframe, so that a decoder joining
/// the stream can decode from the first forwarded frame; or, when the
/// backlog holds no keyframe, degraded from the very start rather than
/// dropping everything.
pub open spec fn flush_start(q: Seq<FrameView>) -> int {
    if has_keyframe(q) {
        first_keyframe(q)
    } else {
        0
    }
}

/// The frames a flush forwards, in their original order.
pub open spec fn flush_frames(q: Seq<FrameView>) -> Seq<FrameView> {
    q.skip(flush_start(q))
}

/// The history window in nanoseconds, from its configured value in
/// milliseconds. A window too large for the nanosecond scale saturates,
/// which simply means no frame ever expires under it.
pub open spec fn history_nanos(ms: u64) -> u64 {
    if ms > u64::MAX / 1_000_000 {
        u64::MAX
    } else {
        (ms * 1_000_000) as u64
    }
}

/// Law: the first keyframe is a keyframe, and nothing before it is one.
pub proof fn lemma_first_keyframe_is_first(q: Seq<FrameView>)
    requires
        has_keyframe(q),
    ensures
        0 <= first_keyframe(q) < q.len(),
        q[first_keyframe(q)].is_keyframe,
        forall|i: int| 0 <= i < first_keyframe(q) ==> !q[i].is_keyframe,
    decreases q.len(),
{
    if q[0].is_keyframe {
    } else {
        let sub = q.drop_first();
        let w = choose|i: int| 0 <= i < q.len() && q[i].is_keyframe;
        assert(sub[w - 1] == q[w]);
        assert(has_keyframe(sub));
        lemma_first_keyframe_is_first(sub);
        let k = first_keyframe(sub);
        assert(q[1 + k] == sub[k]);
        assert forall|i: int| 0 <= i < 1 + k implies !q[i].is_keyframe by {
            if i > 0 {
                assert(sub[i - 1] == q[i]);
            }
        }
    }
}

/// Law: a backlog without a keyframe is flushed whole, in order.
pub proof fn lemma_degraded_flush_keeps_all(q: Seq<FrameView>)
    requires
        !has_keyframe(q),
    ensures
        flush_frames(q) == q,
{
    assert(flush_frames(q) =~= q);
}

/// Law: opening on an empty backlog flushes nothing, so only the live
/// frame goes downstream.
pub proof fn lemma_pass_through_when_empty(f: FrameView)
    ensures
        flush_frames(Seq::<FrameView>::empty()).push(f) == seq![f],
{
    assert(flush_frames(Seq::<FrameView>::empty()).push(f) =~= seq![f]);
}

/// Law: a flush is atomic with respect to the live frame that triggered
/// it: in the forwarded sequence, the live frame stands strictly after
/// the whole flushed range and is never interleaved into it.
pub proof fn lemma_live_frame_after_flush(p: Seq<FrameView>, q: Seq<FrameView>, f: FrameView)
    ensures
        (p + flush_frames(q).push(f)).len() == p.len() + flush_frames(q).len() + 1,
        (p + flush_frames(q).push(f)).last() == f,
        (p + flush_frames(q).push(f)).take(p.len() + flush_frames(q).len() as int) == p
            + flush_frames(q),
{
    assert((p + flush_frames(q).push(f)).take(p.len() + flush_frames(q).len() as int) =~= p
        + flush_frames(q));
}

/// Law: pruning only ever removes a prefix; what remains is a suffix of
/// the queue, in its original order.
pub proof fn lemma_pruned_is_suffix(q: Seq<FrameView>, cur: u64, max_ns: u64)
    ensures
        exists|k: int|
            0 <= k <= q.len() && pruned(q, cur, max_ns) == q.skip(k),
    decreases q.len(),
{
    if q.len() > 0 && expired(cur, q[0], max_ns) {
        let sub = q.drop_first();
        lemma_pruned_is_suffix(sub, cur, max_ns);
        let k = choose|k: int| 0 <= k <= sub.len() && pruned(sub, cur, max_ns) == sub.skip(k);
        assert(sub.skip(k) =~= q.skip(k + 1));
        assert(pruned(q, cur, max_ns) == q.skip(k + 1));
    } else {
        assert(q.skip(0) =~= q);
        assert(pruned(q, cur, max_ns) == q.skip(0));
    }
}

/// Law: when the head of the queue is not expired, pruning removes
/// nothing at all.
pub proof fn lemma_pruned_noop(q: Seq<FrameView>, cur: u64, max_ns: u64)
    requires
        q.len() > 0 ==> !expired(cur, q[0], max_ns),
    ensures
        pruned(q, cur, max_ns) == q,
{
}

/// Law: the newest frame survives pruning; a frame is never pruned by
/// itself.
pub proof fn lemma_pruned_keeps_newest(q: Seq<FrameView>, max_ns: u64)
    requires
        q.len() > 0,
    ensures
        pruned(q, q.last().timestamp, max_ns).len() >= 1,
        pruned(q, q.last().timestamp, max_ns).last() == q.last(),
    decreases q.len(),
{
    let cur = q.last().timestamp;
    if expired(cur, q[0], max_ns) {
        let sub = q.drop_first();
        assert(q.len() >= 2) by {
            if q.len() == 1 {
                assert(q[0] == q.last());
            }
        }
        assert(sub.last() == q.last());
        lemma_pruned_keeps_newest(sub, max_ns);
    }
}

/// Law: after a run of closed-mode arrivals with non-decreasing
/// timestamps, every frame still queued is within the history window of
/// the newest timestamp.
pub proof fn lemma_pruned_history_bound(q: Seq<FrameView>, cur: u64, max_ns: u64)
    requires
        monotone(q),
        q.len() > 0,
        cur == q.last().timestamp,
    ensures
        forall|i: int|
            0 <= i < pruned(q, cur, max_ns).len()
                ==> cur - #[trigger] pruned(q, cur, max_ns)[i].timestamp <= max_ns,
    decreases q.len(),
{
    if expired(cur, q[0], max_ns) {
        let sub = q.drop_first();
        assert(q.len() >= 2) by {
            if q.len() == 1 {
                assert(q[0] == q.last());
            }
        }
        assert(sub.last() == q.last());
        assert(monotone(sub)) by {
            assert forall|i: int, j: int| 0 <= i <= j < sub.len()
                implies sub[i].timestamp <= sub[j].timestamp by {
                assert(sub[i] == q[i + 1]);
                assert(sub[j] == q[j + 1]);
            }
        }
        lemma_pruned_history_bound(sub, cur, max_ns);
        assert(pruned(q, cur, max_ns) == pruned(sub, cur, max_ns));
        assert forall|i: int| 0 <= i < pruned(q, cur, max_ns).len()
            implies cur - #[trigger] pruned(q, cur, max_ns)[i].timestamp <= max_ns by {
            assert(cur - pruned(sub, cur, max_ns)[i].timestamp <= max_ns);
        }
    } else {
        let r = pruned(q, cur, max_ns);
        assert(r == q);
        assert forall|i: int| 0 <= i < r.len() implies cur - #[trigger] r[i].timestamp <= max_ns
            by {
            assert(q[0].timestamp <= q[i].timestamp);
            assert(q[i].timestamp <= q[q.len() - 1].timestamp);
        }
    }
}

/// Law: one closed-mode arrival, taken in timestamp order, keeps the
/// backlog monotone, never prunes the frame just appended, and leaves
/// every retained frame within the history window of the newest
/// timestamp. Applied arrival by arrival, this gives the bound after any
/// run of closed-mode arrivals whose timestamps do not decrease.
pub proof fn lemma_closed_arrival_keeps_history_bound(q: Seq<FrameView>, f: FrameView, max_ns: u64)
    requires
        monotone(q),
        q.len() > 0 ==> q.last().timestamp <= f.timestamp,
    ensures
        monotone(pruned(q.push(f), f.timestamp, max_ns)),
        pruned(q.push(f), f.timestamp, max_ns).len() >= 1,
        pruned(q.push(f), f.timestamp, max_ns).last() == f,
        forall|i: int|
            0 <= i < pruned(q.push(f), f.timestamp, max_ns).len()
                ==> f.timestamp - #[trigger] pruned(q.push(f), f.timestamp, max_ns)[i].timestamp
                <= max_ns,
{
    let q1 = q.push(f);
    assert(monotone(q1)) by {
        assert forall|i: int, j: int| 0 <= i <= j < q1.len()
            implies q1[i].timestamp <= q1[j].timestamp by {
            if j < q.len() {
                assert(q1[i] == q[i]);
                assert(q1[j] == q[j]);
            } else if i < q.len() {
                assert(q1[i] == q[i]);
                assert(q[i].timestamp <= q[q.len() - 1].timestamp);
            }
        }
    }
    assert(q1.last() == f);
    lemma_pruned_monotone(q1, f.timestamp, max_ns);
    lemma_pruned_keeps_newest(q1, max_ns);
    lemma_pruned_history_bound(q1, f.timestamp, max_ns);
}

/// Law: pruning keeps timestamps non-decreasing.
pub proof fn lemma_pruned_monotone(q: Seq<FrameView>, cur: u64, max_ns: u64)
    requires
        monotone(q),
    ensures
        monotone(pruned(q, cur, max_ns)),
{
    lemma_pruned_is_suffix(q, cur, max_ns);
    let k = choose|k: int| 0 <= k <= q.len() && pruned(q, cur, max_ns) == q.skip(k);
    let r = q.skip(k);
    assert forall|i: int, j: int| 0 <= i <= j < r.len()
        implies r[i].timestamp <= r[j].timestamp by {
        assert(r[i] == q[i + k]);
        assert(r[j] == q[j + k]);
    }
}

} // verus!
