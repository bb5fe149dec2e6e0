//! `UsdSkelAnimation` decode types: joint and blend-shape tracks, each a list
//! of frames in ascending time without two of the same time.

use crate::float::{is_nan64, less64, rank64};
use vstd::prelude::*;

verus! {

/// The values at one time code, the bits of a double.
#[derive(Debug)]
pub struct Frame<E> {
    pub time: u64,
    pub items: Vec<E>,
}

/// A frame, with its values as a sequence.
#[verifier::ext_equal]
pub struct FrameView<E> {
    pub time: u64,
    pub items: Seq<E>,
}

impl<E> View for Frame<E> {
    type V = FrameView<E>;

    open spec fn view(&self) -> FrameView<E> {
        FrameView { time: self.time, items: self.items@ }
    }
}

/// A track, with its values as sequences.
pub open spec fn frame_views<E>(track: Seq<Frame<E>>) -> Seq<FrameView<E>> {
    track.map_values(|f: Frame<E>| f@)
}

/// The frames are in strictly ascending time.
pub open spec fn ascends<E>(track: Seq<FrameView<E>>) -> bool {
    forall|i: int, j: int|
        0 <= i < j < track.len() ==> rank64((#[trigger] track[i]).time) < rank64(
            (#[trigger] track[j]).time,
        )
}

/// `track` with the values at `time`; values that were there before go, but
/// the time stays as it was written first.
pub open spec fn with_frame<E>(track: Seq<FrameView<E>>, time: u64, items: Seq<E>) -> Seq<
    FrameView<E>,
>
    decreases track.len(),
{
    if track.len() == 0 {
        seq![FrameView { time, items }]
    } else if rank64(track.last().time) < rank64(time) {
        track.push(FrameView { time, items })
    } else if rank64(track.last().time) == rank64(time) {
        track.drop_last().push(FrameView { time: track.last().time, items })
    } else {
        with_frame(track.drop_last(), time, items).push(track.last())
    }
}

/// No time code is a NaN.
pub open spec fn ordered_times<E>(track: Seq<FrameView<E>>) -> bool {
    forall|i: int| 0 <= i < track.len() ==> !is_nan64((#[trigger] track[i]).time)
}

/// Puts values at a time into a track.
pub fn insert_frame<E>(track: &mut Vec<Frame<E>>, time: u64, items: Vec<E>)
    requires
        !is_nan64(time),
        ordered_times(frame_views(old(track)@)),
    ensures
        frame_views(final(track)@) == with_frame(frame_views(old(track)@), time, items@),
        ordered_times(frame_views(final(track)@)),
{
    let n: usize = track.len();
    let mut i: usize = n;
    let ghost all = frame_views(track@);
    let ghost values = items@;
    assert(all.take(n as int) =~= all);
    assert(with_frame(all, time, values) =~= with_frame(all.take(n as int), time, values)
        + all.skip(n as int));
    while i > 0 && less64(time, track[i - 1].time)
        invariant
            n == track@.len(),
            i <= n,
            all == frame_views(track@),
            values == items@,
            !is_nan64(time),
            ordered_times(all),
            with_frame(all, time, values) == with_frame(all.take(i as int), time, values)
                + all.skip(i as int),
        decreases i,
    {
        assert(all.take(i as int).last() == all[i - 1]);
        assert(all[i - 1] == track@[i - 1]@);
        assert(!is_nan64(all[i - 1].time));
        assert(all.take(i as int).drop_last() =~= all.take(i - 1));
        assert(with_frame(all.take(i - 1), time, values).push(all[i - 1]) + all.skip(i as int)
            =~= with_frame(all.take(i - 1), time, values) + all.skip(i - 1));
        i = i - 1;
    }
    if i > 0 && !less64(track[i - 1].time, time) {
        assert(all[i - 1] == track@[i - 1]@);
        assert(!is_nan64(all[i - 1].time));
        assert(all.take(i as int).last() == all[i - 1]);
        let kept: u64 = track[i - 1].time;
        track[i - 1].items = items;
        assert(frame_views(track@) =~= all.take(i as int).drop_last().push(
            FrameView { time: kept, items: values },
        ) + all.skip(i as int));
    } else {
        assert(i > 0 ==> all.take(i as int).last() == all[i - 1]);
        assert(i > 0 ==> all[i - 1] == track@[i - 1]@);
        track.insert(i, Frame { time, items });
        assert(frame_views(track@) =~= all.take(i as int).push(FrameView { time, items: values })
            + all.skip(i as int));
    }
    assert forall|k: int| 0 <= k < frame_views(track@).len() implies !is_nan64(
        (#[trigger] frame_views(track@)[k]).time,
    ) by {
        if k < i {
            assert(!is_nan64(all[k].time));
        } else if frame_views(track@).len() == all.len() {
            assert(!is_nan64(all[k].time));
        } else if k > i {
            assert(!is_nan64(all[k - 1].time));
        }
    }
}

/// Putting values into a track keeps it in strictly ascending time, and the
/// track then has the values at that time.
pub proof fn frames_stay_ascending<E>(track: Seq<FrameView<E>>, time: u64, items: Seq<E>)
    requires
        ascends(track),
    ensures
        ascends(with_frame(track, time, items)),
        forall|i: int|
            0 <= i < with_frame(track, time, items).len() ==> (rank64(
                (#[trigger] with_frame(track, time, items)[i]).time,
            ) == rank64(time) ==> with_frame(track, time, items)[i].items == items) && (rank64(
                with_frame(track, time, items)[i].time,
            ) == rank64(time) || exists|k: int|
                0 <= k < track.len() && track[k] == with_frame(track, time, items)[i]),
        exists|i: int|
            0 <= i < with_frame(track, time, items).len() && rank64(
                (#[trigger] with_frame(track, time, items)[i]).time,
            ) == rank64(time),
    decreases track.len(),
{
    let out = with_frame(track, time, items);
    if track.len() == 0 {
        assert(rank64(out[0].time) == rank64(time));
    } else if rank64(track.last().time) < rank64(time) {
        assert(rank64(out[track.len() as int].time) == rank64(time));
        assert forall|i: int| 0 <= i < track.len() implies rank64((#[trigger] out[i]).time)
            < rank64(time) by {
            if i < track.len() - 1 {
                assert(rank64(track[i].time) < rank64(track[track.len() - 1].time));
            }
            assert(track[i] == out[i]);
        }
    } else if rank64(track.last().time) == rank64(time) {
        let last = track.len() - 1;
        assert(rank64(out[last].time) == rank64(time));
        assert forall|i: int, j: int| 0 <= i < j < out.len() implies rank64(
            (#[trigger] out[i]).time,
        ) < rank64((#[trigger] out[j]).time) by {
            assert(rank64(track[i].time) < rank64(track[j].time));
        }
        assert forall|i: int| 0 <= i < last implies track[i] == #[trigger] out[i] by {}
        assert forall|i: int| 0 <= i < last implies rank64((#[trigger] out[i]).time) != rank64(
            time,
        ) by {
            assert(rank64(track[i].time) < rank64(track[last].time));
        }
    } else {
        let front = track.drop_last();
        assert(ascends(front)) by {
            assert forall|i: int, j: int| 0 <= i < j < front.len() implies rank64(
                (#[trigger] front[i]).time,
            ) < rank64((#[trigger] front[j]).time) by {
                assert(rank64(track[i].time) < rank64(track[j].time));
            }
        }
        frames_stay_ascending(front, time, items);
        let inner = with_frame(front, time, items);
        let last = track.len() - 1;
        assert forall|i: int| 0 <= i < inner.len() implies rank64((#[trigger] inner[i]).time)
            < rank64(track.last().time) by {
            if rank64(inner[i].time) != rank64(time) {
                let k = choose|k: int| 0 <= k < front.len() && front[k] == inner[i];
                assert(rank64(track[k].time) < rank64(track[last].time));
            }
        }
        assert(out[inner.len() as int] == track[last]);
        assert forall|i: int| 0 <= i < out.len() implies (rank64((#[trigger] out[i]).time)
            == rank64(time) ==> out[i].items == items) && (rank64(out[i].time) == rank64(time)
            || exists|k: int| 0 <= k < track.len() && track[k] == out[i]) by {
            if i < inner.len() {
                assert(out[i] == inner[i]);
                if rank64(inner[i].time) != rank64(time) {
                    let k = choose|k: int| 0 <= k < front.len() && front[k] == inner[i];
                    assert(track[k] == out[i]);
                }
            } else {
                assert(track[last] == out[i]);
            }
        }
        let w = choose|i: int|
            0 <= i < inner.len() && rank64((#[trigger] inner[i]).time) == rank64(time);
        assert(out[w] == inner[w]);
    }
}

/// Decoded `UsdSkelAnimation`: per-joint translation, rotation and scale
/// tracks and blend-shape weights by time code.
#[derive(Debug)]
pub struct ReadSkelAnimText {
    pub prim_name: String,
    pub joints: Vec<String>,
    pub blend_shapes: Vec<String>,
    pub translations: Vec<Frame<crate::stage::Triple>>,
    pub rotations: Vec<Frame<crate::stage::Quad>>,
    pub scales: Vec<Frame<crate::stage::Triple>>,
    pub blend_shape_weights: Vec<Frame<u32>>,
}

} // verus!
