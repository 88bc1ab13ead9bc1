//! The bounded ring used for per-metric history: a front-insert,
//! back-eviction sliding window over a double-ended queue.

use vstd::prelude::*;
use std::collections::VecDeque;

verus! {

/// What one ring insertion does: prepend the new element, evicting the oldest
/// element first when the ring already holds `max` elements or more.
pub open spec fn shift_spec<T>(h: Seq<T>, x: T, max: nat) -> Seq<T> {
    if h.len() < max {
        seq![x] + h
    } else if h.len() == 0 {
        seq![x]
    } else {
        seq![x] + h.drop_last()
    }
}

/// Inserts `new_element` at the front of `data`; when `data` already holds
/// `max_size` elements or more, the element at the back is evicted first.
pub fn vec_shift<T>(data: &mut VecDeque<T>, new_element: T, max_size: usize)
    ensures
        final(data)@ == shift_spec(old(data)@, new_element, max_size as nat),
{
    if data.len() < max_size {
        data.push_front(new_element);
    } else {
        let _ = data.pop_back();
        data.push_front(new_element);
        proof {
            if old(data)@.len() > 0 {
                assert(old(data)@.subrange(0, old(data)@.len() - 1) =~= old(data)@.drop_last());
            }
        }
    }
}

/// The result of inserting the elements of `xs`, in order, into a ring that
/// starts as `h`.
pub open spec fn shift_all<T>(h: Seq<T>, xs: Seq<T>, max: nat) -> Seq<T>
    decreases xs.len(),
{
    if xs.len() == 0 {
        h
    } else {
        shift_all(shift_spec(h, xs[0], max), xs.skip(1), max)
    }
}

/// How a sequence of ring insertions unfolds: the ring never grows past
/// `max`, and afterwards it holds the most recent insertions first, then
/// whatever survives of the original content.
pub proof fn lemma_shift_all<T>(h: Seq<T>, xs: Seq<T>, max: nat)
    requires
        max >= 1,
        h.len() <= max,
    ensures
        shift_all(h, xs, max).len() == if h.len() + xs.len() < max {
            (h.len() + xs.len()) as int
        } else {
            max as int
        },
        forall|i: int|
            0 <= i < shift_all(h, xs, max).len() ==> shift_all(h, xs, max)[i] == (if i < xs.len() {
                xs[xs.len() - 1 - i]
            } else {
                h[i - xs.len()]
            }),
    decreases xs.len(),
{
    if xs.len() == 0 {
    } else {
        let h2 = shift_spec(h, xs[0], max);
        assert(h2.len() <= max);
        lemma_shift_all(h2, xs.skip(1), max);
        assert forall|i: int| 0 <= i < shift_all(h, xs, max).len() implies shift_all(h, xs, max)[i]
            == (if i < xs.len() {
            xs[xs.len() - 1 - i]
        } else {
            h[i - xs.len()]
        }) by {
            let ys = xs.skip(1);
            assert(shift_all(h, xs, max) == shift_all(h2, ys, max));
            if i < ys.len() {
                assert(ys[ys.len() - 1 - i] == xs[xs.len() - 1 - i]);
            } else {
                assert(shift_all(h2, ys, max)[i] == h2[i - ys.len()]);
            }
        }
    }
}

/// Law (ring bound): after at least `max` insertions into a ring of bound
/// `max >= 1` that started within bound, the ring holds exactly `max`
/// elements: the `max` most recent insertions in reverse-chronological order.
pub proof fn lemma_ring_bound<T>(h: Seq<T>, xs: Seq<T>, max: nat)
    requires
        max >= 1,
        h.len() <= max,
        xs.len() >= max,
    ensures
        shift_all(h, xs, max).len() == max,
        forall|i: int| 0 <= i < max ==> shift_all(h, xs, max)[i] == xs[xs.len() - 1 - i],
{
    lemma_shift_all(h, xs, max);
}

} // verus!
