//! From the estimator's answers to pitches: which answers are reported, at which time, and
//! which of them begin a note.
use crate::estimator::Estimate;
use crate::pitch_detector::Pitch;
use vstd::prelude::*;

verus! {

/// What one analysed window contributes, given the frequency of the window before it if that
/// one held a confident pitch: the pitch to report, if any, and the frequency to remember for
/// the next window.  A confident estimate is an onset exactly when the window before held
/// none.
pub open spec fn classified(previous: Option<u32>, t: usize, estimate: Option<Estimate>) -> (
    Option<Pitch>,
    Option<u32>,
) {
    match estimate {
        Some(found) => (
            Some(
                Pitch {
                    t,
                    frequency_bits: found.frequency_bits,
                    clarity_bits: found.clarity_bits,
                    onset: previous is None,
                },
            ),
            Some(found.frequency_bits),
        ),
        None => (None, None),
    }
}

/// Turns the estimator's answer for one window into the pitch to report and the frequency to
/// remember.
pub fn classify(previous: Option<u32>, t: usize, estimate: Option<Estimate>) -> (step: (
    Option<Pitch>,
    Option<u32>,
))
    ensures
        step == classified(previous, t, estimate),
{
    match estimate {
        Some(found) => {
            let onset = match previous {
                Some(_) => false,
                None => true,
            };
            (
                Some(
                    Pitch {
                        t,
                        frequency_bits: found.frequency_bits,
                        clarity_bits: found.clarity_bits,
                        onset,
                    },
                ),
                Some(found.frequency_bits),
            )
        },
        None => (None, None),
    }
}

/// The time reported for window number `i` of a batch that began with the cursor at
/// `cursor`: the absolute time at which the window begins, `i` hops after the cursor.
pub open spec fn pitch_time(cursor: int, hop: int, i: int) -> int {
    cursor + i * hop
}

/// The frequency remembered when window number `i` of a batch is analysed: that of the
/// window just before it, if that one held a confident pitch.  Before the first window it is
/// `last`, what was remembered when the batch began.
pub open spec fn previous_of(last: Option<u32>, outcomes: Seq<Option<Estimate>>, i: int) -> Option<
    u32,
> {
    if i <= 0 {
        last
    } else {
        match outcomes[i - 1] {
            Some(found) => Some(found.frequency_bits),
            None => None,
        }
    }
}

/// The frequency remembered after a batch of windows with the given answers.
pub open spec fn last_after(last: Option<u32>, outcomes: Seq<Option<Estimate>>) -> Option<u32> {
    previous_of(last, outcomes, outcomes.len() as int)
}

/// The pitch reported for window number `i` of a batch, if any.
pub open spec fn window_pitch(
    cursor: int,
    hop: int,
    last: Option<u32>,
    outcomes: Seq<Option<Estimate>>,
    i: int,
) -> Option<Pitch> {
    classified(previous_of(last, outcomes, i), pitch_time(cursor, hop, i) as usize, outcomes[i]).0
}

/// The pitches reported for a batch of windows with the given answers: those of
/// [`window_pitch`], in window order.
pub open spec fn emitted(
    cursor: int,
    hop: int,
    last: Option<u32>,
    outcomes: Seq<Option<Estimate>>,
) -> Seq<Pitch>
    decreases outcomes.len(),
{
    if outcomes.len() == 0 {
        Seq::empty()
    } else {
        let earlier = emitted(cursor, hop, last, outcomes.drop_last());
        match window_pitch(cursor, hop, last, outcomes, outcomes.len() - 1) {
            Some(pitch) => earlier.push(pitch),
            None => earlier,
        }
    }
}

/// A confident window is reported as an onset exactly when the window before it held no
/// confident pitch; for the first window of a batch, when none was remembered.  A window
/// without a confident pitch is not reported.
pub proof fn lemma_onset_follows_silence(
    cursor: int,
    hop: int,
    last: Option<u32>,
    outcomes: Seq<Option<Estimate>>,
    i: int,
)
    requires
        0 <= i < outcomes.len(),
    ensures
        outcomes[i] is None <==> window_pitch(cursor, hop, last, outcomes, i) is None,
        outcomes[i] is Some && i == 0 ==> window_pitch(
            cursor,
            hop,
            last,
            outcomes,
            i,
        ).unwrap().onset == (last is None),
        outcomes[i] is Some && i > 0 ==> window_pitch(
            cursor,
            hop,
            last,
            outcomes,
            i,
        ).unwrap().onset == (outcomes[i - 1] is None),
{
}

/// The pitches of a batch are a prefix-closed account: what is reported for the first
/// windows of a batch does not depend on the answers for the later ones.
proof fn lemma_window_pitch_of_prefix(
    cursor: int,
    hop: int,
    last: Option<u32>,
    outcomes: Seq<Option<Estimate>>,
    i: int,
)
    requires
        0 <= i < outcomes.len() - 1,
    ensures
        window_pitch(cursor, hop, last, outcomes.drop_last(), i) == window_pitch(
            cursor,
            hop,
            last,
            outcomes,
            i,
        ),
{
}

/// Every pitch reported for a batch is the pitch of one of its windows, and later pitches
/// belong to later windows.
pub proof fn lemma_emitted_in_window_order(
    cursor: int,
    hop: int,
    last: Option<u32>,
    outcomes: Seq<Option<Estimate>>,
) -> (windows: Seq<int>)
    ensures
        windows.len() == emitted(cursor, hop, last, outcomes).len(),
        windows.len() <= outcomes.len(),
        forall|k: int|
            0 <= k < windows.len() ==> 0 <= #[trigger] windows[k] < outcomes.len() && window_pitch(
                cursor,
                hop,
                last,
                outcomes,
                windows[k],
            ) == Some(emitted(cursor, hop, last, outcomes)[k]),
        forall|j: int, k: int| 0 <= j < k < windows.len() ==> windows[j] < windows[k],
        forall|i: int|
            0 <= i < outcomes.len() && outcomes[i] is Some ==> exists|k: int|
                0 <= k < windows.len() && windows[k] == i,
    decreases outcomes.len(),
{
    if outcomes.len() == 0 {
        Seq::empty()
    } else {
        let shorter = outcomes.drop_last();
        let earlier = lemma_emitted_in_window_order(cursor, hop, last, shorter);
        let newest = outcomes.len() - 1;
        assert forall|k: int| 0 <= k < earlier.len() implies window_pitch(
            cursor,
            hop,
            last,
            outcomes,
            #[trigger] earlier[k],
        ) == Some(emitted(cursor, hop, last, shorter)[k]) by {
            lemma_window_pitch_of_prefix(cursor, hop, last, outcomes, earlier[k]);
        }
        let windows = if outcomes[newest] is Some {
            earlier.push(newest)
        } else {
            earlier
        };
        assert forall|i: int| 0 <= i < outcomes.len() && outcomes[i] is Some implies exists|k: int|
            0 <= k < windows.len() && windows[k] == i by {
            if i < newest {
                assert(shorter[i] is Some);
                let k = choose|k: int| 0 <= k < earlier.len() && earlier[k] == i;
                assert(windows[k] == i);
            } else {
                assert(windows[windows.len() - 1] == i);
            }
        }
        windows
    }
}

/// Where the estimator is confident of every window of a batch, every window is reported:
/// there are as many pitches as windows, and their times begin at the cursor and are one hop
/// apart.
pub proof fn lemma_all_confident(
    cursor: int,
    hop: int,
    last: Option<u32>,
    outcomes: Seq<Option<Estimate>>,
)
    requires
        forall|i: int| 0 <= i < outcomes.len() ==> outcomes[i] is Some,
    ensures
        emitted(cursor, hop, last, outcomes).len() == outcomes.len(),
        forall|i: int|
            0 <= i < outcomes.len() ==> Some(#[trigger] emitted(cursor, hop, last, outcomes)[i])
                == window_pitch(cursor, hop, last, outcomes, i),
        pitch_time(cursor, hop, 0) == cursor,
        forall|i: int|
            0 <= i < outcomes.len() ==> #[trigger] pitch_time(cursor, hop, i + 1) == pitch_time(
                cursor,
                hop,
                i,
            ) + hop,
    decreases outcomes.len(),
{
    if outcomes.len() > 0 {
        let shorter = outcomes.drop_last();
        lemma_all_confident(cursor, hop, last, shorter);
        assert forall|i: int| 0 <= i < outcomes.len() implies Some(
            #[trigger] emitted(cursor, hop, last, outcomes)[i],
        ) == window_pitch(cursor, hop, last, outcomes, i) by {
            if i < outcomes.len() - 1 {
                lemma_window_pitch_of_prefix(cursor, hop, last, outcomes, i);
            }
        }
    }
    assert(0 * hop == 0) by (nonlinear_arith);
    assert forall|i: int| 0 <= i < outcomes.len() implies #[trigger] pitch_time(cursor, hop, i + 1)
        == pitch_time(cursor, hop, i) + hop by {
        assert((i + 1) * hop == i * hop + hop) by (nonlinear_arith);
    }
}

/// The times of the pitches of a batch increase strictly, as long as they fit the machine's
/// integers.
pub proof fn lemma_times_increase(
    cursor: int,
    hop: int,
    last: Option<u32>,
    outcomes: Seq<Option<Estimate>>,
)
    requires
        0 <= cursor,
        0 < hop,
        pitch_time(cursor, hop, outcomes.len() as int) <= usize::MAX,
    ensures
        forall|j: int, k: int|
            0 <= j < k < emitted(cursor, hop, last, outcomes).len() ==> emitted(
                cursor,
                hop,
                last,
                outcomes,
            )[j].t < emitted(cursor, hop, last, outcomes)[k].t,
{
    let windows = lemma_emitted_in_window_order(cursor, hop, last, outcomes);
    let pitches = emitted(cursor, hop, last, outcomes);
    assert forall|j: int, k: int| 0 <= j < k < pitches.len() implies pitches[j].t
        < pitches[k].t by {
        let a = windows[j];
        let b = windows[k];
        let n = outcomes.len() as int;
        assert(0 <= pitch_time(cursor, hop, a) < pitch_time(cursor, hop, b) <= pitch_time(
            cursor,
            hop,
            n,
        )) by (nonlinear_arith)
            requires
                0 <= a < b < n,
                0 <= cursor,
                0 < hop,
        ;
    }
}

/// The first pitch that a detector ever reports begins a note: with nothing remembered, the
/// first pitch of a batch is an onset.
pub proof fn lemma_first_pitch_is_onset(
    cursor: int,
    hop: int,
    outcomes: Seq<Option<Estimate>>,
)
    requires
        emitted(cursor, hop, None, outcomes).len() > 0,
    ensures
        emitted(cursor, hop, None, outcomes)[0].onset,
    decreases outcomes.len(),
{
    let shorter = outcomes.drop_last();
    if emitted(cursor, hop, None, shorter).len() > 0 {
        lemma_first_pitch_is_onset(cursor, hop, shorter);
    } else {
        let windows = lemma_emitted_in_window_order(cursor, hop, None, shorter);
        let newest = outcomes.len() - 1;
        if newest > 0 && shorter[newest - 1] is Some {
            let k = choose|k: int| 0 <= k < windows.len() && windows[k] == newest - 1;
        }
    }
}

} // verus!
