//! Cutting analysis windows out of a view of samples.
use vstd::prelude::*;

verus! {

/// What a working buffer of `len` samples holds once the window of `window` samples that
/// begins at index `start` of `signal` has been copied into it: the samples of the window as
/// far as `signal` reaches, then silence.
pub open spec fn chunk_filled(signal: Seq<u32>, start: int, window: int, len: nat) -> Seq<u32> {
    Seq::new(
        len,
        |i: int|
            if i < window && start + i < signal.len() {
                signal[start + i]
            } else {
                0u32
            },
    )
}

/// The number of samples of `signal` that lie in the window of `window` samples that begins
/// at index `start`.
pub open spec fn samples_in_window(signal_len: nat, start: int, window: int) -> int {
    if start >= signal_len {
        0
    } else if window <= signal_len - start {
        window
    } else {
        signal_len - start
    }
}

/// Copies the window of `window` samples that begins at `start` into the front of `output`
/// and silences the rest of `output`.  Where the window reaches past the end of `signal`, the
/// missing samples are silence too.  `output` must have room for the samples to copy.
pub fn fill_chunk(signal: &[u32], start: usize, window: usize, output: &mut Vec<u32>)
    requires
        samples_in_window(signal@.len(), start as int, window as int) <= old(output).len(),
    ensures
        final(output)@ == chunk_filled(signal@, start as int, window as int, old(output)@.len()),
{
    let start: usize = if signal.len() > start { start } else { signal.len() };
    let available: usize = signal.len() - start;
    let count: usize = if window <= available { window } else { available };
    let ghost len = output@.len();
    let ghost goal = chunk_filled(signal@, start as int, window as int, len);
    let mut i: usize = 0;
    while i < count
        invariant
            i <= count,
            count <= window,
            count <= signal.len() - start,
            count <= output.len(),
            output@.len() == len,
            goal == chunk_filled(signal@, start as int, window as int, len),
            forall|j: int| 0 <= j < i ==> output@[j] == goal[j],
        decreases count - i,
    {
        output.set(i, signal[start + i]);
        i += 1;
    }
    while i < output.len()
        invariant
            count <= i <= output.len(),
            start <= signal.len(),
            count == samples_in_window(signal@.len(), start as int, window as int),
            output@.len() == len,
            goal == chunk_filled(signal@, start as int, window as int, len),
            forall|j: int| 0 <= j < i ==> output@[j] == goal[j],
        decreases output.len() - i,
    {
        output.set(i, 0u32);
        i += 1;
    }
    assert(output@ =~= goal);
}

/// The number of windows that one batch analyses when `unprocessed` samples lie ahead of the
/// cursor: the windows are `hop` samples apart, and one that would end within a hop of the
/// end of the samples is left for a later batch.  No window is due while less than one window
/// lies ahead.
pub open spec fn windows_due(unprocessed: int, window: nat, hop: nat) -> nat {
    if unprocessed < window || hop == 0 {
        0
    } else {
        ((unprocessed - window) / (hop as int)) as nat
    }
}

/// Every window that is due lies within the samples ahead of the cursor, so none needs
/// silence added; and once the cursor has moved past them, no window is due any more.
pub proof fn lemma_windows_due(unprocessed: int, window: nat, hop: nat)
    ensures
        windows_due(unprocessed, window, hop) > 0 ==> windows_due(unprocessed, window, hop) * hop
            + window <= unprocessed,
        0 <= windows_due(unprocessed, window, hop) * hop,
        windows_due(unprocessed - windows_due(unprocessed, window, hop) * hop, window, hop) == 0,
{
    let due = windows_due(unprocessed, window, hop) as int;
    let step = hop as int;
    let spare = unprocessed - window;
    if unprocessed >= window && hop > 0 {
        assert(0 <= (spare / step) * step <= spare && spare - (spare / step) * step < step)
            by (nonlinear_arith)
            requires
                0 <= spare,
                0 < step,
        ;
        let rest = spare - due * step;
        assert(rest / step == 0) by (nonlinear_arith)
            requires
                0 <= rest < step,
        ;
    } else {
        assert(due * step == 0) by (nonlinear_arith)
            requires
                due == 0,
        ;
    }
}

/// The part of a view that lies ahead of the cursor: where it begins in the stream, and how
/// many samples it has.
#[derive(Clone, Copy, Debug, PartialEq, Eq, Structural)]
pub struct UnprocessedRegion {
    pub start: usize,
    pub len: usize,
}

impl UnprocessedRegion {
    /// The region ahead of `cursor` in a view of `view_len` samples that begins at
    /// `view_start`; none where the cursor lies beyond the end of the view.
    pub fn of_view(view_start: usize, view_len: usize, cursor: usize) -> (region: Option<
        UnprocessedRegion,
    >)
        requires
            view_start <= cursor,
        ensures
            region == (if view_len >= cursor - view_start {
                Some(
                    UnprocessedRegion {
                        start: cursor,
                        len: (view_len - (cursor - view_start)) as usize,
                    },
                )
            } else {
                None
            }),
    {
        let index: usize = cursor - view_start;
        if view_len >= index {
            Some(UnprocessedRegion { start: cursor, len: view_len - index })
        } else {
            None
        }
    }

    /// Whether a batch over this region is defined: its windows advance, or none is due.
    pub open spec fn can_advance(&self, window: usize, hop: usize) -> bool {
        hop > 0 || self.len < window
    }

    /// The number of windows that a batch over this region analyses.
    pub fn num_windows(&self, window: usize, hop: usize) -> (count: usize)
        requires
            self.can_advance(window, hop),
        ensures
            count == windows_due(self.len as int, window as nat, hop as nat),
    {
        if self.len < window {
            0
        } else {
            (self.len - window) / hop
        }
    }
}

} // verus!
