//! The streaming pitch detector: windows over a view of samples, each analysed once.
use crate::error::AnalyzerError;
use crate::estimator::{kind_named, Estimate, EstimatorKind, PitchEstimator};
use crate::onset::{
    classify, emitted, last_after, lemma_all_confident, lemma_emitted_in_window_order,
    lemma_first_pitch_is_onset, lemma_times_increase, pitch_time, window_pitch,
};
use crate::test_utils::new_real_buffer;
use crate::text::{decimal, decimal_text};
use crate::window::{fill_chunk, lemma_windows_due, windows_due, UnprocessedRegion};
use vstd::prelude::*;
use vstd::slice::slice_subrange;
use vstd::string::StringExecFns;

verus! {

/// The largest window, in samples, that a detector analyses.  A detector's working memory has
/// this size.
pub const MAX_WINDOW_SIZE: usize = 8192;

/// The sample rate, in Hz, that [`make_params`] assumes.
pub const SAMPLE_RATE: usize = 48000;

/// The power threshold that [`make_params`] sets: 0.25 in single precision.
pub const POWER_THRESHOLD_BITS: u32 = 0x3E80_0000;

/// The clarity threshold that [`make_params`] sets: 0.6 in single precision.
pub const CLARITY_THRESHOLD_BITS: u32 = 0x3F19_999A;

/// How a detector analyses: the window length, what the estimator is told, and the
/// thresholds below which a window counts as holding no pitch.
#[derive(Clone, Copy, Debug, PartialEq, Eq, Structural)]
pub struct Params {
    pub sample_rate: usize,
    pub window: usize,
    pub padding: usize,
    pub power_threshold_bits: u32,
    pub clarity_threshold_bits: u32,
}

/// The parameters for windows of `window` samples: audio at [`SAMPLE_RATE`], half a window
/// of padding, and the two default thresholds.
pub open spec fn default_params(window: usize) -> Params {
    Params {
        sample_rate: SAMPLE_RATE,
        window,
        padding: window / 2,
        power_threshold_bits: POWER_THRESHOLD_BITS,
        clarity_threshold_bits: CLARITY_THRESHOLD_BITS,
    }
}

/// Makes the parameters for windows of `window` samples.
pub fn make_params(window: usize) -> (params: Params)
    ensures
        params == default_params(window),
{
    Params {
        window,
        sample_rate: SAMPLE_RATE,
        padding: window / 2,
        power_threshold_bits: POWER_THRESHOLD_BITS,
        clarity_threshold_bits: CLARITY_THRESHOLD_BITS,
    }
}

/// One pitch observation: the absolute time, counted in samples, at which its window begins,
/// the frequency and the clarity as single precision bit patterns, and whether a note begins
/// here.
#[derive(Clone, Copy, Debug, PartialEq, Eq, Structural)]
pub struct Pitch {
    pub t: usize,
    pub frequency_bits: u32,
    pub clarity_bits: u32,
    pub onset: bool,
}

/// The text that tells a caller that a detector has not yet seen a full window.
pub open spec fn not_enough_samples_message(required: nat, available: nat) -> Seq<char> {
    "pitches() requires at least "@ + decimal(required) + " samples and there are currently "@
        + decimal(available)
        + ". Ensure set_audio_samples() has been called once enough samples are available."@
}

/// What a detector answers when asked for pitches: a code, a message, and the pitches.
///
/// The code is `success`, with an empty message and the pitches found, or it names the reason
/// why there are none, with a message for a human reader.
pub struct PitchesResult {
    _code: String,
    _message: String,
    _pitches: Vec<Pitch>,
}

impl PitchesResult {
    /// The code, as text.
    pub closed spec fn code_text(&self) -> Seq<char> {
        self._code@
    }

    /// The message, as text.
    pub closed spec fn message_text(&self) -> Seq<char> {
        self._message@
    }

    /// The pitches, in the order in which they were found.
    pub closed spec fn pitch_seq(&self) -> Seq<Pitch> {
        self._pitches@
    }

    /// A result that carries no pitches, only the reason why.
    pub fn from_error(code: String, message: String) -> (result: PitchesResult)
        ensures
            result.code_text() == code@,
            result.message_text() == message@,
            result.pitch_seq() == Seq::<Pitch>::empty(),
    {
        PitchesResult { _code: code, _message: message, _pitches: Vec::new() }
    }

    /// The successful result that carries `pitches`.
    pub fn from_vec(pitches: Vec<Pitch>) -> (result: PitchesResult)
        ensures
            result.code_text() == "success"@,
            result.message_text() == Seq::<char>::empty(),
            result.pitch_seq() == pitches@,
    {
        PitchesResult {
            _code: String::from_str("success"),
            _message: String::new(),
            _pitches: pitches,
        }
    }

    /// The code.
    pub fn code(&self) -> (code: String)
        ensures
            code@ == self.code_text(),
    {
        self._code.clone()
    }

    /// The message.
    pub fn message(&self) -> (message: String)
        ensures
            message@ == self.message_text(),
    {
        self._message.clone()
    }

    /// The pitches, in the order in which they were found.
    pub fn pitches(&self) -> (pitches: Vec<Pitch>)
        ensures
            pitches@ == self.pitch_seq(),
    {
        let mut pitches: Vec<Pitch> = Vec::new();
        let mut i: usize = 0;
        while i < self._pitches.len()
            invariant
                i <= self._pitches@.len(),
                pitches@ == self._pitches@.subrange(0, i as int),
            decreases self._pitches@.len() - i,
        {
            pitches.push(self._pitches[i]);
            i += 1;
        }
        pitches
    }
}

/// Why a detector with the given estimator name and window cannot be built, if it cannot:
/// the window is checked first.
pub open spec fn construction_refusal(name: Seq<char>, window: usize) -> Option<AnalyzerError> {
    if window > MAX_WINDOW_SIZE {
        Some(AnalyzerError::WindowTooLarge { window, maximum: MAX_WINDOW_SIZE })
    } else if kind_named(name) is None {
        Some(AnalyzerError::UnknownEstimatorKind)
    } else {
        None
    }
}

/// With what an estimator was built: the kind, the length of its windows, and the padding.
pub struct Blueprint {
    pub kind: EstimatorKind,
    pub window: usize,
    pub padding: usize,
}

/// Builds the estimator that `detector_type` names, for the windows that `params` describe.
fn make_detector<E: PitchEstimator>(detector_type: &String, params: Params) -> (made: Result<
    (E, Ghost<Blueprint>),
    AnalyzerError,
>)
    ensures
        (match made {
            Ok(pair) => kind_named(detector_type@) is Some && pair.1@ == (Blueprint {
                kind: kind_named(detector_type@).unwrap(),
                window: params.window,
                padding: params.padding,
            }),
            Err(error) => kind_named(detector_type@) is None && error
                == AnalyzerError::UnknownEstimatorKind,
        }),
{
    match EstimatorKind::from_name(detector_type) {
        Some(kind) => {
            let estimator = E::create(kind, params.window, params.padding);
            Ok(
                (
                    estimator,
                    Ghost(Blueprint { kind, window: params.window, padding: params.padding }),
                ),
            )
        },
        None => Err(AnalyzerError::UnknownEstimatorKind),
    }
}

/// One question put to an estimator, and its answer: the window handed over, what the
/// estimator was told with it, and what it found.
pub struct Exchange {
    pub window: Seq<u32>,
    pub sample_rate: usize,
    pub power_threshold_bits: u32,
    pub clarity_threshold_bits: u32,
    pub answer: Option<Estimate>,
}

/// The answers of a run of exchanges, in order.
pub open spec fn answers(exchanges: Seq<Exchange>) -> Seq<Option<Estimate>> {
    Seq::new(exchanges.len(), |i: int| exchanges[i].answer)
}

/// A detector over a stream of samples.
///
/// It holds the view of the stream it was last handed and a cursor: the absolute time of the
/// first sample that no analysed window has moved past.  The cursor never moves back.  It
/// also keeps, for its contracts only, a record of how its estimator was built and of every
/// exchange with it.
pub struct PitchDetector<E: PitchEstimator> {
    params: Params,
    blueprint: Ghost<Blueprint>,
    time_of_first_sample: usize,
    time_of_next_unprocessed_sample: usize,
    current_pitch: Option<u32>,
    audio_samples: Vec<u32>,
    chunk: Vec<u32>,
    detector: E,
    exchanges: Ghost<Seq<Exchange>>,
}

/// The hops up to window `i` of `n` lie within the hops of all `n` windows.
proof fn lemma_hops(i: int, n: int, hop: int)
    by (nonlinear_arith)
    requires
        0 <= i < n,
        0 <= hop,
    ensures
        0 <= i * hop,
        (i + 1) * hop == i * hop + hop,
        (i + 1) * hop <= n * hop,
{
}

impl<E: PitchEstimator> PitchDetector<E> {
    /// The parameters the detector was built with.
    pub closed spec fn params(&self) -> Params {
        self.params
    }

    /// With what the detector's estimator was built.
    pub closed spec fn blueprint(&self) -> Blueprint {
        self.blueprint@
    }

    /// The kind of estimator the detector was built on.
    pub open spec fn kind(&self) -> EstimatorKind {
        self.blueprint().kind
    }

    /// The absolute time of the first sample of the current view.
    pub closed spec fn view_start(&self) -> nat {
        self.time_of_first_sample as nat
    }

    /// The absolute time of the next sample that no analysed window has moved past.
    pub closed spec fn cursor(&self) -> nat {
        self.time_of_next_unprocessed_sample as nat
    }

    /// The frequency of the window analysed last, if it held a confident pitch.
    pub closed spec fn last_confident(&self) -> Option<u32> {
        self.current_pitch
    }

    /// The samples of the current view.
    pub closed spec fn samples(&self) -> Seq<u32> {
        self.audio_samples@
    }

    /// Every exchange with the estimator so far, oldest first.
    pub closed spec fn exchanges(&self) -> Seq<Exchange> {
        self.exchanges@
    }

    /// The length of a window, in samples.
    pub open spec fn window(&self) -> nat {
        self.params().window as nat
    }

    /// The distance between the starts of two consecutive windows: a quarter of a window.
    pub open spec fn hop(&self) -> nat {
        (self.params().window / 4) as nat
    }

    /// The number of samples of the current view from the cursor on.  It is negative when the
    /// cursor lies beyond the view.
    pub open spec fn unprocessed_len(&self) -> int {
        self.samples().len() - (self.cursor() - self.view_start())
    }

    /// The number of windows that the next batch analyses.
    pub open spec fn num_windows(&self) -> nat {
        windows_due(self.unprocessed_len(), self.window(), self.hop())
    }

    /// The samples of window number `i` of the next batch.
    pub open spec fn window_at(&self, i: int) -> Seq<u32> {
        let start = self.cursor() - self.view_start() + i * self.hop();
        self.samples().subrange(start, start + self.window())
    }

    /// The detector can analyse: either its windows advance, or it has no full window.
    pub open spec fn drainable(&self) -> bool {
        self.hop() > 0 || self.unprocessed_len() < self.window()
    }

    /// The detector's representation is sound.
    pub closed spec fn wf(&self) -> bool {
        &&& self.params.window <= MAX_WINDOW_SIZE
        &&& self.blueprint@.window == self.params.window
        &&& self.blueprint@.padding == self.params.padding
        &&& self.chunk@.len() == MAX_WINDOW_SIZE
        &&& self.time_of_first_sample <= self.time_of_next_unprocessed_sample
        &&& self.time_of_first_sample + self.audio_samples@.len() <= usize::MAX
    }

    /// The absolute time of the first sample of the current view.
    pub fn time_of_first_sample(&self) -> (time: usize)
        ensures
            time == self.view_start(),
    {
        self.time_of_first_sample
    }

    /// The absolute time of the next sample that no analysed window has moved past.
    pub fn time_of_next_unprocessed_sample(&self) -> (time: usize)
        ensures
            time == self.cursor(),
    {
        self.time_of_next_unprocessed_sample
    }

    /// How handing over a view changes a detector.  A view shorter than one window is refused
    /// and changes nothing.  Otherwise the view is replaced, and the cursor moves to the start
    /// of the new view if it lay before it.
    pub open spec fn ingested(
        pre: Self,
        post: Self,
        time_of_first_sample: usize,
        audio_samples: Seq<u32>,
        outcome: Result<(), AnalyzerError>,
    ) -> bool {
        if audio_samples.len() < pre.window() {
            &&& post == pre
            &&& outcome == Err::<(), AnalyzerError>(
                AnalyzerError::InsufficientSamples {
                    required: pre.params().window,
                    available: audio_samples.len() as usize,
                },
            )
        } else {
            &&& outcome is Ok
            &&& post.params() == pre.params()
            &&& post.blueprint() == pre.blueprint()
            &&& post.last_confident() == pre.last_confident()
            &&& post.exchanges() == pre.exchanges()
            &&& post.samples() == audio_samples
            &&& post.view_start() == time_of_first_sample
            &&& post.cursor() == if time_of_first_sample > pre.cursor() {
                time_of_first_sample as nat
            } else {
                pre.cursor()
            }
        }
    }

    /// A detector built on the estimator that `detector_type` names.  It has seen no samples:
    /// its view is empty and its cursor is at time zero.  Its estimator is built for the kind
    /// named, the window and the padding of `params`, and has not been asked anything yet.
    ///
    /// A window above [`MAX_WINDOW_SIZE`] and a name that selects no estimator are refused;
    /// no estimator is built then.
    pub fn new(detector_type: String, params: Params) -> (made: Result<Self, AnalyzerError>)
        ensures
            (match made {
                Ok(detector) => {
                    &&& construction_refusal(detector_type@, params.window) is None
                    &&& kind_named(detector_type@) is Some
                    &&& detector.blueprint() == (Blueprint {
                        kind: kind_named(detector_type@).unwrap(),
                        window: params.window,
                        padding: params.padding,
                    })
                    &&& detector.wf()
                    &&& detector.params() == params
                    &&& detector.view_start() == 0
                    &&& detector.cursor() == 0
                    &&& detector.last_confident() is None
                    &&& detector.samples() == Seq::<u32>::empty()
                    &&& detector.exchanges() == Seq::<Exchange>::empty()
                },
                Err(error) => construction_refusal(detector_type@, params.window) == Some(error),
            }),
    {
        if params.window > MAX_WINDOW_SIZE {
            return Err(
                AnalyzerError::WindowTooLarge { window: params.window, maximum: MAX_WINDOW_SIZE },
            );
        }
        match make_detector::<E>(&detector_type, params) {
            Ok(pair) => Ok(
                PitchDetector {
                    time_of_first_sample: 0,
                    time_of_next_unprocessed_sample: 0,
                    current_pitch: None,
                    audio_samples: Vec::new(),
                    chunk: new_real_buffer(MAX_WINDOW_SIZE),
                    params,
                    detector: pair.0,
                    blueprint: pair.1,
                    exchanges: Ghost(Seq::empty()),
                },
            ),
            Err(error) => Err(error),
        }
    }

    /// Hands the detector a new view of the stream: `audio_samples`, of which the first was
    /// taken at the absolute time `time_of_first_sample`.
    ///
    /// A view shorter than one window is refused.  Otherwise it replaces the current view, and
    /// the cursor moves to the start of the view if it lay before it; it never moves back.
    pub fn set_audio_samples(
        &mut self,
        time_of_first_sample: usize,
        audio_samples: Vec<u32>,
    ) -> (outcome: Result<(), AnalyzerError>)
        requires
            old(self).wf(),
            audio_samples@.len() >= old(self).window() ==> time_of_first_sample
                + audio_samples@.len() <= usize::MAX,
        ensures
            final(self).wf(),
            Self::ingested(
                *old(self),
                *final(self),
                time_of_first_sample,
                audio_samples@,
                outcome,
            ),
    {
        if audio_samples.len() < self.params.window {
            return Err(
                AnalyzerError::InsufficientSamples {
                    required: self.params.window,
                    available: audio_samples.len(),
                },
            );
        }
        self.time_of_first_sample = time_of_first_sample;
        if time_of_first_sample > self.time_of_next_unprocessed_sample {
            self.time_of_next_unprocessed_sample = time_of_first_sample;
        }
        self.audio_samples = audio_samples;
        Ok(())
    }

    /// The cursor as an index into the current view.
    pub fn index_of_next_unprocessed_sample(&self) -> (index: usize)
        requires
            self.wf(),
        ensures
            index == self.cursor() - self.view_start(),
    {
        self.time_of_next_unprocessed_sample - self.time_of_first_sample
    }

    /// The length of the current view.
    pub fn num_audio_samples(&self) -> (len: usize)
        ensures
            len == self.samples().len(),
    {
        self.audio_samples.len()
    }

    /// The part of the current view that lies ahead of the cursor; none where the cursor lies
    /// beyond the end of the view.
    pub fn unprocessed_region(&self) -> (region: Option<UnprocessedRegion>)
        requires
            self.wf(),
        ensures
            region == (if self.unprocessed_len() >= 0 {
                Some(
                    UnprocessedRegion {
                        start: self.cursor() as usize,
                        len: self.unprocessed_len() as usize,
                    },
                )
            } else {
                None
            }),
    {
        UnprocessedRegion::of_view(
            self.time_of_first_sample,
            self.audio_samples.len(),
            self.time_of_next_unprocessed_sample,
        )
    }

    /// Whether the detector can analyse: whether [`Self::drainable`] holds.
    pub fn can_drain(&self) -> (can: bool)
        requires
            self.wf(),
        ensures
            can == self.drainable(),
    {
        match self.unprocessed_region() {
            Some(region) => self.params.window / 4 > 0 || region.len < self.params.window,
            None => true,
        }
    }

    /// The cursor never lies before the view, the window is no longer than the working
    /// memory, and the estimator was built for the window and the padding of the parameters.
    pub proof fn lemma_sound(&self)
        requires
            self.wf(),
        ensures
            self.view_start() <= self.cursor(),
            self.window() <= MAX_WINDOW_SIZE,
            self.blueprint().window == self.params().window,
            self.blueprint().padding == self.params().padding,
    {
    }

    /// Every window of a batch lies within the view and has the length that the estimator
    /// was built for: no window is cut short or filled up with silence.
    pub proof fn lemma_windows_are_whole(&self, i: int)
        requires
            self.wf(),
            0 <= i < self.num_windows(),
        ensures
            0 <= self.cursor() - self.view_start() + i * self.hop(),
            self.cursor() - self.view_start() + i * self.hop() + self.window()
                <= self.samples().len(),
            self.window_at(i).len() == self.blueprint().window,
    {
        lemma_windows_due(self.unprocessed_len(), self.window(), self.hop());
        lemma_hops(i, self.num_windows() as int, self.hop() as int);
    }

    /// A new view never moves the cursor back.
    pub proof fn lemma_view_keeps_cursor(
        before: Self,
        after: Self,
        time_of_first_sample: usize,
        audio_samples: Seq<u32>,
        outcome: Result<(), AnalyzerError>,
    )
        requires
            Self::ingested(before, after, time_of_first_sample, audio_samples, outcome),
        ensures
            before.cursor() <= after.cursor(),
            outcome is Ok ==> after.view_start() <= after.cursor(),
    {
    }

    /// A batch never moves the cursor back, so no batch returns to a window that an earlier
    /// one moved past.
    pub proof fn lemma_batch_advances_cursor(before: Self, after: Self, pitches: Seq<Pitch>)
        requires
            Self::drained(before, after, pitches),
        ensures
            before.cursor() <= after.cursor(),
    {
        lemma_windows_due(before.unprocessed_len(), before.window(), before.hop());
    }

    /// The question that a batch puts to the estimator for its window number `i`, with the
    /// answer `answer`: the samples of the window, and the sample rate and the thresholds of
    /// the parameters.
    pub open spec fn exchange_at(&self, i: int, answer: Option<Estimate>) -> Exchange {
        Exchange {
            window: self.window_at(i),
            sample_rate: self.params().sample_rate,
            power_threshold_bits: self.params().power_threshold_bits,
            clarity_threshold_bits: self.params().clarity_threshold_bits,
            answer,
        }
    }

    /// How a batch changes a detector.
    ///
    /// The view and the parameters stay.  The estimator is asked about every window that is
    /// due, once and in order, and about nothing else; the exchanges of the batch are the new
    /// ones at the end of the record.  The cursor moves past every window of the batch, and
    /// the pitches reported and the frequency remembered are those that the estimator's
    /// answers give.
    pub open spec fn drained(pre: Self, post: Self, pitches: Seq<Pitch>) -> bool {
        let before = pre.exchanges().len() as int;
        let batch = post.exchanges().skip(before);
        &&& post.wf()
        &&& post.params() == pre.params()
        &&& post.blueprint() == pre.blueprint()
        &&& post.view_start() == pre.view_start()
        &&& post.samples() == pre.samples()
        &&& post.cursor() == pre.cursor() + pre.num_windows() * pre.hop()
        &&& post.exchanges().len() == before + pre.num_windows()
        &&& post.exchanges().take(before) == pre.exchanges()
        &&& forall|i: int|
            0 <= i < pre.num_windows() ==> #[trigger] batch[i] == pre.exchange_at(
                i,
                batch[i].answer,
            )
        &&& pitches == emitted(
            pre.cursor() as int,
            pre.hop() as int,
            pre.last_confident(),
            answers(batch),
        )
        &&& pitches.len() <= pre.num_windows()
        &&& post.last_confident() == last_after(pre.last_confident(), answers(batch))
    }

    /// Puts one question to the estimator, about the first `window_samples` samples of the
    /// working memory, and records the exchange.  Nothing else changes.
    fn ask(&mut self, window_samples: usize) -> (answer: Option<Estimate>)
        requires
            window_samples <= old(self).chunk@.len(),
        ensures
            final(self).exchanges@ == old(self).exchanges@.push(
                Exchange {
                    window: old(self).chunk@.subrange(0, window_samples as int),
                    sample_rate: old(self).params.sample_rate,
                    power_threshold_bits: old(self).params.power_threshold_bits,
                    clarity_threshold_bits: old(self).params.clarity_threshold_bits,
                    answer,
                },
            ),
            final(self).params == old(self).params,
            final(self).blueprint == old(self).blueprint,
            final(self).time_of_first_sample == old(self).time_of_first_sample,
            final(self).time_of_next_unprocessed_sample == old(
                self,
            ).time_of_next_unprocessed_sample,
            final(self).current_pitch == old(self).current_pitch,
            final(self).audio_samples == old(self).audio_samples,
            final(self).chunk == old(self).chunk,
    {
        let window = slice_subrange(self.chunk.as_slice(), 0, window_samples);
        let answer = self.detector.estimate(
            window,
            self.params.sample_rate,
            self.params.power_threshold_bits,
            self.params.clarity_threshold_bits,
        );
        self.exchanges = Ghost(
            self.exchanges@.push(
                Exchange {
                    window: window@,
                    sample_rate: self.params.sample_rate,
                    power_threshold_bits: self.params.power_threshold_bits,
                    clarity_threshold_bits: self.params.clarity_threshold_bits,
                    answer,
                },
            ),
        );
        answer
    }

    /// Analyses every window that is due and reports the pitches found, in window order.
    ///
    /// With `n` windows due, window `i` holds the samples [`Self::window_at`]`(i)`.  Each is
    /// handed to the estimator once, in order, with the sample rate and the thresholds of the
    /// parameters, and the cursor moves on by `n` hops whatever the estimator answers.
    pub fn pitches_vec(&mut self) -> (pitches: Vec<Pitch>)
        requires
            old(self).wf(),
            old(self).drainable(),
        ensures
            Self::drained(*old(self), *final(self), pitches@),
            final(self).num_windows() == 0,
            old(self).num_windows() == 0 ==> pitches@.len() == 0 && *final(self) == *old(self),
    {
        let mut pitches: Vec<Pitch> = Vec::new();
        let ghost pre = *self;
        let ghost before = pre.exchanges().len() as int;
        let window_samples: usize = self.params.window;
        let delta: usize = window_samples / 4;
        let num_windows: usize = match self.unprocessed_region() {
            Some(region) => region.num_windows(window_samples, delta),
            None => 0,
        };
        if num_windows == 0 {
            proof {
                assert(self.exchanges().skip(before) =~= Seq::<Exchange>::empty());
                assert(self.exchanges().take(before) =~= pre.exchanges());
                assert(answers(Seq::<Exchange>::empty()) =~= Seq::<Option<Estimate>>::empty());
                assert(pre.num_windows() * pre.hop() == 0) by (nonlinear_arith)
                    requires
                        pre.num_windows() == 0,
                ;
            }
            return pitches;
        }
        proof {
            lemma_windows_due(pre.unprocessed_len(), pre.window(), pre.hop());
        }
        let index_of_next_unprocessed_sample: usize = self.index_of_next_unprocessed_sample();
        let ghost mut batch: Seq<Exchange> = Seq::empty();
        let mut i: usize = 0;
        while i < num_windows
            invariant
                pre.wf(),
                self.wf(),
                self.params == pre.params,
                self.blueprint == pre.blueprint,
                self.time_of_first_sample == pre.time_of_first_sample,
                self.audio_samples == pre.audio_samples,
                window_samples == pre.params.window,
                delta == window_samples / 4,
                delta > 0,
                index_of_next_unprocessed_sample == pre.cursor() - pre.view_start(),
                num_windows == pre.num_windows(),
                num_windows * delta <= self.audio_samples@.len() - index_of_next_unprocessed_sample
                    - window_samples,
                i <= num_windows,
                self.time_of_next_unprocessed_sample == pre.cursor() + i * delta,
                batch.len() == i,
                self.exchanges() == pre.exchanges() + batch,
                forall|k: int|
                    0 <= k < i ==> #[trigger] batch[k] == pre.exchange_at(k, batch[k].answer),
                pitches@ == emitted(
                    pre.cursor() as int,
                    delta as int,
                    pre.last_confident(),
                    answers(batch),
                ),
                self.current_pitch == last_after(pre.last_confident(), answers(batch)),
            decreases num_windows - i,
        {
            proof {
                lemma_hops(i as int, num_windows as int, delta as int);
            }
            let index: usize = i * delta + index_of_next_unprocessed_sample;
            fill_chunk(self.audio_samples.as_slice(), index, window_samples, &mut self.chunk);
            let optional_pitch = self.ask(window_samples);
            let ghost exchange = pre.exchange_at(i as int, optional_pitch);
            assert(self.exchanges@.last().window =~= exchange.window);
            let t: usize = self.time_of_first_sample + index;
            self.time_of_next_unprocessed_sample += delta;
            let step = classify(self.current_pitch, t, optional_pitch);
            self.current_pitch = step.1;
            proof {
                let longer = batch.push(exchange);
                assert(answers(longer).drop_last() =~= answers(batch));
                assert(t == pitch_time(pre.cursor() as int, delta as int, i as int));
                batch = longer;
            }
            match step.0 {
                Some(pitch) => {
                    pitches.push(pitch);
                },
                None => {},
            }
            i += 1;
        }
        proof {
            assert(self.exchanges().skip(before) =~= batch);
            assert(self.exchanges().take(before) =~= pre.exchanges());
            lemma_emitted_in_window_order(
                pre.cursor() as int,
                delta as int,
                pre.last_confident(),
                answers(batch),
            );
        }
        pitches
    }

    /// What asking for pitches gives.  A detector whose view is shorter than one window, as it
    /// is before the first view is handed over, stays as it is and answers with the code
    /// `not_enough_samples` and a message that gives the length of a window and the length of
    /// the view.  Any other detector analyses the batch that is due and answers with the code
    /// `success`, an empty message and the pitches of the batch.
    pub open spec fn answered(pre: Self, post: Self, result: PitchesResult) -> bool {
        if pre.samples().len() < pre.window() {
            &&& post == pre
            &&& result.code_text() == "not_enough_samples"@
            &&& result.message_text() == not_enough_samples_message(
                pre.window(),
                pre.samples().len(),
            )
            &&& result.pitch_seq() == Seq::<Pitch>::empty()
        } else {
            &&& result.code_text() == "success"@
            &&& result.message_text() == Seq::<char>::empty()
            &&& Self::drained(pre, post, result.pitch_seq())
        }
    }

    /// Reports the pitches of every window that is due, or says that the detector has not yet
    /// been handed a view of at least one window.
    ///
    /// The second answer changes nothing; it differs from the successful answer without
    /// pitches, which says that nothing new was due.
    pub fn pitches(&mut self) -> (result: PitchesResult)
        requires
            old(self).wf(),
            old(self).drainable(),
        ensures
            final(self).wf(),
            Self::answered(*old(self), *final(self), result),
            final(self).num_windows() == 0,
    {
        if self.audio_samples.len() < self.params.window {
            let mut message = String::from_str("pitches() requires at least ");
            message.append(decimal_text(self.params.window).as_str());
            message.append(" samples and there are currently ");
            message.append(decimal_text(self.audio_samples.len()).as_str());
            message.append(
                ". Ensure set_audio_samples() has been called once enough samples are available.",
            );
            return PitchesResult::from_error(String::from_str("not_enough_samples"), message);
        }
        PitchesResult::from_vec(self.pitches_vec())
    }

    /// A detector that has not been handed a view answers that it has not enough samples,
    /// with the length of its window and of no samples in the message, and not with an empty
    /// success.
    pub proof fn lemma_no_view_is_not_enough_samples(
        before: Self,
        after: Self,
        result: PitchesResult,
    )
        requires
            before.samples().len() == 0,
            before.window() > 0,
            Self::answered(before, after, result),
        ensures
            after == before,
            result.code_text() == "not_enough_samples"@,
            result.code_text() != "success"@,
            result.message_text() == not_enough_samples_message(before.window(), 0),
            result.pitch_seq() == Seq::<Pitch>::empty(),
    {
        reveal_strlit("not_enough_samples");
        reveal_strlit("success");
        assert("not_enough_samples"@.len() != "success"@.len());
    }

    /// The times of a batch fit the machine's integers: even the cursor after the batch, one
    /// hop after the start of its last window, does.
    proof fn lemma_times_fit(&self)
        requires
            self.wf(),
        ensures
            0 <= pitch_time(self.cursor() as int, self.hop() as int, self.num_windows() as int)
                <= usize::MAX,
    {
        lemma_windows_due(self.unprocessed_len(), self.window(), self.hop());
        let n = self.num_windows() as int;
        let hop = self.hop() as int;
        if n == 0 {
            assert(n * hop == 0) by (nonlinear_arith)
                requires
                    n == 0,
            ;
        } else {
            assert(n * hop == self.num_windows() * self.hop());
        }
    }

    /// What a batch reports, window by window.  The pitches of a batch belong to those of its
    /// windows, in order, of which the estimator was confident: `windows[k]` is the number of
    /// the window of pitch `k`.  A pitch carries the frequency and the clarity that the
    /// estimator found in its window, and the time at which its window begins, one hop after
    /// the cursor for each earlier window.  It is an onset exactly when the estimator was not
    /// confident of the window just before; for the first window of the batch, when no pitch
    /// was remembered.
    pub proof fn lemma_batch_pitches(before: Self, after: Self, pitches: Seq<Pitch>) -> (windows:
        Seq<int>)
        requires
            before.wf(),
            Self::drained(before, after, pitches),
        ensures
            windows.len() == pitches.len(),
            forall|j: int, k: int| 0 <= j < k < windows.len() ==> windows[j] < windows[k],
            forall|i: int|
                0 <= i < before.num_windows() && (#[trigger] after.exchanges()[
                    before.exchanges().len() + i
                ]).answer is Some ==> windows.contains(i),
            forall|k: int|
                0 <= k < pitches.len() ==> ({
                    let i = #[trigger] windows[k];
                    let asked = before.exchanges().len() + i;
                    &&& 0 <= i < before.num_windows()
                    &&& after.exchanges()[asked].answer is Some
                    &&& pitches[k].t == before.cursor() + i * before.hop()
                    &&& pitches[k].frequency_bits
                        == after.exchanges()[asked].answer.unwrap().frequency_bits
                    &&& pitches[k].clarity_bits
                        == after.exchanges()[asked].answer.unwrap().clarity_bits
                    &&& pitches[k].onset == if i == 0 {
                        before.last_confident() is None
                    } else {
                        after.exchanges()[asked - 1].answer is None
                    }
                }),
    {
        let first = before.exchanges().len() as int;
        let batch = after.exchanges().skip(first);
        let outcomes = answers(batch);
        let cursor = before.cursor() as int;
        let hop = before.hop() as int;
        let n = before.num_windows() as int;
        let windows = lemma_emitted_in_window_order(
            cursor,
            hop,
            before.last_confident(),
            outcomes,
        );
        before.lemma_times_fit();
        assert forall|i: int|
            0 <= i < n && (#[trigger] after.exchanges()[first + i]).answer
                is Some implies windows.contains(i) by {
            assert(outcomes[i] is Some);
            let k = choose|k: int| 0 <= k < windows.len() && windows[k] == i;
            assert(windows[k] == i);
        }
        assert forall|k: int| 0 <= k < pitches.len() implies {
            let i = #[trigger] windows[k];
            let asked = first + i;
            &&& 0 <= i < n
            &&& after.exchanges()[asked].answer is Some
            &&& pitches[k].t == cursor + i * hop
            &&& pitches[k].frequency_bits
                == after.exchanges()[asked].answer.unwrap().frequency_bits
            &&& pitches[k].clarity_bits == after.exchanges()[asked].answer.unwrap().clarity_bits
            &&& pitches[k].onset == if i == 0 {
                before.last_confident() is None
            } else {
                after.exchanges()[asked - 1].answer is None
            }
        } by {
            let i = windows[k];
            assert(window_pitch(cursor, hop, before.last_confident(), outcomes, i) == Some(
                pitches[k],
            ));
            assert(0 <= pitch_time(cursor, hop, i) <= pitch_time(cursor, hop, n))
                by (nonlinear_arith)
                requires
                    0 <= i < n,
                    0 <= cursor,
                    0 <= hop,
            ;
        }
        windows
    }

    /// The first pitch that a detector reports with no pitch remembered, as after its
    /// construction, begins a note.
    pub proof fn lemma_first_pitch_begins_a_note(before: Self, after: Self, pitches: Seq<Pitch>)
        requires
            before.last_confident() is None,
            Self::drained(before, after, pitches),
            pitches.len() > 0,
        ensures
            pitches[0].onset,
    {
        let batch = after.exchanges().skip(before.exchanges().len() as int);
        lemma_first_pitch_is_onset(before.cursor() as int, before.hop() as int, answers(batch));
    }

    /// In a batch, later pitches carry later times.
    pub proof fn lemma_batch_times_increase(before: Self, after: Self, pitches: Seq<Pitch>)
        requires
            before.wf(),
            Self::drained(before, after, pitches),
        ensures
            forall|j: int, k: int| 0 <= j < k < pitches.len() ==> pitches[j].t < pitches[k].t,
    {
        if before.num_windows() > 0 {
            before.lemma_times_fit();
            let batch = after.exchanges().skip(before.exchanges().len() as int);
            lemma_times_increase(
                before.cursor() as int,
                before.hop() as int,
                before.last_confident(),
                answers(batch),
            );
        }
    }

    /// Where the estimator is confident of every window of a batch, the batch reports one
    /// pitch for each of its windows, with the frequency and the clarity that the estimator
    /// found there.  The first is timed at the cursor, where its window begins, and each
    /// later one one hop after the one before it.  The first is an onset if no pitch was
    /// remembered; the later ones continue it.
    pub proof fn lemma_confident_batch(before: Self, after: Self, pitches: Seq<Pitch>)
        requires
            before.wf(),
            Self::drained(before, after, pitches),
            forall|i: int|
                before.exchanges().len() <= i < after.exchanges().len() ==> (
                #[trigger] after.exchanges()[i]).answer is Some,
        ensures
            pitches.len() == before.num_windows(),
            forall|i: int|
                0 <= i < pitches.len() ==> ({
                    let found = after.exchanges()[before.exchanges().len() + i].answer.unwrap();
                    let pitch = #[trigger] pitches[i];
                    &&& pitch.t == before.cursor() + i * before.hop()
                    &&& pitch.frequency_bits == found.frequency_bits
                    &&& pitch.clarity_bits == found.clarity_bits
                    &&& pitch.onset == (i == 0 && before.last_confident() is None)
                }),
            forall|i: int|
                0 < i < pitches.len() ==> (#[trigger] pitches[i]).t == pitches[i - 1].t
                    + before.hop(),
    {
        let first = before.exchanges().len() as int;
        let batch = after.exchanges().skip(first);
        let outcomes = answers(batch);
        let cursor = before.cursor() as int;
        let hop = before.hop() as int;
        let n = before.num_windows() as int;
        assert forall|i: int| 0 <= i < outcomes.len() implies outcomes[i] is Some by {
            assert(after.exchanges()[first + i].answer is Some);
        }
        lemma_all_confident(cursor, hop, before.last_confident(), outcomes);
        before.lemma_times_fit();
        assert forall|i: int| 0 <= i < pitches.len() implies {
            let found = after.exchanges()[first + i].answer.unwrap();
            let pitch = #[trigger] pitches[i];
            &&& pitch.t == cursor + i * hop
            &&& pitch.frequency_bits == found.frequency_bits
            &&& pitch.clarity_bits == found.clarity_bits
            &&& pitch.onset == (i == 0 && before.last_confident() is None)
        } by {
            assert(Some(pitches[i]) == window_pitch(
                cursor,
                hop,
                before.last_confident(),
                outcomes,
                i,
            ));
            assert(0 <= pitch_time(cursor, hop, i) <= pitch_time(cursor, hop, n))
                by (nonlinear_arith)
                requires
                    0 <= i < n,
                    0 <= cursor,
                    0 <= hop,
            ;
        }
        assert forall|i: int| 0 < i < pitches.len() implies (#[trigger] pitches[i]).t == pitches[i
            - 1].t + hop by {
            assert(pitches[i - 1].t == cursor + (i - 1) * hop);
            assert(i * hop == (i - 1) * hop + hop) by (nonlinear_arith);
        }
    }

    /// A batch leaves no window due: of two batches with no new view handed over in between,
    /// the second reports nothing and leaves the cursor where it was.
    pub proof fn lemma_second_batch_is_empty(
        before: Self,
        between: Self,
        after: Self,
        first: Seq<Pitch>,
        second: Seq<Pitch>,
    )
        requires
            Self::drained(before, between, first),
            Self::drained(between, after, second),
        ensures
            between.num_windows() == 0,
            second == Seq::<Pitch>::empty(),
            after.cursor() == between.cursor(),
            after.last_confident() == between.last_confident(),
            after.exchanges() == between.exchanges(),
    {
        lemma_windows_due(before.unprocessed_len(), before.window(), before.hop());
        assert(between.num_windows() * between.hop() == 0) by (nonlinear_arith)
            requires
                between.num_windows() == 0,
        ;
    }
}

} // verus!
