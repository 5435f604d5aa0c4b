//! The sample buffer: a ring over the most recent chunks of audio.
use crate::chunk_queue::{
    queue_capacity, queue_chunks, queue_len, queue_newest_first, queue_push, queue_with_capacity,
};
use crate::error::AnalyzerError;
use crate::estimator::{kind_named, PitchEstimator};
use crate::pitch_detector::{
    construction_refusal, default_params, make_params, Blueprint, Exchange, PitchDetector,
    MAX_WINDOW_SIZE,
};
use circular_queue::CircularQueue;
use vstd::prelude::*;

verus! {

/// The number of samples in every chunk.
pub const AUDIO_SAMPLES_PER_CHUNK: usize = 128;

/// The number of chunks kept: enough for two windows of the largest size.
pub const MIN_CHUNKS_FOR_ANALYSIS: usize = MAX_WINDOW_SIZE * 2 / AUDIO_SAMPLES_PER_CHUNK;

/// The number of samples kept once the buffer is full.
pub open spec fn capacity_in_samples() -> nat {
    (MIN_CHUNKS_FOR_ANALYSIS * AUDIO_SAMPLES_PER_CHUNK) as nat
}

/// The last `count` samples of `samples`.
pub open spec fn latest(samples: Seq<u32>, count: nat) -> Seq<u32> {
    samples.subrange(samples.len() - count, samples.len() as int)
}

/// The samples of a sequence of chunks, one chunk after the other.
pub open spec fn concatenated(chunks: Seq<Seq<u32>>) -> Seq<u32>
    decreases chunks.len(),
{
    if chunks.len() == 0 {
        Seq::empty()
    } else {
        concatenated(chunks.drop_last()) + chunks.last()
    }
}

/// A buffer over the most recent chunks pushed into it.
///
/// It is described by one value: the sequence of all samples ever pushed, oldest first.  The
/// buffer still holds the last [`capacity_in_samples`] of them, or all of them while there
/// are fewer.
pub struct AudioSamplesProcessor {
    chunk_size: usize,
    max_stored_chunks: usize,
    time_of_last_added_sample: usize,
    recent_audio_sample_chunks: CircularQueue<Vec<u32>>,
    pushed: Ghost<Seq<u32>>,
}

impl AudioSamplesProcessor {
    /// Every sample ever pushed, oldest first.
    pub closed spec fn pushed(&self) -> Seq<u32> {
        self.pushed@
    }

    /// The number of samples the buffer still holds.
    pub open spec fn stored_len(&self) -> nat {
        if self.pushed().len() <= capacity_in_samples() {
            self.pushed().len()
        } else {
            capacity_in_samples()
        }
    }

    /// The absolute time, counted in samples from the first one pushed, of the oldest sample
    /// the buffer still holds.
    pub open spec fn time_of_first(&self) -> nat {
        (self.pushed().len() - self.stored_len()) as nat
    }

    /// The samples the buffer still holds, oldest first.
    pub open spec fn stored(&self) -> Seq<u32> {
        latest(self.pushed(), self.stored_len())
    }

    /// The buffer's representation agrees with the samples pushed: the ring holds the stored
    /// samples in whole chunks of 128, oldest chunk first.
    pub closed spec fn wf(&self) -> bool {
        let chunks = queue_chunks(self.recent_audio_sample_chunks);
        &&& self.chunk_size == AUDIO_SAMPLES_PER_CHUNK
        &&& self.max_stored_chunks == MIN_CHUNKS_FOR_ANALYSIS
        &&& queue_capacity(self.recent_audio_sample_chunks) == self.max_stored_chunks
        &&& self.time_of_last_added_sample == self.pushed().len()
        &&& self.pushed().len() % 128 == 0
        &&& chunks.len() * 128 == self.stored_len()
        &&& forall|k: int| 0 <= k < chunks.len() ==> (#[trigger] chunks[k]).len() == 128
        &&& forall|j: int|
            0 <= j < self.stored_len() ==> chunks[j / 128][j % 128] == #[trigger] self.stored()[j]
    }

    /// An empty buffer for chunks of [`AUDIO_SAMPLES_PER_CHUNK`] samples that keeps the last
    /// [`MIN_CHUNKS_FOR_ANALYSIS`] chunks.
    pub fn new() -> (processor: AudioSamplesProcessor)
        ensures
            processor.wf(),
            processor.pushed() == Seq::<u32>::empty(),
    {
        AudioSamplesProcessor {
            chunk_size: AUDIO_SAMPLES_PER_CHUNK,
            max_stored_chunks: MIN_CHUNKS_FOR_ANALYSIS,
            time_of_last_added_sample: 0,
            recent_audio_sample_chunks: queue_with_capacity(MIN_CHUNKS_FOR_ANALYSIS),
            pushed: Ghost(Seq::empty()),
        }
    }

    /// The number of samples every chunk must have.
    pub fn chunk_size(&self) -> (size: usize)
        requires
            self.wf(),
        ensures
            size == AUDIO_SAMPLES_PER_CHUNK,
    {
        self.chunk_size
    }

    /// The number of chunks the buffer keeps.
    pub fn max_stored_chunks(&self) -> (chunks: usize)
        requires
            self.wf(),
        ensures
            chunks == MIN_CHUNKS_FOR_ANALYSIS,
    {
        self.max_stored_chunks
    }

    /// The number of samples ever pushed: the absolute time of the next sample to come.
    pub fn total_samples_pushed(&self) -> (total: usize)
        requires
            self.wf(),
        ensures
            total == self.pushed().len(),
    {
        self.time_of_last_added_sample
    }

    /// Pushes one chunk.  A chunk of the wrong length is refused and the buffer stays as it
    /// was; otherwise its samples are the newest ones, and the oldest chunk is forgotten if
    /// the buffer was full.
    pub fn add_samples_chunk(&mut self, samples: Vec<u32>) -> (outcome: Result<(), AnalyzerError>)
        requires
            old(self).wf(),
            samples@.len() == AUDIO_SAMPLES_PER_CHUNK ==> old(self).pushed().len()
                + AUDIO_SAMPLES_PER_CHUNK <= usize::MAX,
        ensures
            final(self).wf(),
            samples@.len() == AUDIO_SAMPLES_PER_CHUNK ==> outcome is Ok && final(self).pushed()
                == old(self).pushed() + samples@,
            samples@.len() != AUDIO_SAMPLES_PER_CHUNK ==> *final(self) == *old(self),
            samples@.len() != AUDIO_SAMPLES_PER_CHUNK ==> final(self).pushed() == old(
                self,
            ).pushed(),
            samples@.len() != AUDIO_SAMPLES_PER_CHUNK ==> outcome == Err::<(), AnalyzerError>(
                AnalyzerError::ChunkSizeMismatch {
                    expected: AUDIO_SAMPLES_PER_CHUNK,
                    actual: samples.len(),
                },
            ),
    {
        if samples.len() != self.chunk_size {
            return Err(
                AnalyzerError::ChunkSizeMismatch {
                    expected: self.chunk_size,
                    actual: samples.len(),
                },
            );
        }
        let ghost chunk = samples@;
        let ghost before = *self;
        self.time_of_last_added_sample += self.chunk_size;
        queue_push(&mut self.recent_audio_sample_chunks, samples);
        self.pushed = Ghost(before.pushed() + chunk);
        proof {
            let old_chunks = queue_chunks(before.recent_audio_sample_chunks);
            let chunks = queue_chunks(self.recent_audio_sample_chunks);
            assert forall|j: int| 0 <= j < self.stored_len() implies chunks[j / 128][j % 128]
                == #[trigger] self.stored()[j] by {
                if old_chunks.len() != 128 {
                    if j < before.stored_len() {
                        assert(before.stored()[j] == self.stored()[j]);
                    }
                } else {
                    if j + 128 < before.stored_len() {
                        assert(before.stored()[j + 128] == self.stored()[j]);
                    }
                }
            }
        }
        Ok(())
    }

    /// Whether the buffer has been filled once.
    pub fn has_sufficient_samples(&self) -> (full: bool)
        requires
            self.wf(),
        ensures
            full == (self.pushed().len() >= capacity_in_samples()),
    {
        queue_len(&self.recent_audio_sample_chunks) >= self.max_stored_chunks
    }

    /// The absolute time of the oldest sample the buffer still holds.
    pub fn get_time_of_first_sample(&self) -> (time: usize)
        requires
            self.wf(),
        ensures
            time == self.time_of_first(),
    {
        self.time_of_last_added_sample - queue_len(&self.recent_audio_sample_chunks)
            * self.chunk_size
    }

    /// The samples the buffer still holds, oldest first.
    pub fn get_latest_samples(&self) -> (samples: Vec<u32>)
        requires
            self.wf(),
        ensures
            samples@ == self.stored(),
    {
        let newest_first = queue_newest_first(&self.recent_audio_sample_chunks);
        let count: usize = newest_first.len();
        let ghost chunks = queue_chunks(self.recent_audio_sample_chunks);
        let mut samples: Vec<u32> = Vec::new();
        let mut k: usize = 0;
        while k < count
            invariant
                self.wf(),
                k <= count,
                count == newest_first@.len(),
                count == chunks.len(),
                chunks == queue_chunks(self.recent_audio_sample_chunks),
                forall|i: int|
                    0 <= i < count ==> (#[trigger] newest_first@[i])@ == chunks[count - 1 - i],
                samples@.len() == k * 128,
                forall|j: int| 0 <= j < samples@.len() ==> samples@[j] == self.stored()[j],
            decreases count - k,
        {
            let chunk: &Vec<u32> = newest_first[count - 1 - k];
            assert(chunk@ == chunks[k as int]);
            samples.extend_from_slice(chunk.as_slice());
            k += 1;
        }
        samples
    }

    /// A detector for windows of `window_samples` samples on the estimator that
    /// `detector_type` names, with the default parameters; `None` where
    /// [`PitchDetector::new`] refuses.
    pub fn create_pitch_detector<E: PitchEstimator>(
        &self,
        detector_type: String,
        window_samples: usize,
    ) -> (made: Option<PitchDetector<E>>)
        ensures
            (match made {
                Some(detector) => {
                    &&& construction_refusal(detector_type@, window_samples) is None
                    &&& kind_named(detector_type@) is Some
                    &&& detector.blueprint() == (Blueprint {
                        kind: kind_named(detector_type@).unwrap(),
                        window: window_samples,
                        padding: window_samples / 2,
                    })
                    &&& detector.wf()
                    &&& detector.params() == default_params(window_samples)
                    &&& detector.view_start() == 0
                    &&& detector.cursor() == 0
                    &&& detector.last_confident() is None
                    &&& detector.samples() == Seq::<u32>::empty()
                    &&& detector.exchanges() == Seq::<Exchange>::empty()
                },
                None => construction_refusal(detector_type@, window_samples) is Some,
            }),
    {
        match PitchDetector::new(detector_type, make_params(window_samples)) {
            Ok(detector) => Some(detector),
            Err(_) => None,
        }
    }

    /// Hands the detector what the buffer holds, as its new view of the stream.
    pub fn set_latest_samples_on<E: PitchEstimator>(
        &self,
        detector: &mut PitchDetector<E>,
    ) -> (outcome: Result<(), AnalyzerError>)
        requires
            self.wf(),
            old(detector).wf(),
        ensures
            final(detector).wf(),
            PitchDetector::ingested(
                *old(detector),
                *final(detector),
                self.time_of_first() as usize,
                self.stored(),
                outcome,
            ),
    {
        detector.set_audio_samples(self.get_time_of_first_sample(), self.get_latest_samples())
    }
}

/// Pushing a chunk onto a buffer that is not yet full leaves the time of its first sample at
/// zero; pushing one onto a full buffer moves that time on by the length of the chunk.
pub proof fn lemma_time_of_first_sample(
    before: AudioSamplesProcessor,
    after: AudioSamplesProcessor,
    chunk: Seq<u32>,
)
    requires
        after.pushed() == before.pushed() + chunk,
    ensures
        after.pushed().len() <= capacity_in_samples() ==> after.time_of_first() == 0,
        before.pushed().len() >= capacity_in_samples() ==> after.time_of_first()
            == before.time_of_first() + chunk.len(),
{
}

/// After any number of pushes onto an empty buffer, the buffer has seen the samples of all the
/// chunks in the order of the pushes, and holds the latest [`capacity_in_samples`] of them,
/// or all of them while there are fewer.
///
/// `states[i]` is the buffer before chunk `i` is pushed and `states[i + 1]` the buffer after.
pub proof fn lemma_buffer_holds_latest(states: Seq<AudioSamplesProcessor>, chunks: Seq<Seq<u32>>)
    requires
        states.len() == chunks.len() + 1,
        states[0].pushed() == Seq::<u32>::empty(),
        forall|i: int|
            0 <= i < chunks.len() ==> (#[trigger] states[i + 1]).pushed() == states[i].pushed()
                + chunks[i],
    ensures
        states.last().pushed() == concatenated(chunks),
        states.last().stored() == latest(
            concatenated(chunks),
            if concatenated(chunks).len() <= capacity_in_samples() {
                concatenated(chunks).len()
            } else {
                capacity_in_samples()
            },
        ),
    decreases chunks.len(),
{
    if chunks.len() > 0 {
        lemma_buffer_holds_latest(states.drop_last(), chunks.drop_last());
    }
}

} // verus!
