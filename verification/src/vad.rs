//! Voice activity detection: WebRTC VAD combined with an amplitude threshold
//! and a debounce that keeps a recording open across short pauses.

use vstd::prelude::*;

use crate::audio::concat;
use crate::config::{ConfigManager, VadMode};
use webrtc_vad::SampleRate as WebrtcRate;
use webrtc_vad::VadMode as WebrtcMode;



verus! {

/// Number of samples in one 10 ms frame at 16 kHz.
pub const VAD_FRAME_SAMPLES: usize = 160;

/// Event produced for one chunk of audio.
#[derive(Debug)]
pub enum VadEvent {
    /// Voice activity started; the chunk opens a new recording.
    Start,
    /// No voice detected and no recording open.
    Pending,
    /// Voice continues; the chunk was appended to the recording.
    Recording,
    /// Voice ended; carries every sample recorded since `Start`.
    End(Vec<i16>),
}

/// Mathematical view of a [`VadEvent`].
pub enum VadEventView {
    Start,
    Pending,
    Recording,
    End(Seq<i16>),
}

impl View for VadEvent {
    type V = VadEventView;

    open spec fn view(&self) -> VadEventView {
        match self {
            VadEvent::Start => VadEventView::Start,
            VadEvent::Pending => VadEventView::Pending,
            VadEvent::Recording => VadEventView::Recording,
            VadEvent::End(v) => VadEventView::End(v@),
        }
    }
}

/// Mathematical view of the detector's state.
pub struct VadModel {
    pub debounce_count: nat,
    pub debounce_times: nat,
    pub threshold: int,
    pub in_voice: bool,
    pub buffer: Seq<i16>,
}

/// Magnitude of a 16-bit sample, as an integer (so that `i16::MIN` has
/// magnitude 32768).
pub open spec fn magnitude(s: i16) -> int {
    if s < 0 { -(s as int) } else { s as int }
}

/// Some sample of `data` is louder than `threshold`.
pub open spec fn exceeds_threshold_spec(data: Seq<i16>, threshold: int) -> bool {
    exists|i: int| 0 <= i < data.len() && magnitude(#[trigger] data[i]) > threshold
}

/// A chunk is loud exactly when one of its samples, wherever it is in the
/// chunk, is farther from zero than the threshold, on either side.
pub proof fn lemma_loud_chunk(data: Seq<i16>, threshold: int)
    ensures
        exceeds_threshold_spec(data, threshold) <==> exists|i: int|
            0 <= i < data.len() && (#[trigger] data[i] > threshold || data[i] < -threshold),
        forall|i: int|
            0 <= i < data.len() && (#[trigger] data[i] > threshold || data[i] < -threshold)
                ==> exceeds_threshold_spec(data, threshold),
{
    assert forall|i: int|
        0 <= i < data.len() && (#[trigger] data[i] > threshold || data[i] < -threshold)
            implies exceeds_threshold_spec(data, threshold) by {
        assert(magnitude(data[i]) > threshold);
    }
    if exceeds_threshold_spec(data, threshold) {
        let i = choose|i: int| 0 <= i < data.len() && magnitude(#[trigger] data[i]) > threshold;
        assert(data[i] > threshold || data[i] < -threshold);
    }
}

/// One debounce step: returns the new silence counter and whether the chunk
/// still counts as voice.
pub open spec fn debounce_spec(count: nat, times: nat, is_voice: bool) -> (nat, bool) {
    if is_voice {
        (0, true)
    } else if count >= times {
        (count, false)
    } else {
        (count + 1, true)
    }
}

/// One detector step for a chunk `data`, given the WebRTC verdict for it.
pub open spec fn step_spec(s: VadModel, webrtc_voice: bool, data: Seq<i16>) -> (
    VadModel,
    VadEventView,
) {
    let is_voice = webrtc_voice && exceeds_threshold_spec(data, s.threshold);
    let (count, current) = debounce_spec(s.debounce_count, s.debounce_times, is_voice);
    let s1 = VadModel { debounce_count: count, ..s };
    if !s.in_voice && current {
        (VadModel { in_voice: true, buffer: data, ..s1 }, VadEventView::Start)
    } else if s.in_voice && current {
        (VadModel { buffer: s.buffer + data, ..s1 }, VadEventView::Recording)
    } else if s.in_voice && !current {
        (VadModel { in_voice: false, buffer: Seq::empty(), ..s1 }, VadEventView::End(s.buffer))
    } else {
        (s1, VadEventView::Pending)
    }
}

/// The 160-sample frame handed to WebRTC for a chunk: the chunk's first
/// samples, zero-padded or cut to the frame length.
pub open spec fn vad_frame_spec(data: Seq<i16>) -> Seq<i16> {
    Seq::new(
        VAD_FRAME_SAMPLES as nat,
        |i: int|
            if i < data.len() {
                data[i]
            } else {
                0i16
            },
    )
}

/// A detector state is well formed when its silence counter never passed
/// the tolerance and no samples are held outside a recording.
pub open spec fn vad_wf(s: VadModel) -> bool {
    &&& s.debounce_count <= s.debounce_times
    &&& (!s.in_voice ==> s.buffer.len() == 0)
}

/// Runs the detector over a sequence of (WebRTC verdict, chunk) inputs.
pub open spec fn run_spec(s: VadModel, inputs: Seq<(bool, Seq<i16>)>) -> (
    VadModel,
    Seq<VadEventView>,
)
    decreases inputs.len(),
{
    if inputs.len() == 0 {
        (s, Seq::empty())
    } else {
        let (s1, e) = step_spec(s, inputs[0].0, inputs[0].1);
        let (sf, es) = run_spec(s1, inputs.drop_first());
        (sf, seq![e] + es)
    }
}

/// Samples handed back by the `End` events of `es`, in order.
pub open spec fn ended_samples(es: Seq<VadEventView>) -> Seq<i16>
    decreases es.len(),
{
    if es.len() == 0 {
        Seq::empty()
    } else {
        let head = match es[0] {
            VadEventView::End(v) => v,
            _ => Seq::empty(),
        };
        head + ended_samples(es.drop_first())
    }
}

/// Samples of the chunks whose event was `Start` or `Recording`, in order.
pub open spec fn kept_samples(inputs: Seq<(bool, Seq<i16>)>, es: Seq<VadEventView>) -> Seq<i16>
    decreases inputs.len(),
{
    if inputs.len() == 0 || es.len() == 0 {
        Seq::empty()
    } else {
        let head = match es[0] {
            VadEventView::Start => inputs[0].1,
            VadEventView::Recording => inputs[0].1,
            _ => Seq::empty(),
        };
        head + kept_samples(inputs.drop_first(), es.drop_first())
    }
}

/// Running over one more input is running over the others, then stepping.
pub proof fn lemma_run_push(s: VadModel, inputs: Seq<(bool, Seq<i16>)>, x: (bool, Seq<i16>))
    ensures
        run_spec(s, inputs.push(x)) == ({
            let (sm, es) = run_spec(s, inputs);
            let (sf, e) = step_spec(sm, x.0, x.1);
            (sf, es.push(e))
        }),
    decreases inputs.len(),
{
    let ys = inputs.push(x);
    assert(ys[0] == if inputs.len() == 0 { x } else { inputs[0] });
    if inputs.len() == 0 {
        assert(ys.drop_first() =~= Seq::<(bool, Seq<i16>)>::empty());
        let (sf, e) = step_spec(s, x.0, x.1);
        assert(run_spec(sf, ys.drop_first()) == (sf, Seq::<VadEventView>::empty()));
        assert(run_spec(s, ys) == (sf, seq![e] + Seq::<VadEventView>::empty()));
        assert(seq![e] + Seq::<VadEventView>::empty() =~= Seq::<VadEventView>::empty().push(e));
    } else {
        let (s1, e0) = step_spec(s, inputs[0].0, inputs[0].1);
        assert(ys.drop_first() =~= inputs.drop_first().push(x));
        lemma_run_push(s1, inputs.drop_first(), x);
        let (sm, es1) = run_spec(s1, inputs.drop_first());
        let (sf, e) = step_spec(sm, x.0, x.1);
        assert(run_spec(s, inputs) == (sm, seq![e0] + es1));
        assert(run_spec(s, ys) == (sf, seq![e0] + es1.push(e)));
        assert(seq![e0] + es1.push(e) =~= (seq![e0] + es1).push(e));
    }
}

/// Every detector step keeps the state well formed and leaves the
/// tolerance and the threshold unchanged.
pub proof fn lemma_step_preserves_wf(s: VadModel, webrtc_voice: bool, data: Seq<i16>)
    requires
        vad_wf(s),
    ensures
        vad_wf(step_spec(s, webrtc_voice, data).0),
        step_spec(s, webrtc_voice, data).0.debounce_times == s.debounce_times,
        step_spec(s, webrtc_voice, data).0.threshold == s.threshold,
{
}

/// Running the detector yields one event per chunk and keeps the state
/// well formed.
pub proof fn lemma_run_preserves_wf(s: VadModel, inputs: Seq<(bool, Seq<i16>)>)
    requires
        vad_wf(s),
    ensures
        vad_wf(run_spec(s, inputs).0),
        run_spec(s, inputs).1.len() == inputs.len(),
        run_spec(s, inputs).0.debounce_times == s.debounce_times,
        run_spec(s, inputs).0.threshold == s.threshold,
    decreases inputs.len(),
{
    if inputs.len() > 0 {
        lemma_step_preserves_wf(s, inputs[0].0, inputs[0].1);
        let (s1, e) = step_spec(s, inputs[0].0, inputs[0].1);
        lemma_run_preserves_wf(s1, inputs.drop_first());
    }
}

/// No sample is lost or duplicated: every sample of a chunk reported as
/// `Start` or `Recording` is handed back exactly once and in order by a later
/// `End`, or is still held by the open recording.
pub proof fn lemma_recorded_samples_conserved(s: VadModel, inputs: Seq<(bool, Seq<i16>)>)
    requires
        vad_wf(s),
    ensures
        ended_samples(run_spec(s, inputs).1) + run_spec(s, inputs).0.buffer == s.buffer
            + kept_samples(inputs, run_spec(s, inputs).1),
    decreases inputs.len(),
{
    if inputs.len() == 0 {
        assert(s.buffer + Seq::<i16>::empty() =~= s.buffer);
        assert(Seq::<i16>::empty() + s.buffer =~= s.buffer);
    } else {
        let d = inputs[0].1;
        let (s1, e0) = step_spec(s, inputs[0].0, d);
        let rest = inputs.drop_first();
        let (sf, es1) = run_spec(s1, rest);
        lemma_step_preserves_wf(s, inputs[0].0, d);
        lemma_recorded_samples_conserved(s1, rest);
        lemma_run_preserves_wf(s1, rest);
        let es = run_spec(s, inputs).1;
        assert(es == seq![e0] + es1);
        assert(es.drop_first() =~= es1);
        assert(es[0] == e0);
        let ended1 = ended_samples(es1);
        let kept1 = kept_samples(rest, es1);
        assert(ended1 + sf.buffer == s1.buffer + kept1);
        match e0 {
            VadEventView::Start => {
                assert(s.buffer =~= Seq::<i16>::empty());
                assert(ended_samples(es) =~= ended1);
                assert(kept_samples(inputs, es) == d + kept1);
                assert(s1.buffer == d);
                assert(s.buffer + (d + kept1) =~= d + kept1);
            },
            VadEventView::Recording => {
                assert(ended_samples(es) =~= ended1);
                assert(kept_samples(inputs, es) == d + kept1);
                assert(s1.buffer == s.buffer + d);
                assert((s.buffer + d) + kept1 =~= s.buffer + (d + kept1));
            },
            VadEventView::End(v) => {
                assert(v == s.buffer);
                assert(ended_samples(es) == s.buffer + ended1);
                assert(kept_samples(inputs, es) =~= kept1);
                assert(s1.buffer =~= Seq::<i16>::empty());
                assert(ended1 + sf.buffer =~= kept1);
                assert((s.buffer + ended1) + sf.buffer =~= s.buffer + (ended1 + sf.buffer));
            },
            VadEventView::Pending => {
                assert(ended_samples(es) =~= ended1);
                assert(kept_samples(inputs, es) =~= kept1);
                assert(s1.buffer == s.buffer);
            },
        }
    }
}

/// Silence ends a recording after the configured tolerance: with a recording
/// open, each of the next `debounce_times - debounce_count` silent chunks is
/// reported as `Recording` and kept, and the silent chunk after them ends the
/// recording, handing back everything recorded so far.
pub proof fn lemma_silence_ends_recording(s: VadModel, inputs: Seq<(bool, Seq<i16>)>)
    requires
        s.in_voice,
        s.debounce_count <= s.debounce_times,
        inputs.len() == s.debounce_times - s.debounce_count + 1,
        forall|i: int|
            0 <= i < inputs.len() ==> !(#[trigger] inputs[i].0 && exceeds_threshold_spec(
                inputs[i].1,
                s.threshold,
            )),
    ensures
        run_spec(s, inputs).1.len() == inputs.len(),
        forall|i: int|
            0 <= i < inputs.len() - 1 ==> #[trigger] run_spec(s, inputs).1[i]
                == VadEventView::Recording,
        run_spec(s, inputs).1[inputs.len() - 1] == VadEventView::End(
            s.buffer + inputs.take(inputs.len() - 1).map_values(|x: (bool, Seq<i16>)| x.1).flatten(),
        ),
        !run_spec(s, inputs).0.in_voice,
        run_spec(s, inputs).0.buffer.len() == 0,
    decreases inputs.len(),
{
    let d = inputs[0].1;
    assert(!(inputs[0].0 && exceeds_threshold_spec(inputs[0].1, s.threshold)));
    let (s1, e0) = step_spec(s, inputs[0].0, d);
    let rest = inputs.drop_first();
    let (sf, es1) = run_spec(s1, rest);
    let es = run_spec(s, inputs).1;
    assert(es == seq![e0] + es1);
    if inputs.len() == 1 {
        assert(e0 == VadEventView::End(s.buffer));
        let flat = inputs.take(0).map_values(|x: (bool, Seq<i16>)| x.1);
        assert(flat =~= Seq::<Seq<i16>>::empty());
        assert(s.buffer + flat.flatten() =~= s.buffer);
    } else {
        assert(e0 == VadEventView::Recording);
        assert forall|i: int| 0 <= i < rest.len() implies !(#[trigger] rest[i].0
            && exceeds_threshold_spec(rest[i].1, s1.threshold)) by {
            assert(rest[i] == inputs[i + 1]);
        }
        lemma_silence_ends_recording(s1, rest);
        let n = inputs.len();
        let f = |x: (bool, Seq<i16>)| x.1;
        let all = inputs.take(n - 1).map_values(f);
        let tail = rest.take(n - 2).map_values(f);
        assert(all.drop_first() =~= tail);
        assert(all.first() == d);
        assert(all.flatten() == d + tail.flatten());
        assert(s1.buffer == s.buffer + d);
        assert((s.buffer + d) + tail.flatten() =~= s.buffer + (d + tail.flatten()));
        assert forall|i: int| 0 <= i < n - 1 implies #[trigger] es[i]
            == VadEventView::Recording by {
            if i > 0 {
                assert(es[i] == es1[i - 1]);
            }
        }
        assert(es[n - 1] == es1[n - 2]);
    }
}

/// Once the detector is idle and its silence tolerance is used up, a
/// silent chunk (WebRTC hears no voice, or no sample is louder than the
/// threshold) changes nothing and is reported as `Pending`.
pub proof fn lemma_silence_keeps_settled_detector_idle(s: VadModel, webrtc_voice: bool, data: Seq<i16>)
    requires
        vad_wf(s),
        !s.in_voice,
        s.debounce_count == s.debounce_times,
        !(webrtc_voice && exceeds_threshold_spec(data, s.threshold)),
    ensures
        step_spec(s, webrtc_voice, data) == (s, VadEventView::Pending),
{
}

/// A voice chunk (WebRTC hears voice and some sample is louder than the
/// threshold) always counts: it opens a recording holding just that chunk,
/// or is appended to the open one, and resets the silence counter.
pub proof fn lemma_voice_chunk_is_recorded(s: VadModel, data: Seq<i16>)
    requires
        exceeds_threshold_spec(data, s.threshold),
    ensures
        step_spec(s, true, data).0.in_voice,
        step_spec(s, true, data).0.debounce_count == 0,
        !s.in_voice ==> step_spec(s, true, data) == (
            VadModel { debounce_count: 0, in_voice: true, buffer: data, ..s },
            VadEventView::Start,
        ),
        s.in_voice ==> step_spec(s, true, data) == (
            VadModel { debounce_count: 0, buffer: s.buffer + data, ..s },
            VadEventView::Recording,
        ),
{
}

/// Successive debounce steps with tolerance `times`: step `i` took the
/// silence counter from `counts[i]` to `counts[i + 1]` on the voice decision
/// `inputs[i]` and returned `outputs[i]`.
pub open spec fn debounce_steps(
    counts: Seq<nat>,
    times: nat,
    inputs: Seq<bool>,
    outputs: Seq<bool>,
) -> bool {
    &&& counts.len() == inputs.len() + 1
    &&& outputs.len() == inputs.len()
    &&& forall|i: int|
        0 <= i < inputs.len() ==> (counts[i + 1], outputs[i]) == #[trigger] debounce_spec(
            counts[i],
            times,
            inputs[i],
        )
}

/// After a voice decision followed only by silence, the counter after step
/// `j` counts the silent steps so far, up to the tolerance.
proof fn lemma_debounce_counter(
    counts: Seq<nat>,
    times: nat,
    inputs: Seq<bool>,
    outputs: Seq<bool>,
    j: int,
)
    requires
        debounce_steps(counts, times, inputs, outputs),
        1 <= j <= inputs.len(),
        inputs[0],
        forall|i: int| 0 < i < inputs.len() ==> !#[trigger] inputs[i],
    ensures
        counts[j] == if j - 1 <= times {
            j - 1
        } else {
            times as int
        },
    decreases j,
{
    assert((counts[1], outputs[0]) == debounce_spec(counts[0], times, inputs[0]));
    if j > 1 {
        lemma_debounce_counter(counts, times, inputs, outputs, j - 1);
        assert(!inputs[j - 1]);
        assert((counts[j], outputs[j - 1]) == debounce_spec(counts[j - 1], times, inputs[j - 1]));
    }
}

/// The debounce holds a recording open for exactly `times` silent chunks,
/// over successive calls of [`VadState::debounce`]: after a voice decision (which counts as voice), the `i`-th silent
/// decision that follows still counts as voice exactly when `i <= times`;
/// a silent decision that no longer counts leaves the counter as it was, so
/// silence keeps counting as silence until the next voice decision.
pub proof fn lemma_debounce_hangover(
    counts: Seq<nat>,
    times: nat,
    inputs: Seq<bool>,
    outputs: Seq<bool>,
)
    requires
        debounce_steps(counts, times, inputs, outputs),
        inputs.len() >= 1,
        inputs[0],
        forall|i: int| 0 < i < inputs.len() ==> !#[trigger] inputs[i],
    ensures
        outputs[0],
        forall|i: int| 0 < i < inputs.len() ==> #[trigger] outputs[i] == (i <= times),
        forall|i: int| 0 <= i < inputs.len() && !#[trigger] outputs[i] ==> counts[i + 1] == counts[i],
{
    assert((counts[1], outputs[0]) == debounce_spec(counts[0], times, inputs[0]));
    assert forall|i: int| 0 < i < inputs.len() implies #[trigger] outputs[i] == (i <= times) by {
        lemma_debounce_counter(counts, times, inputs, outputs, i);
        assert(!inputs[i]);
        assert((counts[i + 1], outputs[i]) == debounce_spec(counts[i], times, inputs[i]));
    }
    assert forall|i: int| 0 <= i < inputs.len() && !#[trigger] outputs[i] implies counts[i + 1]
        == counts[i] by {
        assert((counts[i + 1], outputs[i]) == debounce_spec(counts[i], times, inputs[i]));
    }
}

/// Successive detector steps: step `i` took `models[i]` to `models[i + 1]`
/// on `chunks[i]` with WebRTC verdict `verdicts[i]`, reporting `events[i]`.
pub open spec fn successive_steps(
    models: Seq<VadModel>,
    verdicts: Seq<bool>,
    chunks: Seq<Seq<i16>>,
    events: Seq<VadEventView>,
) -> bool {
    &&& verdicts.len() == chunks.len()
    &&& events.len() == chunks.len()
    &&& models.len() == chunks.len() + 1
    &&& forall|i: int|
        0 <= i < chunks.len() ==> (models[i + 1], events[i]) == #[trigger] step_spec(
            models[i],
            verdicts[i],
            chunks[i],
        )
}

/// While a recording runs, the detector holds exactly the chunks since its
/// `Start`.
proof fn lemma_recording_holds_its_chunks(
    models: Seq<VadModel>,
    verdicts: Seq<bool>,
    chunks: Seq<Seq<i16>>,
    events: Seq<VadEventView>,
    j: int,
)
    requires
        successive_steps(models, verdicts, chunks, events),
        1 <= j <= chunks.len(),
        events[0] is Start,
        forall|i: int| 0 < i < j ==> #[trigger] events[i] is Recording,
    ensures
        models[j].in_voice,
        models[j].buffer == concat(chunks.take(j)),
    decreases j,
{
    assert((models[1], events[0]) == step_spec(models[0], verdicts[0], chunks[0]));
    if j == 1 {
        let first = chunks.take(1);
        assert(first.drop_last() =~= Seq::<Seq<i16>>::empty());
        assert(first.last() == chunks[0]);
        assert(concat(first.drop_last()) =~= Seq::<i16>::empty());
        assert(concat(first) == concat(first.drop_last()) + first.last());
        assert(Seq::<i16>::empty() + chunks[0] =~= chunks[0]);
    } else {
        lemma_recording_holds_its_chunks(models, verdicts, chunks, events, j - 1);
        assert(events[j - 1] is Recording);
        assert((models[j], events[j - 1]) == step_spec(models[j - 1], verdicts[j - 1], chunks[j - 1]));
        assert(chunks.take(j).drop_last() =~= chunks.take(j - 1));
        assert(chunks.take(j).last() == chunks[j - 1]);
    }
}

/// A recording hands back exactly its chunks: when one step reports
/// `Start`, the following steps report `Recording`, and the last one reports
/// `End(v)`, then `v` is the chunks from the `Start` up to the one before
/// the `End`, concatenated in order. Nothing from before the `Start` or from
/// the ending chunk is in it, and the detector is left idle and empty, so
/// the next `Start` begins a fresh recording.
pub proof fn lemma_recording_returns_its_chunks(
    models: Seq<VadModel>,
    verdicts: Seq<bool>,
    chunks: Seq<Seq<i16>>,
    events: Seq<VadEventView>,
)
    requires
        successive_steps(models, verdicts, chunks, events),
        chunks.len() >= 2,
        events[0] is Start,
        forall|i: int| 0 < i < chunks.len() - 1 ==> #[trigger] events[i] is Recording,
        events.last() is End,
    ensures
        events.last() == VadEventView::End(concat(chunks.drop_last())),
        !models.last().in_voice,
        models.last().buffer.len() == 0,
{
    let n = chunks.len() - 1;
    lemma_recording_holds_its_chunks(models, verdicts, chunks, events, n);
    assert((models[n + 1], events[n]) == step_spec(models[n], verdicts[n], chunks[n]));
    assert(chunks.take(n) =~= chunks.drop_last());
}

/// A chunk that WebRTC hears as voice and that holds a sample farther from
/// zero than the threshold, anywhere in it, opens a recording holding the
/// chunk when the detector is idle.
pub proof fn lemma_loud_voice_opens_recording(s: VadModel, data: Seq<i16>, i: int)
    requires
        !s.in_voice,
        0 <= i < data.len(),
        data[i] > s.threshold || data[i] < -s.threshold,
    ensures
        step_spec(s, true, data).1 == VadEventView::Start,
        step_spec(s, true, data).0.in_voice,
        step_spec(s, true, data).0.buffer == data,
{
    lemma_loud_chunk(data, s.threshold);
    lemma_voice_chunk_is_recorded(s, data);
}

/// Debounced detector state: everything but the WebRTC instance.
pub struct VadState {
    debounce_count: usize,
    debounce_times: usize,
    threshold: u16,
    in_voice: bool,
    buffer: Vec<i16>,
}

impl View for VadState {
    type V = VadModel;

    closed spec fn view(&self) -> VadModel {
        VadModel {
            debounce_count: self.debounce_count as nat,
            debounce_times: self.debounce_times as nat,
            threshold: self.threshold as int,
            in_voice: self.in_voice,
            buffer: self.buffer@,
        }
    }
}

/// Whether some sample of `data` is louder than `threshold`.
pub fn exceeds_threshold(data: &[i16], threshold: u16) -> (res: bool)
    ensures
        res == exceeds_threshold_spec(data@, threshold as int),
        res <==> exists|i: int|
            0 <= i < data@.len() && (#[trigger] data@[i] > threshold || data@[i] < -(
            threshold as int)),
{
    proof {
        lemma_loud_chunk(data@, threshold as int);
    }
    let mut i: usize = 0;
    while i < data.len()
        invariant
            i <= data.len(),
            forall|j: int| 0 <= j < i ==> magnitude(#[trigger] data@[j]) <= threshold,
        decreases data.len() - i,
    {
        let s = data[i];
        let m: i32 = if s < 0 {
            -(s as i32)
        } else {
            s as i32
        };
        if m > threshold as i32 {
            assert(magnitude(data@[i as int]) > threshold);
            return true;
        }
        i += 1;
    }
    false
}

/// Builds the fixed-length frame that WebRTC examines for a chunk.
pub fn vad_frame(data: &[i16]) -> (res: Vec<i16>)
    ensures
        res@ == vad_frame_spec(data@),
{
    let mut res: Vec<i16> = Vec::new();
    let mut i: usize = 0;
    while i < VAD_FRAME_SAMPLES
        invariant
            i <= VAD_FRAME_SAMPLES,
            res@.len() == i,
            forall|j: int| 0 <= j < i ==> res@[j] == vad_frame_spec(data@)[j],
        decreases VAD_FRAME_SAMPLES - i,
    {
        if i < data.len() {
            res.push(data[i]);
        } else {
            res.push(0);
        }
        i += 1;
    }
    assert(res@ =~= vad_frame_spec(data@));
    res
}

impl VadState {
    /// A detector that is not recording, with the given amplitude threshold
    /// and silence tolerance. Its silence tolerance starts used up, so the
    /// first silent chunk is reported as `Pending`, never as `Start`.
    pub fn new(threshold: u16, debounce_times: usize) -> (res: VadState)
        ensures
            res@.debounce_count == debounce_times,
            res@.debounce_times == debounce_times,
            res@.threshold == threshold,
            !res@.in_voice,
            res@.buffer == Seq::<i16>::empty(),
    {
        VadState {
            debounce_count: debounce_times,
            debounce_times,
            threshold,
            in_voice: false,
            buffer: Vec::new(),
        }
    }

    /// Whether a recording is open.
    pub fn in_voice(&self) -> (res: bool)
        ensures
            res == self@.in_voice,
    {
        self.in_voice
    }

    /// Debounces a voice decision: voice resets the silence counter; silence
    /// still counts as voice until `debounce_times` silent chunks were seen.
    pub fn debounce(&mut self, is_voice: bool) -> (res: bool)
        ensures
            (final(self)@.debounce_count, res) == debounce_spec(
                old(self)@.debounce_count,
                old(self)@.debounce_times,
                is_voice,
            ),
            final(self)@.debounce_times == old(self)@.debounce_times,
            final(self)@.threshold == old(self)@.threshold,
            final(self)@.in_voice == old(self)@.in_voice,
            final(self)@.buffer == old(self)@.buffer,
    {
        if !is_voice {
            if self.debounce_count >= self.debounce_times {
                return false;
            }
            self.debounce_count += 1;
            return true;
        }
        self.debounce_count = 0;
        true
    }

    /// Advances the detector by one chunk, given the WebRTC verdict on it.
    pub fn step(&mut self, webrtc_voice: bool, data: &[i16]) -> (res: VadEvent)
        ensures
            (final(self)@, res@) == step_spec(old(self)@, webrtc_voice, data@),
    {
        let loud = exceeds_threshold(data, self.threshold);
        let current_voice = self.debounce(webrtc_voice && loud);
        let prev_voice = self.in_voice;
        if !prev_voice && current_voice {
            self.in_voice = true;
            self.buffer.clear();
            append_samples(&mut self.buffer, data);
            assert(self.buffer@ =~= data@);
            VadEvent::Start
        } else if prev_voice && current_voice {
            append_samples(&mut self.buffer, data);
            VadEvent::Recording
        } else if prev_voice && !current_voice {
            self.in_voice = false;
            let mut voice_data: Vec<i16> = Vec::new();
            std::mem::swap(&mut voice_data, &mut self.buffer);
            VadEvent::End(voice_data)
        } else {
            VadEvent::Pending
        }
    }
}

/// Appends `data` to `buf`.
fn append_samples(buf: &mut Vec<i16>, data: &[i16])
    ensures
        final(buf)@ == old(buf)@ + data@,
{
    let ghost start = buf@;
    let mut i: usize = 0;
    while i < data.len()
        invariant
            i <= data.len(),
            buf@ == start + data@.take(i as int),
        decreases data.len() - i,
    {
        buf.push(data[i]);
        i += 1;
        assert(buf@ =~= start + data@.take(i as int));
    }
    assert(data@.take(data.len() as int) =~= data@);
}

/// Input sample rates that the WebRTC detector accepts.
#[derive(Clone, Copy, Debug, PartialEq, Eq, Structural)]
pub enum VadSampleRate {
    Rate8kHz,
    Rate16kHz,
    Rate32kHz,
    Rate48kHz,
}

#[verifier::external_type_specification]
#[verifier::external_body]
pub struct ExWebrtcVad(webrtc_vad::Vad);

/// Voice activity detector: WebRTC VAD at 16 kHz, an amplitude threshold and
/// a debounce over silent chunks.
pub struct VadWrapper {
    vad: webrtc_vad::Vad,
    setup: Ghost<(VadSampleRate, VadMode)>,
    judged: Ghost<Seq<Seq<i16>>>,
    answers: Ghost<Seq<Option<bool>>>,
    state: VadState,
}

/// Calls `webrtc_vad::Vad::new_with_rate_and_mode`, converting the rate and
/// the mode variant for variant, and puts the new WebRTC instance in a
/// detector with the debounced `state`. The detector's record of its
/// configuration is the rate and the mode the call was made with, and its
/// histories of judged frames and answers start empty; nothing else is
/// claimed of the WebRTC instance.
#[verifier::external_body]
fn new_detector(rate: VadSampleRate, mode: VadMode, state: VadState) -> (res: VadWrapper)
    ensures
        res.setup@ == (rate, mode),
        res.judged@ == Seq::<Seq<i16>>::empty(),
        res.answers@ == Seq::<Option<bool>>::empty(),
        res.state == state,
{
    let r = match rate {
        VadSampleRate::Rate8kHz => WebrtcRate::Rate8kHz,
        VadSampleRate::Rate16kHz => WebrtcRate::Rate16kHz,
        VadSampleRate::Rate32kHz => WebrtcRate::Rate32kHz,
        VadSampleRate::Rate48kHz => WebrtcRate::Rate48kHz,
    };
    let m = match mode {
        VadMode::Quality => WebrtcMode::Quality,
        VadMode::LowBitrate => WebrtcMode::LowBitrate,
        VadMode::Aggressive => WebrtcMode::Aggressive,
        VadMode::VeryAggressive => WebrtcMode::VeryAggressive,
    };
    let vad = webrtc_vad::Vad::new_with_rate_and_mode(r, m);
    VadWrapper { vad, setup: Ghost((rate, mode)), judged: Ghost(Seq::empty()), answers: Ghost(Seq::empty()), state }
}

/// Calls `webrtc_vad::Vad::is_voice_segment` on the detector's WebRTC
/// instance with `frame` (the call indexes the first sample, hence the
/// non-empty frame), and appends the frame and the answer to the detector's
/// histories; the call's `Err(())` comes back as `None`. The crate documents
/// that error for unsupported frame lengths only, so a 10 ms frame (160
/// samples) at 16 kHz always gets an answer. Which verdict comes back
/// depends on the instance's internal history and is not claimed.
#[verifier::external_body]
fn webrtc_judge(w: &mut VadWrapper, frame: &[i16]) -> (res: Option<bool>)
    requires
        frame@.len() > 0,
    ensures
        final(w).judged@ == old(w).judged@.push(frame@),
        final(w).answers@ == old(w).answers@.push(res),
        final(w).setup == old(w).setup,
        final(w).state == old(w).state,
        old(w).setup@.0 == VadSampleRate::Rate16kHz && frame@.len() == 160 ==> res is Some,
{
    let res = w.vad.is_voice_segment(frame).ok();
    proof {
        w.judged@ = w.judged@.push(frame@);
        w.answers@ = w.answers@.push(res);
    }
    res
}

/// What an answer of WebRTC counts as: its verdict, or silence when it gave
/// none.
pub open spec fn answer_verdict(answer: Option<bool>) -> bool {
    match answer {
        Some(v) => v,
        None => false,
    }
}

/// One call of [`VadWrapper::segment_parse`] on `data`, reporting `event`:
/// WebRTC was asked once, about the chunk's frame, and the detector stepped
/// on the answer it gave.
pub open spec fn parse_step(
    before: VadWrapper,
    data: Seq<i16>,
    event: VadEventView,
    after: VadWrapper,
) -> bool {
    &&& after.answers().len() == before.answers().len() + 1
    &&& after.answers().drop_last() == before.answers()
    &&& (before.rate() == VadSampleRate::Rate16kHz ==> after.answers().last() is Some)
    &&& after.judged() == before.judged().push(vad_frame_spec(data))
    &&& after.rate() == before.rate()
    &&& after.mode() == before.mode()
    &&& (after.model(), event) == step_spec(
        before.model(),
        answer_verdict(after.answers().last()),
        data,
    )
}

impl VadWrapper {
    /// The debounced state of the detector.
    pub closed spec fn model(&self) -> VadModel {
        self.state@
    }

    /// The sample rate the WebRTC detector was configured with.
    pub closed spec fn rate(&self) -> VadSampleRate {
        self.setup@.0
    }

    /// The aggressiveness the WebRTC detector was configured with.
    pub closed spec fn mode(&self) -> VadMode {
        self.setup@.1
    }

    /// The frames handed to WebRTC so far, oldest first.
    pub closed spec fn judged(&self) -> Seq<Seq<i16>> {
        self.judged@
    }

    /// The answers WebRTC gave so far, oldest first (`None` for an error).
    pub closed spec fn answers(&self) -> Seq<Option<bool>> {
        self.answers@
    }

    /// Creates a detector configured from the VAD settings of
    /// `config_manager`: WebRTC at 16 kHz in the configured mode, not
    /// recording, with the silence tolerance used up.
    pub fn new(config_manager: &ConfigManager) -> (res: VadWrapper)
        ensures
            res.rate() == VadSampleRate::Rate16kHz,
            res.mode() == config_manager.current().vad.mode,
            res.judged() == Seq::<Seq<i16>>::empty(),
            res.answers() == Seq::<Option<bool>>::empty(),
            res.model().debounce_count == config_manager.current().vad.debounce_times,
            res.model().debounce_times == config_manager.current().vad.debounce_times,
            res.model().threshold == config_manager.current().vad.threshold_level,
            !res.model().in_voice,
            res.model().buffer == Seq::<i16>::empty(),
    {
        let config = config_manager.config();
        let state = VadState::new(config.vad.threshold_level, config.vad.debounce_times);
        new_detector(VadSampleRate::Rate16kHz, config.vad.mode, state)
    }

    /// Processes one chunk of 16 kHz audio: WebRTC judges the chunk's
    /// 160-sample frame, then the detector advances as [`step_spec`] states
    /// for WebRTC's answer (an error, which a detector at 16 kHz never gives,
    /// would count as silence).
    pub fn segment_parse(&mut self, data: &[i16]) -> (res: VadEvent)
        ensures
            parse_step(*old(self), data@, res@, *final(self)),
    {
        let frame = vad_frame(data);
        let answer = webrtc_judge(self, frame.as_slice());
        let verdict = match answer {
            Some(v) => v,
            None => false,
        };
        assert(self.answers@.drop_last() =~= old(self).answers@);
        let ghost before = self.state@;
        let ev = self.state.step(verdict, data);
        assert(before == old(self).model());
        ev
    }
}

/// A recording hands back exactly its chunks, over successive calls of
/// [`VadWrapper::segment_parse`]: when one call reports `Start`, the
/// following calls report `Recording`, and the last one reports `End(v)`,
/// then `v` is the chunks from the `Start` up to the one before the `End`,
/// concatenated in order, whatever WebRTC answered. The detector is left
/// idle and empty, so the next `Start` begins a fresh recording.
pub proof fn lemma_segment_parse_returns_recordings(
    detectors: Seq<VadWrapper>,
    chunks: Seq<Seq<i16>>,
    events: Seq<VadEventView>,
)
    requires
        detectors.len() == chunks.len() + 1,
        events.len() == chunks.len(),
        chunks.len() >= 2,
        forall|i: int|
            0 <= i < chunks.len() ==> #[trigger] parse_step(
                detectors[i],
                chunks[i],
                events[i],
                detectors[i + 1],
            ),
        events[0] is Start,
        forall|i: int| 0 < i < chunks.len() - 1 ==> #[trigger] events[i] is Recording,
        events.last() is End,
    ensures
        events.last() == VadEventView::End(concat(chunks.drop_last())),
        !detectors.last().model().in_voice,
        detectors.last().model().buffer.len() == 0,
{
    let models = Seq::new(detectors.len(), |i: int| detectors[i].model());
    let verdicts = Seq::new(
        chunks.len(),
        |i: int| answer_verdict(detectors[i + 1].answers().last()),
    );
    assert forall|i: int| 0 <= i < chunks.len() implies (models[i + 1], events[i])
        == #[trigger] step_spec(models[i], verdicts[i], chunks[i]) by {
        assert(parse_step(detectors[i], chunks[i], events[i], detectors[i + 1]));
    }
    lemma_recording_returns_its_chunks(models, verdicts, chunks, events);
}

} // verus!
