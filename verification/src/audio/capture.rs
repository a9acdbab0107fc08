//! Cutting captured audio into 10 ms chunks and feeding them to the voice
//! detector.

use vstd::prelude::*;

use super::{concat, lemma_concat_append, lemma_concat_uniform_len, CHUNK_SIZE};
use crate::vad::{
    answer_verdict, lemma_run_push, parse_step, run_spec, step_spec, vad_frame_spec, VadEvent,
    VadEventView, VadWrapper,
};

verus! {

#[verifier::external_type_specification]
#[verifier::external_body]
#[verifier::reject_recursive_types(T)]
pub struct ExArrayVec<T, const CAP: usize>(arrayvec::ArrayVec<T, CAP>);

/// The samples held by a buffer of resampled audio, in order.
pub uninterp spec fn resample_buffer_items(b: arrayvec::ArrayVec<i16, 320>) -> Seq<i16>;

/// Calls `arrayvec::ArrayVec::new`: an empty vector.
#[verifier::external_body]
fn resample_buffer_new() -> (res: arrayvec::ArrayVec<i16, 320>)
    ensures
        resample_buffer_items(res) == Seq::<i16>::empty(),
{
    arrayvec::ArrayVec::new()
}

/// Calls `arrayvec::ArrayVec::try_push`: below capacity the sample is
/// appended and `true` comes back; at capacity the vector is unchanged and
/// the `CapacityError` comes back as `false`.
#[verifier::external_body]
fn resample_buffer_try_push(b: &mut arrayvec::ArrayVec<i16, 320>, sample: i16) -> (res: bool)
    ensures
        resample_buffer_items(*old(b)).len() < 320 ==> res && resample_buffer_items(*final(b))
            == resample_buffer_items(*old(b)).push(sample),
        resample_buffer_items(*old(b)).len() >= 320 ==> !res && resample_buffer_items(*final(b))
            == resample_buffer_items(*old(b)),
{
    b.try_push(sample).is_ok()
}

/// Calls `arrayvec::ArrayVec::as_slice`: the held samples.
#[verifier::external_body]
fn resample_buffer_as_slice(b: &arrayvec::ArrayVec<i16, 320>) -> (res: &[i16])
    ensures
        res@ == resample_buffer_items(*b),
{
    b.as_slice()
}

/// Calls `arrayvec::ArrayVec::drain` on `..n` and drops the iterator at
/// once, which removes the first `n` samples (the range is bounds-checked,
/// hence the `requires`).
#[verifier::external_body]
fn resample_buffer_drain_front(b: &mut arrayvec::ArrayVec<i16, 320>, n: usize)
    requires
        n <= resample_buffer_items(*old(b)).len(),
    ensures
        resample_buffer_items(*final(b)) == resample_buffer_items(*old(b)).skip(n as int),
{
    b.drain(..n);
}

/// Views of a vector of chunks.
pub open spec fn chunk_views(chunks: Seq<Vec<i16>>) -> Seq<Seq<i16>> {
    chunks.map_values(|c: Vec<i16>| c@)
}

/// Buffer (two chunks long) that collects resampled audio until whole
/// chunks are available.
pub struct ChunkBuffer {
    buf: arrayvec::ArrayVec<i16, 320>,
}

/// One feed of a chunk buffer: the samples that were waiting (`before`)
/// followed by the new `samples` came out as whole chunks of `CHUNK_SIZE`,
/// in order, followed by fewer than a chunk's worth left waiting (`after`).
pub open spec fn cuts_chunks(
    before: Seq<i16>,
    samples: Seq<i16>,
    chunks: Seq<Seq<i16>>,
    after: Seq<i16>,
) -> bool {
    &&& forall|i: int| 0 <= i < chunks.len() ==> (#[trigger] chunks[i]).len() == CHUNK_SIZE
    &&& concat(chunks) + after == before + samples
    &&& after.len() < CHUNK_SIZE
}

/// Chaining feeds: the chunks of all feeds, in order, followed by what is
/// left waiting, are what was waiting at first followed by every input.
proof fn lemma_feeds_chain(
    inputs: Seq<Seq<i16>>,
    outputs: Seq<Seq<Seq<i16>>>,
    pendings: Seq<Seq<i16>>,
)
    requires
        outputs.len() == inputs.len(),
        pendings.len() == inputs.len() + 1,
        forall|i: int|
            0 <= i < inputs.len() ==> #[trigger] cuts_chunks(
                pendings[i],
                inputs[i],
                outputs[i],
                pendings[i + 1],
            ),
    ensures
        forall|i: int|
            0 <= i < concat(outputs).len() ==> (#[trigger] concat(outputs)[i]).len() == CHUNK_SIZE,
        concat(concat(outputs)) + pendings.last() == pendings[0] + concat(inputs),
    decreases inputs.len(),
{
    let n = inputs.len() as int;
    if n == 0 {
        assert(concat(concat(outputs)) =~= Seq::<i16>::empty());
        assert(pendings.last() == pendings[0]);
        assert(Seq::<i16>::empty() + pendings[0] =~= pendings[0] + Seq::<i16>::empty());
    } else {
        let ins = inputs.drop_last();
        let outs = outputs.drop_last();
        let ps = pendings.drop_last();
        assert forall|i: int| 0 <= i < ins.len() implies #[trigger] cuts_chunks(
            ps[i],
            ins[i],
            outs[i],
            ps[i + 1],
        ) by {
            assert(cuts_chunks(pendings[i], inputs[i], outputs[i], pendings[i + 1]));
        }
        lemma_feeds_chain(ins, outs, ps);
        let o = outputs.last();
        let x = inputs.last();
        let p = pendings[n - 1];
        let q = pendings.last();
        assert(cuts_chunks(pendings[n - 1], inputs[n - 1], outputs[n - 1], pendings[n]));
        assert(ps.last() == p);
        let c1 = concat(outs);
        let big1 = concat(c1);
        let i1 = concat(ins);
        assert(concat(outputs) == c1 + o);
        lemma_concat_append(c1, o);
        assert(concat(concat(outputs)) == big1 + concat(o));
        assert(concat(inputs) == i1 + x);
        assert(big1 + p == ps[0] + i1);
        assert(ps[0] == pendings[0]);
        assert(concat(o) + q == p + x);
        assert((big1 + concat(o)) + q =~= big1 + (concat(o) + q));
        assert(big1 + (p + x) =~= (big1 + p) + x);
        assert((pendings[0] + i1) + x =~= pendings[0] + (i1 + x));
        assert forall|i: int| 0 <= i < concat(outputs).len() implies (#[trigger] concat(
            outputs,
        )[i]).len() == CHUNK_SIZE by {
            if i >= c1.len() {
                assert(concat(outputs)[i] == o[i - c1.len()]);
            } else {
                assert(concat(outputs)[i] == c1[i]);
            }
        }
    }
}

/// Across successive feeds of one buffer that starts empty (as
/// [`process_with_resampling`] feeds it, handing each feed's chunks to the
/// detector), the chunks handed out, taken together in order, are exactly the first
/// `CHUNK_SIZE * m` samples of everything fed, where `m` is the number of
/// whole chunks in it: every chunk holds `CHUNK_SIZE` samples, no sample is
/// lost, duplicated or reordered, and the rest is what stays waiting.
pub proof fn lemma_successive_feeds(
    inputs: Seq<Seq<i16>>,
    outputs: Seq<Seq<Seq<i16>>>,
    pendings: Seq<Seq<i16>>,
)
    requires
        outputs.len() == inputs.len(),
        pendings.len() == inputs.len() + 1,
        pendings[0].len() == 0,
        forall|i: int|
            0 <= i < inputs.len() ==> #[trigger] cuts_chunks(
                pendings[i],
                inputs[i],
                outputs[i],
                pendings[i + 1],
            ),
    ensures
        forall|i: int|
            0 <= i < concat(outputs).len() ==> (#[trigger] concat(outputs)[i]).len() == CHUNK_SIZE,
        concat(outputs).len() == concat(inputs).len() / (CHUNK_SIZE as nat),
        concat(concat(outputs)) == concat(inputs).take(CHUNK_SIZE * concat(outputs).len()),
        pendings.last() == concat(inputs).skip(CHUNK_SIZE * concat(outputs).len()),
{
    lemma_feeds_chain(inputs, outputs, pendings);
    let all = concat(outputs);
    let big = concat(all);
    let total = concat(inputs);
    let q = pendings.last();
    lemma_concat_uniform_len(all, CHUNK_SIZE as nat);
    assert(pendings[0] =~= Seq::<i16>::empty());
    assert(pendings[0] + total =~= total);
    assert(big + q == total);
    if inputs.len() > 0 {
        let n = inputs.len() - 1;
        assert(n + 1 == pendings.len() - 1);
        assert(cuts_chunks(pendings[n], inputs[n], outputs[n], pendings[n + 1]));
        assert(q.len() < CHUNK_SIZE);
    } else {
        assert(q == pendings[0]);
    }
    assert(big.len() == CHUNK_SIZE * all.len());
    assert(total.len() == CHUNK_SIZE * all.len() + q.len());
    assert(all.len() == total.len() / (CHUNK_SIZE as nat));
    assert(total.take(big.len() as int) =~= big);
    assert(total.skip(big.len() as int) =~= q);
}

impl ChunkBuffer {
    /// A buffer never holds more than its capacity.
    #[verifier::type_invariant]
    spec fn within_capacity(self) -> bool {
        resample_buffer_items(self.buf).len() <= 320
    }

    /// The samples waiting for a chunk to fill.
    pub closed spec fn pending(&self) -> Seq<i16> {
        resample_buffer_items(self.buf)
    }

    /// An empty buffer.
    pub fn new() -> (res: ChunkBuffer)
        ensures
            res.pending() == Seq::<i16>::empty(),
    {
        ChunkBuffer { buf: resample_buffer_new() }
    }

    /// Number of samples waiting.
    pub fn len(&self) -> (res: usize)
        ensures
            res == self.pending().len(),
    {
        resample_buffer_as_slice(&self.buf).len()
    }

    /// Appends resampled samples and cuts out every whole chunk, oldest
    /// first. When the buffer is full, its oldest chunk is cut out before the
    /// next sample goes in. Nothing is lost or reordered: the chunks followed
    /// by what stays pending are the old pending samples followed by
    /// `samples`, and fewer than a chunk's worth stays pending.
    pub fn feed(&mut self, samples: &[i16]) -> (chunks: Vec<Vec<i16>>)
        ensures
            cuts_chunks(old(self).pending(), samples@, chunk_views(chunks@), final(self).pending()),
    {
        proof {
            use_type_invariant(&*self);
        }
        let mut buf = resample_buffer_new();
        std::mem::swap(&mut buf, &mut self.buf);
        let chunks = cut_chunks(&mut buf, samples);
        self.buf = buf;
        chunks
    }
}

/// Copies out the first chunk of a buffer.
fn first_chunk(buf: &arrayvec::ArrayVec<i16, 320>) -> (res: Vec<i16>)
    requires
        resample_buffer_items(*buf).len() >= CHUNK_SIZE,
    ensures
        res@ == resample_buffer_items(*buf).take(CHUNK_SIZE as int),
{
    let items = resample_buffer_as_slice(buf);
    let mut res: Vec<i16> = Vec::new();
    let mut i: usize = 0;
    while i < CHUNK_SIZE
        invariant
            i <= CHUNK_SIZE,
            CHUNK_SIZE <= items@.len(),
            items@ == resample_buffer_items(*buf),
            res@ == items@.take(i as int),
        decreases CHUNK_SIZE - i,
    {
        res.push(items[i]);
        i += 1;
        assert(res@ =~= items@.take(i as int));
    }
    res
}

/// Appends `samples` to the buffer and cuts out every whole chunk, cutting
/// out the oldest chunk first whenever the buffer is full.
fn cut_chunks(buf: &mut arrayvec::ArrayVec<i16, 320>, samples: &[i16]) -> (chunks: Vec<Vec<i16>>)
    requires
        resample_buffer_items(*old(buf)).len() <= 320,
    ensures
        cuts_chunks(
            resample_buffer_items(*old(buf)),
            samples@,
            chunk_views(chunks@),
            resample_buffer_items(*final(buf)),
        ),
{
    let ghost start = resample_buffer_items(*buf);
    let mut chunks: Vec<Vec<i16>> = Vec::new();
    let mut i: usize = 0;
    while i < samples.len()
        invariant
            i <= samples.len(),
            resample_buffer_items(*buf).len() <= 320,
            forall|k: int| 0 <= k < chunks@.len() ==> (#[trigger] chunks@[k])@.len() == CHUNK_SIZE,
            concat(chunk_views(chunks@)) + resample_buffer_items(*buf) == start + samples@.take(
                i as int,
            ),
        decreases samples.len() - i,
    {
        let sample = samples[i];
        let ghost before = resample_buffer_items(*buf);
        let ghost cv = chunk_views(chunks@);
        if !resample_buffer_try_push(buf, sample) {
            let old_chunk = first_chunk(buf);
            resample_buffer_drain_front(buf, CHUNK_SIZE);
            let ok = resample_buffer_try_push(buf, sample);
            chunks.push(old_chunk);
            proof {
                assert(chunk_views(chunks@) =~= cv.push(before.take(CHUNK_SIZE as int)));
                assert(chunk_views(chunks@).drop_last() =~= cv);
                assert(resample_buffer_items(*buf) =~= before.skip(CHUNK_SIZE as int).push(sample));
                assert(before.take(CHUNK_SIZE as int) + before.skip(CHUNK_SIZE as int) =~= before);
                assert(concat(chunk_views(chunks@)) == concat(cv) + before.take(CHUNK_SIZE as int));
                assert(concat(chunk_views(chunks@)) + resample_buffer_items(*buf) =~= (concat(cv)
                    + before).push(sample));
            }
        } else {
            proof {
                assert(concat(cv) + resample_buffer_items(*buf) =~= (concat(cv) + before).push(
                    sample,
                ));
            }
        }
        i += 1;
        proof {
            assert(samples@.take(i as int) =~= samples@.take(i - 1).push(sample));
            assert(start + samples@.take(i as int) =~= (start + samples@.take(i - 1)).push(sample));
        }
    }
    while resample_buffer_as_slice(buf).len() >= CHUNK_SIZE
        invariant
            resample_buffer_items(*buf).len() <= 320,
            forall|k: int| 0 <= k < chunks@.len() ==> (#[trigger] chunks@[k])@.len() == CHUNK_SIZE,
            concat(chunk_views(chunks@)) + resample_buffer_items(*buf) == start + samples@,
        decreases resample_buffer_items(*buf).len(),
    {
        let ghost before = resample_buffer_items(*buf);
        let ghost cv = chunk_views(chunks@);
        let chunk = first_chunk(buf);
        resample_buffer_drain_front(buf, CHUNK_SIZE);
        chunks.push(chunk);
        proof {
            assert(chunk_views(chunks@) =~= cv.push(before.take(CHUNK_SIZE as int)));
            assert(chunk_views(chunks@).drop_last() =~= cv);
            assert(before.take(CHUNK_SIZE as int) + before.skip(CHUNK_SIZE as int) =~= before);
            assert(concat(chunk_views(chunks@)) == concat(cv) + before.take(CHUNK_SIZE as int));
            assert(concat(chunk_views(chunks@)) + resample_buffer_items(*buf) =~= concat(cv)
                + before);
        }
    }
    proof {
        assert(samples@.take(samples@.len() as int) =~= samples@);
        assert forall|k: int| 0 <= k < chunk_views(chunks@).len() implies (#[trigger] chunk_views(
            chunks@,
        )[k]).len() == CHUNK_SIZE by {
            assert(chunk_views(chunks@)[k] == chunks@[k]@);
        }
    }
    chunks
}

/// Pairs each chunk with the WebRTC verdict it got.
pub open spec fn detector_inputs(verdicts: Seq<bool>, chunks: Seq<Seq<i16>>) -> Seq<(bool, Seq<i16>)> {
    Seq::new(chunks.len(), |i: int| (verdicts[i], chunks[i]))
}

/// The events that are forwarded: all but `Pending`.
pub open spec fn forwarded_events(es: Seq<VadEventView>) -> Seq<VadEventView>
    decreases es.len(),
{
    if es.len() == 0 {
        Seq::empty()
    } else if es.last() is Pending {
        forwarded_events(es.drop_last())
    } else {
        forwarded_events(es.drop_last()).push(es.last())
    }
}

/// Views of a vector of events.
pub open spec fn event_views(es: Seq<VadEvent>) -> Seq<VadEventView> {
    es.map_values(|e: VadEvent| e@)
}

/// The verdicts that WebRTC's answers count as.
pub open spec fn answer_verdicts(answers: Seq<Option<bool>>) -> Seq<bool> {
    answers.map_values(|a: Option<bool>| answer_verdict(a))
}

/// The detector went from `before` to `after` by one
/// [`VadWrapper::segment_parse`] step per chunk of `chunks`, in order:
/// WebRTC was asked once per chunk, about its frame, the detector ran over
/// the chunks paired with the answers WebRTC gave, and `forwarded` are the
/// run's non-`Pending` events.
pub open spec fn detector_ran(
    before: VadWrapper,
    chunks: Seq<Seq<i16>>,
    after: VadWrapper,
    forwarded: Seq<VadEventView>,
) -> bool {
    let n0 = before.answers().len() as int;
    let verdicts = answer_verdicts(after.answers().skip(n0));
    let (s, es) = run_spec(before.model(), detector_inputs(verdicts, chunks));
    &&& after.answers().len() == n0 + chunks.len()
    &&& after.answers().take(n0) == before.answers()
    &&& after.judged() == before.judged() + chunks.map_values(|c: Seq<i16>| vad_frame_spec(c))
    &&& after.rate() == before.rate()
    &&& after.mode() == before.mode()
    &&& after.model() == s
    &&& forwarded == forwarded_events(es)
}

/// Hands one chunk to the detector. A chunk that is not exactly
/// `CHUNK_SIZE` samples long is ignored and the detector left as it is;
/// otherwise the detector takes one [`VadWrapper::segment_parse`] step, and
/// its event comes back unless it is `Pending`.
pub fn send_chunk_to_vad(chunk: &[i16], vad: &mut VadWrapper) -> (res: Option<VadEvent>)
    ensures
        chunk@.len() != CHUNK_SIZE ==> res is None && *final(vad) == *old(vad),
        chunk@.len() == CHUNK_SIZE ==> ({
            let e = step_spec(
                old(vad).model(),
                answer_verdict(final(vad).answers().last()),
                chunk@,
            ).1;
            &&& parse_step(*old(vad), chunk@, e, *final(vad))
            &&& (e is Pending ==> res is None)
            &&& (!(e is Pending) ==> (res matches Some(r) && r@ == e))
        }),
{
    if chunk.len() != CHUNK_SIZE {
        return None;
    }
    let ev = vad.segment_parse(chunk);
    match ev {
        VadEvent::Pending => None,
        _ => Some(ev),
    }
}

/// Hands each chunk to the detector in order and collects the events that
/// are forwarded: the detector runs over the chunks paired with the answers
/// WebRTC gave, and the result is that run's non-`Pending` events.
pub fn feed_chunks(chunks: &Vec<Vec<i16>>, vad: &mut VadWrapper) -> (res: Vec<VadEvent>)
    requires
        forall|i: int| 0 <= i < chunks@.len() ==> (#[trigger] chunks@[i])@.len() == CHUNK_SIZE,
    ensures
        detector_ran(*old(vad), chunk_views(chunks@), *final(vad), event_views(res@)),
{
    let ghost v0 = *vad;
    let ghost n0 = v0.answers().len() as int;
    let ghost cvs = chunk_views(chunks@);
    let mut res: Vec<VadEvent> = Vec::new();
    let mut i: usize = 0;
    proof {
        assert(v0.answers().skip(n0) =~= Seq::<Option<bool>>::empty());
        assert(v0.answers().take(n0) =~= v0.answers());
        assert(detector_inputs(answer_verdicts(v0.answers().skip(n0)), cvs.take(0))
            =~= Seq::empty());
        assert(cvs.take(0).map_values(|c: Seq<i16>| vad_frame_spec(c)) =~= Seq::<Seq<i16>>::empty());
        assert(v0.judged() + Seq::<Seq<i16>>::empty() =~= v0.judged());
        assert(event_views(res@) =~= forwarded_events(Seq::empty()));
    }
    while i < chunks.len()
        invariant
            i <= chunks@.len(),
            forall|k: int| 0 <= k < chunks@.len() ==> (#[trigger] chunks@[k])@.len() == CHUNK_SIZE,
            cvs == chunk_views(chunks@),
            n0 == v0.answers().len(),
            detector_ran(v0, cvs.take(i as int), *vad, event_views(res@)),
        decreases chunks@.len() - i,
    {
        let ghost prev = *vad;
        let ghost inputs = detector_inputs(answer_verdicts(prev.answers().skip(n0)), cvs.take(i as int));
        let ghost es_before = run_spec(v0.model(), inputs).1;
        let ghost res_before = res@;
        assert(chunks@[i as int]@.len() == CHUNK_SIZE);
        let out = send_chunk_to_vad(chunks[i].as_slice(), vad);
        let ghost a = vad.answers().last();
        let ghost c = chunks@[i as int]@;
        let ghost (s_new, e_new) = step_spec(prev.model(), answer_verdict(a), c);
        match out {
            Some(ev) => {
                res.push(ev);
            },
            None => {},
        }
        proof {
            assert(parse_step(prev, c, e_new, *vad));
            assert(cvs[i as int] == c);
            let x = (answer_verdict(a), c);
            lemma_run_push(v0.model(), inputs, x);
            assert(vad.answers() =~= prev.answers().push(a));
            assert(vad.answers().skip(n0) =~= prev.answers().skip(n0).push(a));
            assert(vad.answers().take(n0) =~= prev.answers().take(n0));
            assert(answer_verdicts(vad.answers().skip(n0)) =~= answer_verdicts(
                prev.answers().skip(n0),
            ).push(answer_verdict(a)));
            assert(detector_inputs(answer_verdicts(vad.answers().skip(n0)), cvs.take(i + 1))
                =~= inputs.push(x));
            assert(cvs.take(i + 1).map_values(|c: Seq<i16>| vad_frame_spec(c)) =~= cvs.take(
                i as int,
            ).map_values(|c: Seq<i16>| vad_frame_spec(c)).push(vad_frame_spec(c)));
            assert(vad.judged() =~= v0.judged() + cvs.take(i + 1).map_values(
                |c: Seq<i16>| vad_frame_spec(c),
            ));
            let es_new = es_before.push(e_new);
            assert(run_spec(v0.model(), inputs.push(x)) == (s_new, es_new));
            assert(es_new.drop_last() =~= es_before);
            if e_new is Pending {
                assert(res@ == res_before);
                assert(forwarded_events(es_new) == forwarded_events(es_before));
            } else {
                assert(event_views(res@) =~= event_views(res_before).push(e_new));
                assert(forwarded_events(es_new) == forwarded_events(es_before).push(e_new));
            }
        }
        i += 1;
    }
    proof {
        assert(cvs.take(chunks@.len() as int) =~= cvs);
    }
    res
}

/// Processes resampled audio: buffers it, cuts whole chunks out of the
/// buffer and runs the detector over them, returning the events to forward.
pub fn process_with_resampling(
    resampled: &[i16],
    buffer: &mut ChunkBuffer,
    vad: &mut VadWrapper,
) -> (res: Vec<VadEvent>)
    ensures
        exists|chunks: Seq<Seq<i16>>|
            {
                &&& #[trigger] cuts_chunks(
                    old(buffer).pending(),
                    resampled@,
                    chunks,
                    final(buffer).pending(),
                )
                &&& detector_ran(*old(vad), chunks, *final(vad), event_views(res@))
            },
{
    let chunks = buffer.feed(resampled);
    proof {
        assert forall|i: int| 0 <= i < chunks@.len() implies (#[trigger] chunks@[i])@.len()
            == CHUNK_SIZE by {
            assert(chunk_views(chunks@)[i] == chunks@[i]@);
        }
    }
    let res = feed_chunks(&chunks, vad);
    proof {
        let cvs = chunk_views(chunks@);
        assert(cuts_chunks(old(buffer).pending(), resampled@, cvs, buffer.pending()));
    }
    res
}

/// `data` cut into consecutive whole chunks; a trailing partial chunk is
/// dropped.
pub open spec fn exact_chunks_spec(data: Seq<i16>) -> Seq<Seq<i16>> {
    Seq::new(
        data.len() / (CHUNK_SIZE as nat),
        |i: int| data.subrange(i * CHUNK_SIZE, i * CHUNK_SIZE + CHUNK_SIZE),
    )
}

/// The first `k` whole chunks of `data` are its first `160 * k` samples.
proof fn lemma_exact_chunks_prefix(data: Seq<i16>, k: int)
    requires
        0 <= k <= data.len() / 160,
    ensures
        concat(exact_chunks_spec(data).take(k)) == data.take(160 * k),
    decreases k,
{
    let cs = exact_chunks_spec(data);
    if k == 0 {
        assert(cs.take(0) =~= Seq::<Seq<i16>>::empty());
        assert(data.take(0) =~= Seq::<i16>::empty());
    } else {
        lemma_exact_chunks_prefix(data, k - 1);
        assert(cs.take(k).drop_last() =~= cs.take(k - 1));
        assert(160 * k <= 160 * (data.len() / 160)) by (nonlinear_arith)
            requires
                k <= data.len() / 160,
        ;
        assert(160 * (data.len() / 160) <= data.len()) by (nonlinear_arith);
        assert(cs.take(k).last() == data.subrange(160 * (k - 1), 160 * k));
        assert(data.take(160 * (k - 1)) + data.subrange(160 * (k - 1), 160 * k) =~= data.take(
            160 * k,
        ));
    }
}

/// Cutting into chunks covers every whole chunk of the input, in order:
/// there are `data.len() / 160` chunks of 160 samples each, and together
/// they are the first `160 * (data.len() / 160)` samples; only a trailing
/// partial chunk is left out.
pub proof fn lemma_exact_chunks(data: Seq<i16>)
    ensures
        exact_chunks_spec(data).len() == data.len() / 160,
        forall|i: int|
            0 <= i < exact_chunks_spec(data).len() ==> (#[trigger] exact_chunks_spec(data)[i]).len()
                == 160,
        concat(exact_chunks_spec(data)) == data.take(160 * (data.len() as int / 160)),
        data.len() - 160 * (data.len() / 160) < 160,
{
    let cs = exact_chunks_spec(data);
    let n = data.len() / 160;
    assert(160 * n <= data.len()) by (nonlinear_arith)
        requires
            n == data.len() / 160,
    ;
    assert forall|i: int| 0 <= i < cs.len() implies (#[trigger] cs[i]).len() == 160 by {
        assert(160 * i + 160 <= 160 * n) by (nonlinear_arith)
            requires
                i < n,
        ;
    }
    lemma_exact_chunks_prefix(data, n as int);
    assert(cs.take(n as int) =~= cs);
}

/// Cuts `data` into consecutive whole chunks, dropping a trailing partial
/// chunk.
pub fn exact_chunks(data: &[i16]) -> (res: Vec<Vec<i16>>)
    ensures
        chunk_views(res@) == exact_chunks_spec(data@),
        forall|i: int| 0 <= i < res@.len() ==> (#[trigger] res@[i])@.len() == CHUNK_SIZE,
        res@.len() == data@.len() / 160,
        concat(chunk_views(res@)) == data@.take(160 * (data@.len() as int / 160)),
{
    proof {
        lemma_exact_chunks(data@);
    }
    let n = data.len() / CHUNK_SIZE;
    let mut res: Vec<Vec<i16>> = Vec::new();
    let mut k: usize = 0;
    while k < n
        invariant
            n == data@.len() / (CHUNK_SIZE as nat),
            k <= n,
            res@.len() == k,
            forall|j: int| 0 <= j < k ==> (#[trigger] res@[j])@ == exact_chunks_spec(data@)[j],
            forall|j: int| 0 <= j < k ==> (#[trigger] res@[j])@.len() == CHUNK_SIZE,
        decreases n - k,
    {
        assert(k * CHUNK_SIZE + CHUNK_SIZE <= n * CHUNK_SIZE) by (nonlinear_arith)
            requires k < n;
        assert(n * CHUNK_SIZE <= data.len()) by (nonlinear_arith)
            requires n == data@.len() / (CHUNK_SIZE as nat);
        let base = k * CHUNK_SIZE;
        assert(base + CHUNK_SIZE <= data@.len());
        let mut chunk: Vec<i16> = Vec::new();
        let mut i: usize = 0;
        while i < CHUNK_SIZE
            invariant
                i <= CHUNK_SIZE,
                base + CHUNK_SIZE <= data.len(),
                chunk@ == data@.subrange(base as int, base + i),
            decreases CHUNK_SIZE - i,
        {
            chunk.push(data[base + i]);
            i += 1;
            assert(chunk@ =~= data@.subrange(base as int, base + i));
        }
        res.push(chunk);
        k += 1;
    }
    assert(chunk_views(res@) =~= exact_chunks_spec(data@));
    assert(res@.len() == chunk_views(res@).len());
    res
}

/// Processes 16 kHz audio that needs no resampling: each whole chunk goes
/// to the detector in order (a trailing partial chunk is dropped), and the
/// events to forward come back.
pub fn process_direct(data: &[i16], vad: &mut VadWrapper) -> (res: Vec<VadEvent>)
    ensures
        detector_ran(*old(vad), exact_chunks_spec(data@), *final(vad), event_views(res@)),
        final(vad).answers().len() == old(vad).answers().len() + data@.len() / 160,
{
    proof {
        lemma_exact_chunks(data@);
    }
    let chunks = exact_chunks(data);
    feed_chunks(&chunks, vad)
}

} // verus!
