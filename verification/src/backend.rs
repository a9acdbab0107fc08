//! Decisions of the backend: what to do on each voice event and on each
//! transcription, how transcription segments are joined, and how the
//! socket client backs off between connection attempts.

use vstd::prelude::*;

use crate::gui::{digit_char, digit_str};
use crate::messages::SocketMessage;
use crate::vad::VadEvent;
use vstd::arithmetic::power2::{lemma_pow2_pos, lemma_pow2_unfold, pow2};

verus! {

/// Recordings of at most this many samples (0.3 s at 16 kHz) are too short
/// to transcribe.
pub const MIN_VOICE_SAMPLES: usize = 4800;

/// Something the backend's event loop must do.
#[derive(Debug)]
pub enum BackendAction {
    /// Send a message to the frontend.
    Broadcast(SocketMessage),
    /// Turn the chatbox typing indicator on or off.
    SetTyping(bool),
    /// Transcribe this recording and report the outcome.
    Transcribe(Vec<i16>),
    /// Put this text into the chatbox.
    SendChat(String),
}

/// Mathematical view of a [`BackendAction`].
pub enum BackendActionView {
    Broadcast(SocketMessage),
    SetTyping(bool),
    Transcribe(Seq<i16>),
    SendChat(Seq<char>),
}

impl View for BackendAction {
    type V = BackendActionView;

    open spec fn view(&self) -> BackendActionView {
        match self {
            BackendAction::Broadcast(m) => BackendActionView::Broadcast(*m),
            BackendAction::SetTyping(b) => BackendActionView::SetTyping(*b),
            BackendAction::Transcribe(v) => BackendActionView::Transcribe(v@),
            BackendAction::SendChat(t) => BackendActionView::SendChat(t@),
        }
    }
}

/// Views of a vector of actions.
pub open spec fn action_views(actions: Seq<BackendAction>) -> Seq<BackendActionView> {
    actions.map_values(|a: BackendAction| a@)
}

/// A message broadcast with exactly this content.
pub open spec fn is_broadcast_of(a: BackendActionView, kind: SocketMessage) -> bool {
    a matches BackendActionView::Broadcast(m) && m == kind
}

/// Decimal digits of `n`, most significant first.
pub open spec fn decimal(n: nat) -> Seq<char>
    decreases n,
{
    if n < 10 {
        seq![digit_char(n as int)]
    } else {
        decimal(n / 10).push(digit_char((n % 10) as int))
    }
}

/// The error reported for a recording of `len` samples that is too short
/// to transcribe.
pub open spec fn too_short_message_spec(len: nat) -> Seq<char> {
    "Audio too short: "@ + decimal(len) + " samples"@
}

/// Appends the decimal digits of `n`.
fn push_decimal(s: &mut String, n: usize)
    ensures
        final(s)@ == old(s)@ + decimal(n as nat),
    decreases n,
{
    if n >= 10 {
        push_decimal(s, n / 10);
    }
    let d = (n % 10) as u32;
    s.append(digit_str(d));
    assert(final(s)@ =~= old(s)@ + decimal(n as nat));
}

/// The error reported for a recording of `len` samples that is too short
/// to transcribe, such as `Audio too short: 4800 samples`.
pub fn too_short_message(len: usize) -> (res: String)
    ensures
        res@ == too_short_message_spec(len as nat),
{
    let mut res = "Audio too short: ".to_owned();
    push_decimal(&mut res, len);
    res.append(" samples");
    assert(res@ =~= too_short_message_spec(len as nat));
    res
}

/// What the backend does on a voice event: on `Start` it tells the
/// frontend and shows the typing indicator; at the `End` of a long enough
/// recording it tells the frontend that transcription is under way and
/// transcribes; a too short recording is reported to the frontend as an
/// error and the indicator turned off; other events need nothing.
pub fn on_vad_event(event: VadEvent) -> (res: Vec<BackendAction>)
    ensures
        event is Start ==> action_views(res@) == seq![
            BackendActionView::Broadcast(SocketMessage::STTRecordStart),
            BackendActionView::SetTyping(true),
        ],
        event matches VadEvent::End(v) ==> (v@.len() > MIN_VOICE_SAMPLES ==> action_views(res@)
            == seq![
            BackendActionView::Broadcast(SocketMessage::STTRecordProcessing),
            BackendActionView::Transcribe(v@),
        ]),
        event matches VadEvent::End(v) ==> (v@.len() <= MIN_VOICE_SAMPLES ==> res@.len() == 2
            && (res@[0] matches BackendAction::Broadcast(SocketMessage::STTRecordEndWithError(m))
            && m@ == too_short_message_spec(v@.len())) && res@[1]@ == BackendActionView::SetTyping(
            false,
        )),
        (event is Pending || event is Recording) ==> res@.len() == 0,
{
    match event {
        VadEvent::Start => {
            let res = vec![
                BackendAction::Broadcast(SocketMessage::STTRecordStart),
                BackendAction::SetTyping(true),
            ];
            assert(action_views(res@) =~= seq![
                BackendActionView::Broadcast(SocketMessage::STTRecordStart),
                BackendActionView::SetTyping(true),
            ]);
            res
        },
        VadEvent::End(voice) => {
            let n = voice.len();
            if n > MIN_VOICE_SAMPLES {
                let ghost vv = voice@;
                let res = vec![
                    BackendAction::Broadcast(SocketMessage::STTRecordProcessing),
                    BackendAction::Transcribe(voice),
                ];
                assert(action_views(res@) =~= seq![
                    BackendActionView::Broadcast(SocketMessage::STTRecordProcessing),
                    BackendActionView::Transcribe(vv),
                ]);
                res
            } else {
                vec![
                    BackendAction::Broadcast(SocketMessage::STTRecordEndWithError(too_short_message(n))),
                    BackendAction::SetTyping(false),
                ]
            }
        },
        _ => Vec::new(),
    }
}

/// The error reported when transcription fails with `error`.
pub open spec fn transcription_failure_message(error: Seq<char>) -> Seq<char> {
    "Transcription failed: "@ + error
}

/// What the backend does with the outcome of a transcription: the text goes
/// to the chatbox and to the frontend; a failure is reported to the
/// frontend. Either way the typing indicator is turned off last.
pub fn on_transcription(outcome: Result<String, String>) -> (res: Vec<BackendAction>)
    ensures
        outcome matches Ok(t) ==> action_views(res@) == seq![
            BackendActionView::SendChat(t@),
            BackendActionView::Broadcast(SocketMessage::STTRecordEndWithText(t)),
            BackendActionView::SetTyping(false),
        ],
        outcome matches Err(e) ==> res@.len() == 2 && (res@[0] matches BackendAction::Broadcast(
            SocketMessage::STTRecordEndWithError(m),
        ) && m@ == transcription_failure_message(e@)) && res@[1]@ == BackendActionView::SetTyping(
            false,
        ),
{
    match outcome {
        Ok(text) => {
            let chat = text.clone();
            let res = vec![
                BackendAction::SendChat(chat),
                BackendAction::Broadcast(SocketMessage::STTRecordEndWithText(text)),
                BackendAction::SetTyping(false),
            ];
            assert(action_views(res@) =~= seq![
                BackendActionView::SendChat(text@),
                BackendActionView::Broadcast(SocketMessage::STTRecordEndWithText(text)),
                BackendActionView::SetTyping(false),
            ]);
            res
        },
        Err(error) => {
            let mut msg = "Transcription failed: ".to_owned();
            msg.append(error.as_str());
            vec![
                BackendAction::Broadcast(SocketMessage::STTRecordEndWithError(msg)),
                BackendAction::SetTyping(false),
            ]
        },
    }
}

/// The texts of the segments that could be read, joined in order.
pub open spec fn joined_segments(segments: Seq<Option<String>>) -> Seq<char>
    decreases segments.len(),
{
    if segments.len() == 0 {
        Seq::empty()
    } else {
        let rest = joined_segments(segments.drop_last());
        match segments.last() {
            Some(t) => rest + t@,
            None => rest,
        }
    }
}

/// Joins the text of the transcribed segments, in order, skipping segments
/// whose text could not be read (`None`).
pub fn collect_transcription(segments: &Vec<Option<String>>) -> (res: String)
    ensures
        res@ == joined_segments(segments@),
{
    let mut res = String::new();
    let mut i: usize = 0;
    while i < segments.len()
        invariant
            i <= segments@.len(),
            res@ == joined_segments(segments@.take(i as int)),
        decreases segments@.len() - i,
    {
        match &segments[i] {
            Some(t) => {
                res.append(t.as_str());
            },
            None => {},
        }
        i += 1;
        assert(segments@.take(i as int).drop_last() =~= segments@.take(i - 1));
    }
    assert(segments@.take(segments@.len() as int) =~= segments@);
    res
}

/// Delay before the first reconnection attempt, in milliseconds.
pub const INITIAL_RECONNECT_DELAY_MS: u64 = 500;

/// Longest delay between reconnection attempts, in milliseconds.
pub const MAX_RECONNECT_DELAY_MS: u64 = 30000;

/// The delay after `delay`: twice as long, up to the maximum.
pub open spec fn next_delay_spec(delay: nat) -> nat {
    if delay * 2 < MAX_RECONNECT_DELAY_MS {
        delay * 2
    } else {
        MAX_RECONNECT_DELAY_MS as nat
    }
}

/// The delay before each reconnection attempt when attempts keep failing:
/// `delays_after(n)` is the delay after `n` failed attempts.
pub open spec fn delays_after(n: nat) -> nat
    decreases n,
{
    if n == 0 {
        INITIAL_RECONNECT_DELAY_MS as nat
    } else {
        next_delay_spec(delays_after((n - 1) as nat))
    }
}

/// Doubles a reconnection delay, up to the maximum.
pub fn next_reconnect_delay_ms(delay_ms: u64) -> (res: u64)
    requires
        delay_ms <= u64::MAX / 2,
    ensures
        res == next_delay_spec(delay_ms as nat),
{
    let doubled = delay_ms * 2;
    if doubled < MAX_RECONNECT_DELAY_MS {
        doubled
    } else {
        MAX_RECONNECT_DELAY_MS
    }
}

/// One attempt with a backoff whose delay was `before`: a successful
/// connection (since closed) makes the wait the initial delay, a failure
/// waits `before`; the delay afterwards is the next one after the wait.
pub open spec fn attempt_step(before: nat, connected: bool, wait: nat, after: nat) -> bool {
    &&& wait == if connected {
        INITIAL_RECONNECT_DELAY_MS as nat
    } else {
        before
    }
    &&& after == next_delay_spec(wait)
}

/// The `n`-th wait (counting from 0) of a run of attempts: 500 ms doubled
/// `n` times, at most 30 s.
pub open spec fn backoff_wait(n: nat) -> nat {
    if (INITIAL_RECONNECT_DELAY_MS as nat) * pow2(n) < MAX_RECONNECT_DELAY_MS {
        (INITIAL_RECONNECT_DELAY_MS as nat) * pow2(n)
    } else {
        MAX_RECONNECT_DELAY_MS as nat
    }
}

/// Attempts since the start or since the last connection, up to attempt
/// `i`: zero when attempt `i` connected (or is the first).
pub open spec fn attempts_since(connected: Seq<bool>, i: int) -> nat
    decreases i,
{
    if i <= 0 || connected[i] {
        0
    } else {
        attempts_since(connected, i - 1) + 1
    }
}

/// The delay after the `n`-th wait of a run is the `n + 1`-th wait.
proof fn lemma_backoff_wait_next(n: nat)
    ensures
        next_delay_spec(backoff_wait(n)) == backoff_wait(n + 1),
{
    lemma_pow2_unfold(n + 1);
    lemma_pow2_pos(n);
    let p = pow2(n);
    assert(pow2(n + 1) == 2 * p);
    assert(500 * (2 * p) == 2 * (500 * p)) by (nonlinear_arith);
    assert(500 * p > 0) by (nonlinear_arith)
        requires
            p > 0,
    ;
}

/// Over successive attempts of one backoff that starts at the initial delay,
/// the wait after each attempt is 500 ms doubled once per failed attempt
/// since the start or since the last connection, at most 30 s; so a
/// connection restarts the sequence 500 ms, 1 s, 2 s, ..., 30 s.
pub proof fn lemma_successive_waits(delays: Seq<nat>, connected: Seq<bool>, waits: Seq<nat>)
    requires
        delays.len() == connected.len() + 1,
        waits.len() == connected.len(),
        delays[0] == INITIAL_RECONNECT_DELAY_MS,
        forall|i: int|
            0 <= i < connected.len() ==> #[trigger] attempt_step(
                delays[i],
                connected[i],
                waits[i],
                delays[i + 1],
            ),
    ensures
        forall|i: int|
            0 <= i < connected.len() ==> #[trigger] waits[i] == backoff_wait(
                attempts_since(connected, i),
            ),
{
    assert forall|i: int| 0 <= i < connected.len() implies #[trigger] waits[i] == backoff_wait(
        attempts_since(connected, i),
    ) by {
        lemma_wait_closed_form(delays, connected, waits, i);
    }
}

proof fn lemma_wait_closed_form(delays: Seq<nat>, connected: Seq<bool>, waits: Seq<nat>, i: int)
    requires
        delays.len() == connected.len() + 1,
        waits.len() == connected.len(),
        delays[0] == INITIAL_RECONNECT_DELAY_MS,
        forall|k: int|
            0 <= k < connected.len() ==> #[trigger] attempt_step(
                delays[k],
                connected[k],
                waits[k],
                delays[k + 1],
            ),
        0 <= i < connected.len(),
    ensures
        waits[i] == backoff_wait(attempts_since(connected, i)),
    decreases i,
{
    assert(attempt_step(delays[i], connected[i], waits[i], delays[i + 1]));
    assert(pow2(0) == 1) by {
        reveal(vstd::arithmetic::power::pow);
    }
    if i > 0 && !connected[i] {
        lemma_wait_closed_form(delays, connected, waits, i - 1);
        let k = i - 1;
        assert(attempt_step(delays[k], connected[k], waits[k], delays[k + 1]));
        assert(k + 1 == i);
        lemma_backoff_wait_next(attempts_since(connected, i - 1));
    }
}

/// Exponential backoff between connection attempts.
pub struct ReconnectBackoff {
    delay_ms: u64,
}

impl ReconnectBackoff {
    /// The delay never passes the maximum.
    #[verifier::type_invariant]
    spec fn within_maximum(self) -> bool {
        self.delay_ms <= MAX_RECONNECT_DELAY_MS
    }

    /// The delay that the next failed attempt will wait.
    pub closed spec fn delay(&self) -> nat {
        self.delay_ms as nat
    }

    /// Backoff before any attempt.
    pub fn new() -> (res: ReconnectBackoff)
        ensures
            res.delay() == INITIAL_RECONNECT_DELAY_MS,
    {
        ReconnectBackoff { delay_ms: INITIAL_RECONNECT_DELAY_MS }
    }

    /// After an attempt: returns how long to wait before the next one. A
    /// successful connection (which has since closed) restarts the backoff
    /// at the initial delay; each wait doubles the delay for the next one,
    /// up to the maximum.
    pub fn after_attempt(&mut self, connected: bool) -> (wait_ms: u64)
        ensures
            attempt_step(old(self).delay(), connected, wait_ms as nat, final(self).delay()),
            final(self).delay() <= MAX_RECONNECT_DELAY_MS,
    {
        proof {
            use_type_invariant(&*self);
        }
        if connected {
            self.delay_ms = INITIAL_RECONNECT_DELAY_MS;
        }
        let wait = self.delay_ms;
        self.delay_ms = next_reconnect_delay_ms(wait);
        wait
    }
}

/// While attempts keep failing, the delay never shrinks, never exceeds the
/// maximum, and reaches the maximum after six attempts.
pub proof fn lemma_backoff_bounded(n: nat)
    ensures
        INITIAL_RECONNECT_DELAY_MS <= delays_after(n) <= MAX_RECONNECT_DELAY_MS,
        delays_after(n) <= delays_after(n + 1),
        n >= 6 ==> delays_after(n) == MAX_RECONNECT_DELAY_MS,
    decreases n,
{
    if n > 0 {
        lemma_backoff_bounded((n - 1) as nat);
    } else {
        reveal_with_fuel(delays_after, 7);
    }
    if n >= 6 && n > 0 {
        assert(delays_after(n) == next_delay_spec(delays_after((n - 1) as nat)));
        if n == 6 {
            reveal_with_fuel(delays_after, 7);
        }
    }
}

} // verus!
