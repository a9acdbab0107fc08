use vrc_stt::backend::{
    collect_transcription, next_reconnect_delay_ms, on_transcription, on_vad_event, BackendAction,
    ReconnectBackoff, too_short_message, MIN_VOICE_SAMPLES,
};
use vrc_stt::backend_manager::{plan_backend_launch, starting_message};
use vrc_stt::messages::SocketMessage;
use vrc_stt::vad::VadEvent;

#[test]
fn start_shows_typing() {
    let actions = on_vad_event(VadEvent::Start);
    assert_eq!(actions.len(), 2);
    assert!(matches!(actions[0], BackendAction::Broadcast(SocketMessage::STTRecordStart)));
    assert!(matches!(actions[1], BackendAction::SetTyping(true)));
    assert!(on_vad_event(VadEvent::Recording).is_empty());
    assert!(on_vad_event(VadEvent::Pending).is_empty());
}

#[test]
fn long_recording_is_transcribed() {
    let voice = vec![1i16; MIN_VOICE_SAMPLES + 1];
    let actions = on_vad_event(VadEvent::End(voice.clone()));
    assert_eq!(actions.len(), 2);
    assert!(matches!(actions[0], BackendAction::Broadcast(SocketMessage::STTRecordProcessing)));
    match &actions[1] {
        BackendAction::Transcribe(v) => assert_eq!(v, &voice),
        other => panic!("unexpected {:?}", other),
    }
}

#[test]
fn short_recording_is_reported() {
    let actions = on_vad_event(VadEvent::End(vec![0i16; MIN_VOICE_SAMPLES]));
    match &actions[0] {
        BackendAction::Broadcast(SocketMessage::STTRecordEndWithError(m)) => {
            assert_eq!(m, "Audio too short: 4800 samples")
        }
        other => panic!("unexpected {:?}", other),
    }
    assert!(matches!(actions[1], BackendAction::SetTyping(false)));
    assert_eq!(actions.len(), 2);
}

#[test]
fn too_short_messages_give_the_length_in_decimal() {
    assert_eq!(too_short_message(0), "Audio too short: 0 samples");
    assert_eq!(too_short_message(7), "Audio too short: 7 samples");
    assert_eq!(too_short_message(10), "Audio too short: 10 samples");
    assert_eq!(too_short_message(1203), "Audio too short: 1203 samples");
}

#[test]
fn transcription_outcomes() {
    let actions = on_transcription(Ok("hello".to_string()));
    assert_eq!(actions.len(), 3);
    assert!(matches!(&actions[0], BackendAction::SendChat(t) if t == "hello"));
    assert!(matches!(&actions[1], BackendAction::Broadcast(SocketMessage::STTRecordEndWithText(t)) if t == "hello"));
    assert!(matches!(actions[2], BackendAction::SetTyping(false)));
    let actions = on_transcription(Err("model missing".to_string()));
    assert_eq!(actions.len(), 2);
    assert!(matches!(&actions[0], BackendAction::Broadcast(SocketMessage::STTRecordEndWithError(e)) if e == "Transcription failed: model missing"));
    assert!(matches!(actions[1], BackendAction::SetTyping(false)));
}

#[test]
fn segments_are_joined_in_order() {
    let segments = vec![Some("Hello".to_string()), None, Some(", world".to_string())];
    assert_eq!(collect_transcription(&segments), "Hello, world");
    assert_eq!(collect_transcription(&vec![]), "");
}

#[test]
fn backoff_doubles_up_to_thirty_seconds() {
    assert_eq!(next_reconnect_delay_ms(500), 1000);
    assert_eq!(next_reconnect_delay_ms(16000), 30000);
    assert_eq!(next_reconnect_delay_ms(30000), 30000);
    let mut b = ReconnectBackoff::new();
    let waits: Vec<u64> = (0..8).map(|_| b.after_attempt(false)).collect();
    assert_eq!(waits, vec![500, 1000, 2000, 4000, 8000, 16000, 30000, 30000]);
    assert_eq!(b.after_attempt(true), 500);
    assert_eq!(b.after_attempt(false), 1000);
}

#[test]
fn doubling_accepts_any_delay_that_cannot_overflow() {
    assert_eq!(next_reconnect_delay_ms(0), 0);
    assert_eq!(next_reconnect_delay_ms(14_999), 29_998);
    assert_eq!(next_reconnect_delay_ms(u64::MAX / 2), 30000);
}

#[test]
fn a_connection_restarts_the_wait_sequence() {
    let mut b = ReconnectBackoff::new();
    let outcomes = [false, false, false, true, false, false, true, true, false];
    let waits: Vec<u64> = outcomes.iter().map(|&c| b.after_attempt(c)).collect();
    assert_eq!(waits, vec![500, 1000, 2000, 500, 1000, 2000, 500, 500, 1000]);
}

#[test]
fn backend_launch_plan() {
    let p = plan_backend_launch(None, None);
    assert_eq!(p.program, "backend");
    assert!(p.set_default_log_level);
    let p = plan_backend_launch(Some("/opt/b".to_string()), Some("".to_string()));
    assert_eq!(p.program, "/opt/b");
    assert!(p.set_default_log_level);
    let p = plan_backend_launch(None, Some("debug".to_string()));
    assert!(!p.set_default_log_level);
    assert_eq!(starting_message("backend"), "Starting backend process: backend");
}
