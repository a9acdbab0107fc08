use vrc_stt::gui::{
    format_timestamp, AppState, HistoryItem, LogItem, LogType, NavButton, RecordingStatus, Rgb, Timestamp,
    ViewState, MAX_HISTORY, MAX_LOG_LINES,
};
use vrc_stt::messages::{BackendLogMessage, FrontendMessage};

#[test]
fn timestamps_show_local_time_of_day() {
    let t = Timestamp { unix_seconds: 0, utc_offset_seconds: 0 };
    assert_eq!(format_timestamp(t), "00:00:00");
    let t = Timestamp { unix_seconds: 45_296, utc_offset_seconds: 3600 };
    assert_eq!(format_timestamp(t), "13:34:56");
    let t = Timestamp { unix_seconds: -1, utc_offset_seconds: 0 };
    assert_eq!(format_timestamp(t), "23:59:59");
    let t = Timestamp { unix_seconds: 1_725_029_869, utc_offset_seconds: -7 * 3600 };
    assert_eq!(format_timestamp(t), "07:57:49");
}

const NOON: Timestamp = Timestamp { unix_seconds: 43_200, utc_offset_seconds: 0 };

#[test]
fn items_format_their_time() {
    let item = HistoryItem::new("hello".to_string(), false, Timestamp { unix_seconds: 45_296, utc_offset_seconds: 3600 });
    assert_eq!(item.timestamp_str(), "13:34:56");
    let log = LogItem::new("x".to_string(), LogType::BackendLog, Timestamp { unix_seconds: 59, utc_offset_seconds: -60 });
    assert_eq!(log.timestamp_str(), "23:59:59");
}

#[test]
fn status_colors_and_labels() {
    assert_eq!(RecordingStatus::Idle.color(), Rgb { r: 128, g: 128, b: 128 });
    assert_eq!(RecordingStatus::Recording.color(), Rgb { r: 100, g: 255, b: 100 });
    assert_eq!(RecordingStatus::Error.label_key(), "status.error");
    assert_eq!(LogItem::new("x".into(), LogType::InternalError, NOON).color(), Rgb { r: 255, g: 100, b: 100 });
}

#[test]
fn navigation() {
    assert_eq!(ViewState::Main.nav_buttons(), vec![NavButton::Settings, NavButton::Logs, NavButton::About]);
    assert_eq!(ViewState::Logs.nav_buttons(), vec![NavButton::Settings, NavButton::About, NavButton::Back]);
    assert_eq!(ViewState::About.navigate(NavButton::Back), ViewState::Main);
    assert_eq!(ViewState::Main.navigate(NavButton::Logs), ViewState::Logs);
}

#[test]
fn history_keeps_newest_first_and_is_bounded() {
    let mut app = AppState::new();
    for i in 0..70 {
        app.add_history(format!("t{}", i), i % 2 == 1, NOON);
    }
    assert_eq!(app.history().len(), MAX_HISTORY);
    assert_eq!(app.history()[0].text(), "t69");
    assert!(app.history()[0].is_error());
    assert_eq!(app.history()[63].text(), "t6");
}

#[test]
fn logs_keep_latest_and_are_bounded() {
    let mut app = AppState::new();
    for i in 0..(MAX_LOG_LINES + 5) {
        app.add_log(LogItem::new(format!("l{}", i), LogType::BackendOutput, NOON));
    }
    assert_eq!(app.logs().len(), MAX_LOG_LINES);
    assert_eq!(app.logs()[0].message(), "l5");
    assert_eq!(app.logs()[MAX_LOG_LINES - 1].message(), &format!("l{}", MAX_LOG_LINES + 4));
    app.clear_logs();
    assert!(app.logs().is_empty());
}

#[test]
fn processing_messages_updates_status_history_and_logs() {
    let mut app = AppState::new();
    assert_eq!(app.next_repaint_interval_ms(), 16);
    assert_eq!(app.next_repaint_interval_ms(), 100);
    app.process_messages(
        vec![BackendLogMessage::InternalInfo("starting".into()), BackendLogMessage::BackendLog("log".into())],
        vec![
            FrontendMessage::BackendConnected,
            FrontendMessage::STTRecordStart,
            FrontendMessage::STTRecordProcessing,
            FrontendMessage::STTRecordEndWithText("hello".into()),
            FrontendMessage::STTRecordEndWithError("oops".into()),
        ],
        Timestamp { unix_seconds: 3661, utc_offset_seconds: 0 },
    );
    assert_eq!(app.status(), RecordingStatus::Idle);
    let logs: Vec<(String, LogType)> = app.logs().iter().map(|l| (l.message().clone(), l.log_type())).collect();
    assert_eq!(
        logs,
        vec![
            ("starting".to_string(), LogType::InternalInfo),
            ("log".to_string(), LogType::BackendLog),
            ("Backend connected".to_string(), LogType::InternalInfo),
        ]
    );
    assert_eq!(app.history().len(), 2);
    assert_eq!(app.history()[0].text(), "oops");
    assert!(app.history()[0].is_error());
    assert_eq!(app.history()[1].text(), "hello");
    assert!(!app.history()[1].is_error());
    assert_eq!(app.history()[1].timestamp_str(), "01:01:01");
    assert_eq!(app.logs()[2].timestamp_str(), "01:01:01");
    assert_eq!(app.next_repaint_interval_ms(), 16);

    app.process_messages(vec![], vec![FrontendMessage::BackendDisconnected], NOON);
    assert_eq!(app.status(), RecordingStatus::Error);
    assert!(app.restart_button_visible());
    app.process_messages(vec![], vec![], NOON);
    assert_eq!(app.status(), RecordingStatus::Error);
    assert_eq!(app.next_repaint_interval_ms(), 16);
    assert_eq!(app.next_repaint_interval_ms(), 100);
}

#[test]
fn view_switching() {
    let mut app = AppState::new();
    assert_eq!(app.view_state(), ViewState::Main);
    assert!(!app.settings_buttons_visible());
    app.set_view(ViewState::Settings);
    assert!(app.settings_buttons_visible());
}
