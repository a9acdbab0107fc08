//! State of the frontend window: recording status, transcription history,
//! backend logs and navigation between views.

use vstd::prelude::*;

use crate::messages::{BackendLogMessage, FrontendMessage};

verus! {

/// Entries kept in the transcription history.
pub const MAX_HISTORY: usize = 64;

/// Log lines kept in the log view.
pub const MAX_LOG_LINES: usize = 500;

/// Repaint interval while there are changes, in milliseconds (about 60 FPS).
pub const UI_UPDATE_INTERVAL_MS: u64 = 16;

/// Repaint interval while idle, in milliseconds.
pub const IDLE_REPAINT_INTERVAL_MS: u64 = 100;

/// A moment in time, as the local clock shows it: seconds since the Unix
/// epoch and the local offset from UTC.
#[derive(Clone, Copy, Debug)]
pub struct Timestamp {
    pub unix_seconds: i64,
    pub utc_offset_seconds: i32,
}

/// Seconds since local midnight.
pub open spec fn second_of_day(t: Timestamp) -> int {
    (t.unix_seconds + t.utc_offset_seconds) % 86400
}

/// The decimal digit `d` as a character.
pub open spec fn digit_char(d: int) -> char {
    (('0' as int) + d) as char
}

/// `n` (below 100) written with two digits.
pub open spec fn two_digits(n: int) -> Seq<char> {
    seq![digit_char(n / 10), digit_char(n % 10)]
}

/// Local time of day of `t`, written `HH:MM:SS` (24-hour clock).
pub open spec fn hms_text(t: Timestamp) -> Seq<char> {
    let sod = second_of_day(t);
    two_digits(sod / 3600) + seq![':'] + two_digits((sod % 3600) / 60) + seq![':'] + two_digits(
        sod % 60,
    )
}

/// The digit `d` as a one-character string.
pub(crate) fn digit_str(d: u32) -> (res: &'static str)
    requires
        d < 10,
    ensures
        res@ == seq![digit_char(d as int)],
{
    proof {
        reveal_strlit("0");
        reveal_strlit("1");
        reveal_strlit("2");
        reveal_strlit("3");
        reveal_strlit("4");
        reveal_strlit("5");
        reveal_strlit("6");
        reveal_strlit("7");
        reveal_strlit("8");
        reveal_strlit("9");
    }
    let res = if d == 0 {
        "0"
    } else if d == 1 {
        "1"
    } else if d == 2 {
        "2"
    } else if d == 3 {
        "3"
    } else if d == 4 {
        "4"
    } else if d == 5 {
        "5"
    } else if d == 6 {
        "6"
    } else if d == 7 {
        "7"
    } else if d == 8 {
        "8"
    } else {
        "9"
    };
    assert(res@ =~= seq![digit_char(d as int)]);
    res
}

/// Appends `n` (below 100) with two digits.
fn push_two_digits(s: &mut String, n: u32)
    requires
        n < 100,
    ensures
        final(s)@ == old(s)@ + two_digits(n as int),
{
    s.append(digit_str(n / 10));
    s.append(digit_str(n % 10));
    assert(final(s)@ =~= old(s)@ + two_digits(n as int));
}

/// Seconds since local midnight of a timestamp.
fn second_of_day_exec(t: Timestamp) -> (res: u32)
    ensures
        res == second_of_day(t),
        res < 86400,
{
    let local: i128 = t.unix_seconds as i128 + t.utc_offset_seconds as i128;
    // A multiple of a day that makes any such local time non-negative.
    let shift: i128 = 86400 * 140_737_488_355_328;
    let shifted: i128 = local + shift;
    assert(shifted >= 0);
    let r: i128 = shifted % 86400;
    proof {
        vstd::arithmetic::div_mod::lemma_mod_add_multiples_vanish(local as int, 86400);
        vstd::arithmetic::div_mod::lemma_mod_multiples_vanish(
            140_737_488_355_328,
            local as int,
            86400,
        );
    }
    r as u32
}

/// Formats a timestamp as its local time of day, `HH:MM:SS`.
pub fn format_timestamp(timestamp: Timestamp) -> (res: String)
    ensures
        res@ == hms_text(timestamp),
{
    let sod = second_of_day_exec(timestamp);
    let mut res = String::new();
    push_two_digits(&mut res, sod / 3600);
    res.append(":");
    push_two_digits(&mut res, (sod % 3600) / 60);
    res.append(":");
    push_two_digits(&mut res, sod % 60);
    proof {
        reveal_strlit(":");
    }
    assert(res@ =~= hms_text(timestamp));
    res
}

/// Recording status shown in the top bar.
#[derive(Clone, Copy, Debug, PartialEq, Eq, Structural)]
pub enum RecordingStatus {
    Idle,
    Recording,
    Processing,
    Error,
}

/// A color as red, green and blue intensities.
#[derive(Clone, Copy, Debug, PartialEq, Eq, Structural)]
pub struct Rgb {
    pub r: u8,
    pub g: u8,
    pub b: u8,
}

/// The color with the given intensities.
pub open spec fn rgb(r: u8, g: u8, b: u8) -> Rgb {
    Rgb { r, g, b }
}

impl RecordingStatus {
    /// Localization key of the status label.
    pub fn label_key(self) -> (res: &'static str)
        ensures
            res@ == match self {
                RecordingStatus::Idle => "status.idle"@,
                RecordingStatus::Recording => "status.recording"@,
                RecordingStatus::Processing => "status.processing"@,
                RecordingStatus::Error => "status.error"@,
            },
    {
        match self {
            RecordingStatus::Idle => "status.idle",
            RecordingStatus::Recording => "status.recording",
            RecordingStatus::Processing => "status.processing",
            RecordingStatus::Error => "status.error",
        }
    }

    /// Color of the status label: gray when idle, green while recording,
    /// orange while processing, red on error.
    pub fn color(self) -> (res: Rgb)
        ensures
            res == match self {
                RecordingStatus::Idle => rgb(128, 128, 128),
                RecordingStatus::Recording => rgb(100, 255, 100),
                RecordingStatus::Processing => rgb(255, 200, 100),
                RecordingStatus::Error => rgb(255, 50, 50),
            },
    {
        match self {
            RecordingStatus::Idle => Rgb { r: 128, g: 128, b: 128 },
            RecordingStatus::Recording => Rgb { r: 100, g: 255, b: 100 },
            RecordingStatus::Processing => Rgb { r: 255, g: 200, b: 100 },
            RecordingStatus::Error => Rgb { r: 255, g: 50, b: 50 },
        }
    }
}

/// The views of the window.
#[derive(Clone, Copy, Debug, PartialEq, Eq, Structural)]
pub enum ViewState {
    Main,
    Settings,
    Logs,
    About,
}

/// Navigation buttons of the top bar.
#[derive(Clone, Copy, Debug, PartialEq, Eq, Structural)]
pub enum NavButton {
    Settings,
    Logs,
    About,
    Back,
}

/// The buttons the top bar shows in each view, in order.
pub open spec fn nav_buttons_spec(view: ViewState) -> Seq<NavButton> {
    match view {
        ViewState::Main => seq![NavButton::Settings, NavButton::Logs, NavButton::About],
        ViewState::Settings => seq![NavButton::Logs, NavButton::About, NavButton::Back],
        ViewState::Logs => seq![NavButton::Settings, NavButton::About, NavButton::Back],
        ViewState::About => seq![NavButton::Settings, NavButton::Logs, NavButton::Back],
    }
}

/// The view a button leads to.
pub open spec fn nav_target(button: NavButton) -> ViewState {
    match button {
        NavButton::Settings => ViewState::Settings,
        NavButton::Logs => ViewState::Logs,
        NavButton::About => ViewState::About,
        NavButton::Back => ViewState::Main,
    }
}

impl ViewState {
    /// The buttons the top bar shows in this view, in order.
    pub fn nav_buttons(self) -> (res: Vec<NavButton>)
        ensures
            res@ == nav_buttons_spec(self),
    {
        let res = match self {
            ViewState::Main => vec![NavButton::Settings, NavButton::Logs, NavButton::About],
            ViewState::Settings => vec![NavButton::Logs, NavButton::About, NavButton::Back],
            ViewState::Logs => vec![NavButton::Settings, NavButton::About, NavButton::Back],
            ViewState::About => vec![NavButton::Settings, NavButton::Logs, NavButton::Back],
        };
        assert(res@ =~= nav_buttons_spec(self));
        res
    }

    /// The view shown after `button` is clicked.
    pub fn navigate(self, button: NavButton) -> (res: ViewState)
        ensures
            res == nav_target(button),
    {
        match button {
            NavButton::Settings => ViewState::Settings,
            NavButton::Logs => ViewState::Logs,
            NavButton::About => ViewState::About,
            NavButton::Back => ViewState::Main,
        }
    }
}

/// From every view, the buttons shown lead to exactly the other views, and
/// no button leads to the view already shown.
pub proof fn lemma_navigation_reaches_other_views(view: ViewState, other: ViewState)
    ensures
        (exists|i: int|
            0 <= i < nav_buttons_spec(view).len() && nav_target(#[trigger] nav_buttons_spec(
                view,
            )[i]) == other) <==> other != view,
{
    let b = nav_buttons_spec(view);
    if other != view {
        let i: int = if other == nav_target(b[0]) {
            0
        } else if other == nav_target(b[1]) {
            1
        } else {
            2
        };
        assert(nav_target(b[i]) == other);
    }
}

/// Kind of a backend log line.
#[derive(Clone, Copy, Debug, PartialEq, Eq, Structural)]
pub enum LogType {
    InternalInfo,
    InternalError,
    BackendOutput,
    BackendLog,
}

/// One transcription (or transcription error) in the history.
#[derive(Clone, Debug)]
pub struct HistoryItem {
    text: String,
    timestamp: Timestamp,
    is_error: bool,
}

/// Text, error flag and time of a history entry.
pub type HistoryView = (Seq<char>, bool, Timestamp);

impl HistoryItem {
    pub closed spec fn entry(&self) -> HistoryView {
        (self.text@, self.is_error, self.timestamp)
    }

    /// A history entry added at `timestamp`.
    pub fn new(text: String, is_error: bool, timestamp: Timestamp) -> (res: HistoryItem)
        ensures
            res.entry() == (text@, is_error, timestamp),
    {
        HistoryItem { text, timestamp, is_error }
    }

    /// The transcribed text, or the error message.
    pub fn text(&self) -> (res: &String)
        ensures
            res@ == self.entry().0,
    {
        &self.text
    }

    /// Whether the entry records an error.
    pub fn is_error(&self) -> (res: bool)
        ensures
            res == self.entry().1,
    {
        self.is_error
    }

    /// Time of the entry, `HH:MM:SS`.
    pub fn timestamp_str(&self) -> (res: String)
        ensures
            res@ == hms_text(self.entry().2),
    {
        format_timestamp(self.timestamp)
    }
}

/// One line of the log view.
#[derive(Clone, Debug)]
pub struct LogItem {
    message: String,
    timestamp: Timestamp,
    log_type: LogType,
}

/// Message, kind and time of a log line.
pub type LogView = (Seq<char>, LogType, Timestamp);

/// Color of a log line of the given kind.
pub open spec fn log_color(t: LogType) -> Rgb {
    match t {
        LogType::InternalInfo => rgb(100, 150, 255),
        LogType::InternalError => rgb(255, 100, 100),
        LogType::BackendOutput => rgb(200, 200, 200),
        LogType::BackendLog => rgb(180, 180, 180),
    }
}

impl LogItem {
    pub closed spec fn entry(&self) -> LogView {
        (self.message@, self.log_type, self.timestamp)
    }

    /// A log line logged at `timestamp`.
    pub fn new(message: String, log_type: LogType, timestamp: Timestamp) -> (res: LogItem)
        ensures
            res.entry() == (message@, log_type, timestamp),
    {
        LogItem { message, timestamp, log_type }
    }

    /// The logged message.
    pub fn message(&self) -> (res: &String)
        ensures
            res@ == self.entry().0,
    {
        &self.message
    }

    /// The kind of the line.
    pub fn log_type(&self) -> (res: LogType)
        ensures
            res == self.entry().1,
    {
        self.log_type
    }

    /// Time of the line, `HH:MM:SS`.
    pub fn timestamp_str(&self) -> (res: String)
        ensures
            res@ == hms_text(self.entry().2),
    {
        format_timestamp(self.timestamp)
    }

    /// Color of the line: blue for information, red for errors, gray for
    /// the backend's output and a lighter gray for its log.
    pub fn color(&self) -> (res: Rgb)
        ensures
            res == log_color(self.entry().1),
    {
        match self.log_type {
            LogType::InternalInfo => Rgb { r: 100, g: 150, b: 255 },
            LogType::InternalError => Rgb { r: 255, g: 100, b: 100 },
            LogType::BackendOutput => Rgb { r: 200, g: 200, b: 200 },
            LogType::BackendLog => Rgb { r: 180, g: 180, b: 180 },
        }
    }
}

/// Entries of a history, newest first.
pub open spec fn history_entries(h: Seq<HistoryItem>) -> Seq<HistoryView> {
    h.map_values(|x: HistoryItem| x.entry())
}

/// Entries of a log, oldest first.
pub open spec fn log_entries(l: Seq<LogItem>) -> Seq<LogView> {
    l.map_values(|x: LogItem| x.entry())
}

/// The history after adding `e`: `e` goes first and the history keeps at
/// most `MAX_HISTORY` entries, dropping the oldest.
pub open spec fn add_history_spec(h: Seq<HistoryView>, e: HistoryView) -> Seq<HistoryView> {
    let n = seq![e] + h;
    if n.len() > MAX_HISTORY {
        n.take(MAX_HISTORY as int)
    } else {
        n
    }
}

/// The history after adding each of `es` in order.
pub open spec fn add_histories_spec(h: Seq<HistoryView>, es: Seq<HistoryView>) -> Seq<HistoryView>
    decreases es.len(),
{
    if es.len() == 0 {
        h
    } else {
        add_history_spec(add_histories_spec(h, es.drop_last()), es.last())
    }
}

/// The log after adding `e`: `e` goes last and the log keeps at most `max`
/// lines, dropping the oldest.
pub open spec fn add_log_spec(l: Seq<LogView>, e: LogView, max: nat) -> Seq<LogView> {
    let n = l.push(e);
    if n.len() > max {
        n.skip(n.len() - max)
    } else {
        n
    }
}

/// The log after adding each of `es` in order.
pub open spec fn add_logs_spec(l: Seq<LogView>, es: Seq<LogView>, max: nat) -> Seq<LogView>
    decreases es.len(),
{
    if es.len() == 0 {
        l
    } else {
        add_log_spec(add_logs_spec(l, es.drop_last(), max), es.last(), max)
    }
}

/// Log line, logged at `now`, for a message about the backend process.
pub open spec fn backend_log_entry(m: BackendLogMessage, now: Timestamp) -> LogView {
    match m {
        BackendLogMessage::InternalInfo(t) => (t@, LogType::InternalInfo, now),
        BackendLogMessage::InternalError(t) => (t@, LogType::InternalError, now),
        BackendLogMessage::BackendOutput(t) => (t@, LogType::BackendOutput, now),
        BackendLogMessage::BackendLog(t) => (t@, LogType::BackendLog, now),
    }
}

/// The status a message puts the window in.
pub open spec fn message_status(m: FrontendMessage) -> RecordingStatus {
    match m {
        FrontendMessage::BackendConnected => RecordingStatus::Idle,
        FrontendMessage::BackendDisconnected => RecordingStatus::Error,
        FrontendMessage::STTRecordStart => RecordingStatus::Recording,
        FrontendMessage::STTRecordProcessing => RecordingStatus::Processing,
        FrontendMessage::STTRecordEndWithText(_) => RecordingStatus::Idle,
        FrontendMessage::STTRecordEndWithError(_) => RecordingStatus::Idle,
    }
}

/// The status each message from the backend puts the window in: a
/// recording that started shows `Recording`, one being transcribed
/// `Processing`, a finished one (with text or an error) and a new
/// connection `Idle`, and a lost backend `Error`; after a batch it is that
/// of the last message, and an empty batch changes nothing.
pub proof fn lemma_message_status(old: RecordingStatus, msgs: Seq<FrontendMessage>)
    ensures
        msgs.len() == 0 ==> status_after(old, msgs) == old,
        msgs.len() > 0 ==> status_after(old, msgs) == match msgs.last() {
            FrontendMessage::STTRecordStart => RecordingStatus::Recording,
            FrontendMessage::STTRecordProcessing => RecordingStatus::Processing,
            FrontendMessage::STTRecordEndWithText(_) => RecordingStatus::Idle,
            FrontendMessage::STTRecordEndWithError(_) => RecordingStatus::Idle,
            FrontendMessage::BackendConnected => RecordingStatus::Idle,
            FrontendMessage::BackendDisconnected => RecordingStatus::Error,
        },
{
}

/// The status after a batch of messages: that of the last one, if any.
pub open spec fn status_after(old: RecordingStatus, msgs: Seq<FrontendMessage>) -> RecordingStatus {
    if msgs.len() == 0 {
        old
    } else {
        message_status(msgs.last())
    }
}

/// Log lines, logged at `now`, that a batch of messages adds: one per
/// backend connection.
pub open spec fn message_logs(msgs: Seq<FrontendMessage>, now: Timestamp) -> Seq<LogView>
    decreases msgs.len(),
{
    if msgs.len() == 0 {
        Seq::empty()
    } else {
        let rest = message_logs(msgs.drop_last(), now);
        match msgs.last() {
            FrontendMessage::BackendConnected => rest.push(
                ("Backend connected"@, LogType::InternalInfo, now),
            ),
            _ => rest,
        }
    }
}

/// History entries, added at `now`, that a batch of messages adds: one per
/// finished recording.
pub open spec fn message_history(msgs: Seq<FrontendMessage>, now: Timestamp) -> Seq<HistoryView>
    decreases msgs.len(),
{
    if msgs.len() == 0 {
        Seq::empty()
    } else {
        let rest = message_history(msgs.drop_last(), now);
        match msgs.last() {
            FrontendMessage::STTRecordEndWithText(t) => rest.push((t@, false, now)),
            FrontendMessage::STTRecordEndWithError(e) => rest.push((e@, true, now)),
            _ => rest,
        }
    }
}

/// Everything the window shows apart from widgets.
pub struct AppState {
    status: RecordingStatus,
    history: Vec<HistoryItem>,
    view_state: ViewState,
    logs: Vec<LogItem>,
    max_log_lines: usize,
    should_repaint: bool,
}

impl AppState {
    /// The history and the log never hold more than their limits, and the
    /// log's limit is `MAX_LOG_LINES`.
    #[verifier::type_invariant]
    spec fn within_limits(self) -> bool {
        &&& self.history@.len() <= MAX_HISTORY
        &&& self.max_log_lines == MAX_LOG_LINES
        &&& self.logs@.len() <= self.max_log_lines
    }

    pub closed spec fn status_spec(&self) -> RecordingStatus {
        self.status
    }

    pub closed spec fn history_spec(&self) -> Seq<HistoryView> {
        history_entries(self.history@)
    }

    pub closed spec fn view_spec(&self) -> ViewState {
        self.view_state
    }

    pub closed spec fn logs_spec(&self) -> Seq<LogView> {
        log_entries(self.logs@)
    }

    pub closed spec fn max_log_lines_spec(&self) -> nat {
        self.max_log_lines as nat
    }

    pub closed spec fn should_repaint_spec(&self) -> bool {
        self.should_repaint
    }

    /// A fresh window: idle, on the main view, with empty history and log,
    /// keeping up to `MAX_LOG_LINES` log lines, and due for a repaint.
    pub fn new() -> (res: AppState)
        ensures
            res.status_spec() == RecordingStatus::Idle,
            res.history_spec() == Seq::<HistoryView>::empty(),
            res.view_spec() == ViewState::Main,
            res.logs_spec() == Seq::<LogView>::empty(),
            res.max_log_lines_spec() == MAX_LOG_LINES,
            res.should_repaint_spec(),
    {
        let res = AppState {
            status: RecordingStatus::Idle,
            history: Vec::new(),
            view_state: ViewState::Main,
            logs: Vec::new(),
            max_log_lines: MAX_LOG_LINES,
            should_repaint: true,
        };
        assert(res.history_spec() =~= Seq::<HistoryView>::empty());
        assert(res.logs_spec() =~= Seq::<LogView>::empty());
        res
    }

    /// The recording status.
    pub fn status(&self) -> (res: RecordingStatus)
        ensures
            res == self.status_spec(),
    {
        self.status
    }

    /// The view shown.
    pub fn view_state(&self) -> (res: ViewState)
        ensures
            res == self.view_spec(),
    {
        self.view_state
    }

    /// The history, newest first; at most `MAX_HISTORY` entries.
    pub fn history(&self) -> (res: &Vec<HistoryItem>)
        ensures
            history_entries(res@) == self.history_spec(),
            res@.len() <= MAX_HISTORY,
    {
        proof {
            use_type_invariant(self);
        }
        &self.history
    }

    /// The log, oldest first; at most `MAX_LOG_LINES` lines, its limit.
    pub fn logs(&self) -> (res: &Vec<LogItem>)
        ensures
            log_entries(res@) == self.logs_spec(),
            self.max_log_lines_spec() == MAX_LOG_LINES,
            res@.len() <= MAX_LOG_LINES,
    {
        proof {
            use_type_invariant(self);
        }
        &self.logs
    }

    /// Switches the view.
    pub fn set_view(&mut self, view: ViewState)
        ensures
            final(self).view_spec() == view,
            final(self).status_spec() == old(self).status_spec(),
            final(self).history_spec() == old(self).history_spec(),
            final(self).logs_spec() == old(self).logs_spec(),
            final(self).max_log_lines_spec() == old(self).max_log_lines_spec(),
            final(self).should_repaint_spec() == old(self).should_repaint_spec(),
    {
        proof {
            use_type_invariant(&*self);
        }
        self.view_state = view;
    }

    /// Whether the button that restarts the backend is shown: only after
    /// the backend was lost.
    pub fn restart_button_visible(&self) -> (res: bool)
        ensures
            res == (self.status_spec() == RecordingStatus::Error),
    {
        self.status == RecordingStatus::Error
    }

    /// Whether the save and reset buttons are shown: only in the settings.
    pub fn settings_buttons_visible(&self) -> (res: bool)
        ensures
            res == (self.view_spec() == ViewState::Settings),
    {
        self.view_state == ViewState::Settings
    }

    /// Adds a transcription or error, made at `timestamp`, to the front of
    /// the history, keeping at most `MAX_HISTORY` entries.
    pub fn add_history(&mut self, text: String, is_error: bool, timestamp: Timestamp)
        ensures
            final(self).history_spec() == add_history_spec(
                old(self).history_spec(),
                (text@, is_error, timestamp),
            ),
            final(self).status_spec() == old(self).status_spec(),
            final(self).view_spec() == old(self).view_spec(),
            final(self).logs_spec() == old(self).logs_spec(),
            final(self).max_log_lines_spec() == old(self).max_log_lines_spec(),
            final(self).should_repaint_spec() == old(self).should_repaint_spec(),
    {
        proof {
            use_type_invariant(&*self);
        }
        let mut history: Vec<HistoryItem> = Vec::new();
        std::mem::swap(&mut history, &mut self.history);
        let ghost before = history@;
        let item = HistoryItem::new(text, is_error, timestamp);
        history.insert(0, item);
        let ghost inserted = history@;
        if history.len() > MAX_HISTORY {
            history.truncate(MAX_HISTORY);
        }
        proof {
            let e = (text@, is_error, timestamp);
            assert(history_entries(inserted) =~= seq![e] + history_entries(before));
            if inserted.len() > MAX_HISTORY {
                assert(history_entries(history@) =~= history_entries(inserted).take(
                    MAX_HISTORY as int,
                ));
            }
        }
        self.history = history;
    }

    /// Appends a line to the log, dropping the oldest lines beyond the
    /// limit.
    pub fn add_log(&mut self, item: LogItem)
        ensures
            final(self).logs_spec() == add_log_spec(
                old(self).logs_spec(),
                item.entry(),
                old(self).max_log_lines_spec(),
            ),
            final(self).status_spec() == old(self).status_spec(),
            final(self).view_spec() == old(self).view_spec(),
            final(self).history_spec() == old(self).history_spec(),
            final(self).max_log_lines_spec() == old(self).max_log_lines_spec(),
            final(self).should_repaint_spec() == old(self).should_repaint_spec(),
    {
        proof {
            use_type_invariant(&*self);
        }
        let mut logs: Vec<LogItem> = Vec::new();
        std::mem::swap(&mut logs, &mut self.logs);
        let ghost before = logs@;
        let ghost e = item.entry();
        logs.push(item);
        let ghost pushed = logs@;
        assert(log_entries(pushed) =~= log_entries(before).push(e));
        if logs.len() > self.max_log_lines {
            let excess = logs.len() - self.max_log_lines;
            let tail = logs.split_off(excess);
            logs = tail;
            assert(log_entries(logs@) =~= log_entries(pushed).skip(excess as int));
        }
        self.logs = logs;
    }

    /// Empties the log.
    pub fn clear_logs(&mut self)
        ensures
            final(self).logs_spec() == Seq::<LogView>::empty(),
            final(self).status_spec() == old(self).status_spec(),
            final(self).view_spec() == old(self).view_spec(),
            final(self).history_spec() == old(self).history_spec(),
            final(self).max_log_lines_spec() == old(self).max_log_lines_spec(),
            final(self).should_repaint_spec() == old(self).should_repaint_spec(),
    {
        proof {
            use_type_invariant(&*self);
        }
        self.logs = Vec::new();
        assert(log_entries(self.logs@) =~= Seq::<LogView>::empty());
    }

    /// Applies what arrived since the last frame, at time `now`: the backend
    /// manager's log lines are logged first, in order; then, for the batch of
    /// messages from the socket, the status becomes that of the last message,
    /// a log line is added per backend connection and a history entry per
    /// finished recording, in order. Everything added is stamped `now`. A
    /// repaint is due if anything arrived.
    pub fn process_messages(
        &mut self,
        backend_logs: Vec<BackendLogMessage>,
        messages: Vec<FrontendMessage>,
        now: Timestamp,
    )
        ensures
            final(self).logs_spec() == add_logs_spec(
                add_logs_spec(
                    old(self).logs_spec(),
                    backend_logs@.map_values(|m: BackendLogMessage| backend_log_entry(m, now)),
                    old(self).max_log_lines_spec(),
                ),
                message_logs(messages@, now),
                old(self).max_log_lines_spec(),
            ),
            final(self).status_spec() == status_after(old(self).status_spec(), messages@),
            messages@.len() == 0 ==> final(self).status_spec() == old(self).status_spec(),
            messages@.len() > 0 ==> final(self).status_spec() == match messages@.last() {
                FrontendMessage::STTRecordStart => RecordingStatus::Recording,
                FrontendMessage::STTRecordProcessing => RecordingStatus::Processing,
                FrontendMessage::STTRecordEndWithText(_) => RecordingStatus::Idle,
                FrontendMessage::STTRecordEndWithError(_) => RecordingStatus::Idle,
                FrontendMessage::BackendConnected => RecordingStatus::Idle,
                FrontendMessage::BackendDisconnected => RecordingStatus::Error,
            },
            final(self).history_spec() == add_histories_spec(
                old(self).history_spec(),
                message_history(messages@, now),
            ),
            final(self).should_repaint_spec() == (old(self).should_repaint_spec()
                || backend_logs@.len() > 0 || messages@.len() > 0),
            final(self).view_spec() == old(self).view_spec(),
            final(self).max_log_lines_spec() == old(self).max_log_lines_spec(),
    {
        let ghost logs0 = self.logs_spec();
        let ghost max = self.max_log_lines_spec();
        let ghost backend_entries = backend_logs@.map_values(
            |m: BackendLogMessage| backend_log_entry(m, now),
        );
        let mut i: usize = 0;
        while i < backend_logs.len()
            invariant
                i <= backend_logs@.len(),
                backend_entries == backend_logs@.map_values(
                    |m: BackendLogMessage| backend_log_entry(m, now),
                ),
                self.logs_spec() == add_logs_spec(logs0, backend_entries.take(i as int), max),
                self.max_log_lines_spec() == max,
                self.status_spec() == old(self).status_spec(),
                self.history_spec() == old(self).history_spec(),
                self.view_spec() == old(self).view_spec(),
                self.should_repaint_spec() == old(self).should_repaint_spec(),
            decreases backend_logs@.len() - i,
        {
            let item = match &backend_logs[i] {
                BackendLogMessage::InternalInfo(m) => LogItem::new(m.clone(), LogType::InternalInfo, now),
                BackendLogMessage::InternalError(m) => LogItem::new(m.clone(), LogType::InternalError, now),
                BackendLogMessage::BackendOutput(m) => LogItem::new(m.clone(), LogType::BackendOutput, now),
                BackendLogMessage::BackendLog(m) => LogItem::new(m.clone(), LogType::BackendLog, now),
            };
            assert(item.entry() == backend_entries[i as int]);
            self.add_log(item);
            i += 1;
            assert(backend_entries.take(i as int).drop_last() =~= backend_entries.take(i - 1));
        }
        assert(backend_entries.take(backend_logs@.len() as int) =~= backend_entries);
        if backend_logs.len() > 0 {
            proof {
                use_type_invariant(&*self);
            }
            self.should_repaint = true;
        }
        let ghost logs1 = self.logs_spec();
        let ghost history0 = self.history_spec();
        let mut status_updates: Vec<RecordingStatus> = Vec::new();
        let mut history_additions: Vec<(String, bool)> = Vec::new();
        let mut log_additions: Vec<LogItem> = Vec::new();
        let mut j: usize = 0;
        while j < messages.len()
            invariant
                j <= messages@.len(),
                status_updates@.len() == j,
                forall|k: int| 0 <= k < j ==> status_updates@[k] == message_status(#[trigger] messages@[k]),
                history_additions@.map_values(|p: (String, bool)| (p.0@, p.1, now))
                    == message_history(messages@.take(j as int), now),
                log_entries(log_additions@) == message_logs(messages@.take(j as int), now),
                self.should_repaint_spec() == (old(self).should_repaint_spec()
                    || backend_logs@.len() > 0 || j > 0),
                self.logs_spec() == logs1,
                self.history_spec() == history0,
                self.max_log_lines_spec() == max,
                self.status_spec() == old(self).status_spec(),
                self.view_spec() == old(self).view_spec(),
            decreases messages@.len() - j,
        {
            let ghost prev = messages@.take(j as int);
            let ghost cur = messages@.take(j + 1);
            assert(cur.drop_last() =~= prev);
            assert(cur.last() == messages@[j as int]);
            let ghost hv = history_additions@;
            let ghost lv = log_additions@;
            match &messages[j] {
                FrontendMessage::BackendConnected => {
                    status_updates.push(RecordingStatus::Idle);
                    let text = "Backend connected".to_owned();
                    log_additions.push(LogItem::new(text, LogType::InternalInfo, now));
                    assert(log_entries(log_additions@) =~= log_entries(lv).push(
                        ("Backend connected"@, LogType::InternalInfo, now),
                    ));
                },
                FrontendMessage::BackendDisconnected => {
                    status_updates.push(RecordingStatus::Error);
                },
                FrontendMessage::STTRecordStart => {
                    status_updates.push(RecordingStatus::Recording);
                },
                FrontendMessage::STTRecordProcessing => {
                    status_updates.push(RecordingStatus::Processing);
                },
                FrontendMessage::STTRecordEndWithText(text) => {
                    status_updates.push(RecordingStatus::Idle);
                    history_additions.push((text.clone(), false));
                    assert(history_additions@.map_values(|p: (String, bool)| (p.0@, p.1, now))
                        =~= hv.map_values(|p: (String, bool)| (p.0@, p.1, now)).push(
                        (text@, false, now),
                    ));
                },
                FrontendMessage::STTRecordEndWithError(error) => {
                    status_updates.push(RecordingStatus::Idle);
                    history_additions.push((error.clone(), true));
                    assert(history_additions@.map_values(|p: (String, bool)| (p.0@, p.1, now))
                        =~= hv.map_values(|p: (String, bool)| (p.0@, p.1, now)).push(
                        (error@, true, now),
                    ));
                },
            }
            proof {
                use_type_invariant(&*self);
            }
            self.should_repaint = true;
            j += 1;
        }
        assert(messages@.take(messages@.len() as int) =~= messages@);
        // Logs collected from the batch.
        let ghost la = log_entries(log_additions@);
        let mut k: usize = 0;
        while k < log_additions.len()
            invariant
                k <= log_additions@.len(),
                la == log_entries(log_additions@),
                self.logs_spec() == add_logs_spec(logs1, la.take(k as int), max),
                self.max_log_lines_spec() == max,
                self.history_spec() == history0,
                self.status_spec() == old(self).status_spec(),
                self.view_spec() == old(self).view_spec(),
                self.should_repaint_spec() == (old(self).should_repaint_spec()
                    || backend_logs@.len() > 0 || messages@.len() > 0),
            decreases log_additions@.len() - k,
        {
            let item = log_additions[k].clone_item();
            self.add_log(item);
            k += 1;
            assert(la.take(k as int).drop_last() =~= la.take(k - 1));
        }
        assert(la.take(la.len() as int) =~= la);
        // Status updates: the last one wins.
        let mut u: usize = 0;
        while u < status_updates.len()
            invariant
                u <= status_updates@.len(),
                status_updates@.len() == messages@.len(),
                forall|q: int| 0 <= q < messages@.len() ==> status_updates@[q] == message_status(#[trigger] messages@[q]),
                u == 0 ==> self.status_spec() == old(self).status_spec(),
                u > 0 ==> self.status_spec() == status_updates@[u - 1],
                self.logs_spec() == add_logs_spec(logs1, la, max),
                self.max_log_lines_spec() == max,
                self.history_spec() == history0,
                self.view_spec() == old(self).view_spec(),
                self.should_repaint_spec() == (old(self).should_repaint_spec()
                    || backend_logs@.len() > 0 || messages@.len() > 0),
            decreases status_updates@.len() - u,
        {
            proof {
                use_type_invariant(&*self);
            }
            self.status = status_updates[u];
            u += 1;
        }
        // History additions, in order.
        let ghost ha = history_additions@.map_values(|p: (String, bool)| (p.0@, p.1, now));
        let mut h: usize = 0;
        while h < history_additions.len()
            invariant
                h <= history_additions@.len(),
                ha == history_additions@.map_values(|p: (String, bool)| (p.0@, p.1, now)),
                self.history_spec() == add_histories_spec(history0, ha.take(h as int)),
                self.status_spec() == status_after(old(self).status_spec(), messages@),
                self.logs_spec() == add_logs_spec(logs1, la, max),
                self.max_log_lines_spec() == max,
                self.view_spec() == old(self).view_spec(),
                self.should_repaint_spec() == (old(self).should_repaint_spec()
                    || backend_logs@.len() > 0 || messages@.len() > 0),
            decreases history_additions@.len() - h,
        {
            let text = history_additions[h].0.clone();
            let is_error = history_additions[h].1;
            assert((text@, is_error, now) == ha[h as int]);
            self.add_history(text, is_error, now);
            h += 1;
            assert(ha.take(h as int).drop_last() =~= ha.take(h - 1));
        }
        assert(ha.take(ha.len() as int) =~= ha);
    }

    /// Milliseconds until the next repaint: soon after changes, less often
    /// when idle. Consumes the pending repaint.
    pub fn next_repaint_interval_ms(&mut self) -> (res: u64)
        ensures
            res == if old(self).should_repaint_spec() {
                UI_UPDATE_INTERVAL_MS
            } else {
                IDLE_REPAINT_INTERVAL_MS
            },
            !final(self).should_repaint_spec(),
            final(self).status_spec() == old(self).status_spec(),
            final(self).view_spec() == old(self).view_spec(),
            final(self).history_spec() == old(self).history_spec(),
            final(self).logs_spec() == old(self).logs_spec(),
            final(self).max_log_lines_spec() == old(self).max_log_lines_spec(),
    {
        proof {
            use_type_invariant(&*self);
        }
        if self.should_repaint {
            self.should_repaint = false;
            UI_UPDATE_INTERVAL_MS
        } else {
            IDLE_REPAINT_INTERVAL_MS
        }
    }
}

impl LogItem {
    /// A copy of the line, with the same message, kind and time.
    pub fn clone_item(&self) -> (res: LogItem)
        ensures
            res.entry() == self.entry(),
    {
        LogItem { message: self.message.clone(), timestamp: self.timestamp, log_type: self.log_type }
    }
}

/// The smaller of two numbers.
pub open spec fn min_nat(a: nat, b: nat) -> nat {
    if a <= b {
        a
    } else {
        b
    }
}

/// The history shows the most recent entries, newest first: after adding
/// entries in order, it holds the first `MAX_HISTORY` of the added entries
/// in reverse followed by the earlier history.
pub proof fn lemma_history_keeps_newest(h: Seq<HistoryView>, es: Seq<HistoryView>)
    requires
        h.len() <= MAX_HISTORY,
    ensures
        add_histories_spec(h, es) == (es.reverse() + h).take(
            min_nat(MAX_HISTORY as nat, es.len() + h.len()) as int,
        ),
    decreases es.len(),
{
    if es.len() == 0 {
        assert((es.reverse() + h).take(h.len() as int) =~= h);
    } else {
        let e2 = es.drop_last();
        let x = es.last();
        lemma_history_keeps_newest(h, e2);
        let a = add_histories_spec(h, e2);
        let m2 = min_nat(MAX_HISTORY as nat, e2.len() + h.len());
        assert(es.reverse() =~= seq![x] + e2.reverse());
        assert(seq![x] + a =~= (es.reverse() + h).take(m2 + 1 as int));
        if m2 + 1 > MAX_HISTORY {
            assert((seq![x] + a).take(MAX_HISTORY as int) =~= (es.reverse() + h).take(
                MAX_HISTORY as int,
            ));
        }
    }
}

/// The history never holds more than `MAX_HISTORY` entries.
pub proof fn lemma_history_bounded(h: Seq<HistoryView>, es: Seq<HistoryView>)
    requires
        h.len() <= MAX_HISTORY,
    ensures
        add_histories_spec(h, es).len() <= MAX_HISTORY,
{
    lemma_history_keeps_newest(h, es);
}

/// The log shows the most recent lines, oldest first: after adding lines in
/// order, it holds the last `max` lines of the earlier log followed by the
/// added lines.
pub proof fn lemma_logs_keep_latest(l: Seq<LogView>, es: Seq<LogView>, max: nat)
    requires
        l.len() <= max,
    ensures
        add_logs_spec(l, es, max) == (l + es).skip(
            (l.len() + es.len()) - min_nat(max, l.len() + es.len()),
        ),
    decreases es.len(),
{
    if es.len() == 0 {
        assert((l + es).skip(0) =~= l);
    } else {
        let e2 = es.drop_last();
        let x = es.last();
        lemma_logs_keep_latest(l, e2, max);
        let a = add_logs_spec(l, e2, max);
        let n2 = l.len() + e2.len();
        let k2 = n2 - min_nat(max, n2);
        assert(a.push(x) =~= (l + es).skip(k2));
        if a.len() + 1 > max {
            assert(a.push(x).skip(a.len() + 1 - max) =~= (l + es).skip(
                (l.len() + es.len()) - max,
            ));
        }
    }
}

/// The log never holds more than its limit of lines.
pub proof fn lemma_logs_bounded(l: Seq<LogView>, es: Seq<LogView>, max: nat)
    requires
        l.len() <= max,
    ensures
        add_logs_spec(l, es, max).len() <= max,
{
    lemma_logs_keep_latest(l, es, max);
}

} // verus!
