//! Application state: the download list, the URL input line, the activity
//! log, and the transitions that key presses and download progress make.
use vstd::prelude::*;

use crate::downloader::{DownloadProgress, ProgressView};
use crate::text::{
    append_decimal, byte_len, char_index_at_byte, decimal, digit_char, is_byte_boundary, push_char,
};

verus! {

/// Bytes in a kibibyte.
pub const KB: u64 = 1024;

/// Bytes in a mebibyte.
pub const MB: u64 = 1048576;

/// Bytes in a gibibyte.
pub const GB: u64 = 1073741824;

/// `bytes / unit` rounded to one decimal place, counted in tenths; an exact
/// tie goes to the even tenth, as Rust's `{:.1}` formatting rounds.
pub open spec fn rounded_tenths(bytes: nat, unit: nat) -> nat {
    let t = bytes * 10;
    let q = t / unit;
    let r = t % unit;
    if 2 * r > unit || (2 * r == unit && q % 2 == 1) {
        q + 1
    } else {
        q
    }
}

/// A count of tenths written with exactly one decimal place (`15` is `1.5`).
pub open spec fn one_decimal_place(tenths: nat) -> Seq<char> {
    decimal(tenths / 10) + seq!['.', digit_char(tenths % 10)]
}

/// The human-readable size that `format_bytes` writes: whole bytes below a
/// kibibyte, otherwise the largest of KB, MB and GB that fits, with one
/// decimal place.
pub open spec fn format_bytes_spec(bytes: nat) -> Seq<char> {
    if bytes >= GB {
        one_decimal_place(rounded_tenths(bytes, GB as nat)) + " GB"@
    } else if bytes >= MB {
        one_decimal_place(rounded_tenths(bytes, MB as nat)) + " MB"@
    } else if bytes >= KB {
        one_decimal_place(rounded_tenths(bytes, KB as nat)) + " KB"@
    } else {
        decimal(bytes) + " B"@
    }
}

fn append_scaled(s: &mut String, bytes: u64, unit: u64)
    requires
        unit >= 1,
    ensures
        final(s)@ == old(s)@ + one_decimal_place(rounded_tenths(bytes as nat, unit as nat)),
{
    let t: u128 = (bytes as u128) * 10;
    let u: u128 = unit as u128;
    let q: u128 = t / u;
    let r: u128 = t % u;
    assert(q <= t) by (nonlinear_arith)
        requires
            q == t / u,
            u >= 1,
    ;
    let tenths: u128 = if 2 * r > u || (2 * r == u && q % 2 == 1) {
        q + 1
    } else {
        q
    };
    assert(tenths == rounded_tenths(bytes as nat, unit as nat));
    let whole: u64 = (tenths / 10) as u64;
    let frac: u64 = (tenths % 10) as u64;
    append_decimal(s, whole);
    push_char(s, '.');
    push_char(s, crate::text::digit(frac));
    assert(final(s)@ =~= old(s)@ + one_decimal_place(tenths as nat));
}

/// Formats a byte count for display: `512 B`, `1.5 KB`, `2.0 MB`, `3.1 GB`.
pub fn format_bytes(bytes: u64) -> (s: String)
    ensures
        s@ == format_bytes_spec(bytes as nat),
{
    let mut s = String::new();
    if bytes >= GB {
        append_scaled(&mut s, bytes, GB);
        s.append(" GB");
    } else if bytes >= MB {
        append_scaled(&mut s, bytes, MB);
        s.append(" MB");
    } else if bytes >= KB {
        append_scaled(&mut s, bytes, KB);
        s.append(" KB");
    } else {
        append_decimal(&mut s, bytes);
        s.append(" B");
    }
    s
}

} // verus!

verus! {

/// Whether a download is running.
#[derive(Debug, Clone, Copy, PartialEq, Eq, Structural)]
pub enum AppMode {
    Idle,
    Downloading,
}

/// Which panel receives key presses.
#[derive(Debug, Clone, Copy, PartialEq, Eq, Structural)]
pub enum Focus {
    Input,
    Downloads,
}

/// The state of one download.
#[derive(Debug, Clone, PartialEq, Eq)]
pub enum DownloadStatus {
    InProgress,
    Paused,
    Completed,
    Failed(String),
}

/// A download state with its error text as a character sequence.
pub enum StatusView {
    InProgress,
    Paused,
    Completed,
    Failed(Seq<char>),
}

impl View for DownloadStatus {
    type V = StatusView;

    open spec fn view(&self) -> StatusView {
        match self {
            DownloadStatus::InProgress => StatusView::InProgress,
            DownloadStatus::Paused => StatusView::Paused,
            DownloadStatus::Completed => StatusView::Completed,
            DownloadStatus::Failed(e) => StatusView::Failed(e@),
        }
    }
}

/// One entry of the download list. `started_at_ms` is the wall-clock time,
/// in milliseconds since the Unix epoch, at which it started.
#[derive(Debug, Clone)]
pub struct Download {
    pub filename: String,
    pub total_bytes: Option<u64>,
    pub downloaded_bytes: u64,
    pub status: DownloadStatus,
    pub started_at_ms: u64,
}

/// A download entry with its texts as character sequences.
pub struct DownloadView {
    pub filename: Seq<char>,
    pub total_bytes: Option<u64>,
    pub downloaded_bytes: u64,
    pub status: StatusView,
    pub started_at_ms: u64,
}

impl View for Download {
    type V = DownloadView;

    open spec fn view(&self) -> DownloadView {
        DownloadView {
            filename: self.filename@,
            total_bytes: self.total_bytes,
            downloaded_bytes: self.downloaded_bytes,
            status: self.status@,
            started_at_ms: self.started_at_ms,
        }
    }
}

/// What the application asks its event loop to do after a key press.
#[derive(Debug, Clone, PartialEq, Eq)]
pub enum Action {
    /// Nothing to do.
    Noop,
    StartDownload(String),
    Pause,
    Resume,
    Quit,
}

/// An action with its URL as a character sequence.
pub enum ActionView {
    Noop,
    StartDownload(Seq<char>),
    Pause,
    Resume,
    Quit,
}

impl View for Action {
    type V = ActionView;

    open spec fn view(&self) -> ActionView {
        match self {
            Action::Noop => ActionView::Noop,
            Action::StartDownload(url) => ActionView::StartDownload(url@),
            Action::Pause => ActionView::Pause,
            Action::Resume => ActionView::Resume,
            Action::Quit => ActionView::Quit,
        }
    }
}

/// The keys the application reacts to; every other key is `Other`.
#[derive(Debug, Clone, Copy, PartialEq, Eq, Structural)]
pub enum KeyCode {
    Char(char),
    Enter,
    Tab,
    Esc,
    Backspace,
    Delete,
    Left,
    Right,
    Up,
    Down,
    Home,
    End,
    PageUp,
    PageDown,
    Other,
}

/// A key press: the key, and whether Control was held.
#[derive(Debug, Clone, Copy, PartialEq, Eq, Structural)]
pub struct KeyEvent {
    pub code: KeyCode,
    pub ctrl: bool,
}

/// The whole state of the terminal application. `paused` tells the
/// download tasks to hold; `cursor_position` is a byte offset into `input`.
pub struct App {
    pub mode: AppMode,
    pub input: String,
    pub cursor_position: usize,
    pub downloads: Vec<Download>,
    pub log_messages: Vec<String>,
    pub tor_connected: bool,
    pub focus: Focus,
    pub should_quit: bool,
    pub proxy_addr: String,
    pub output_dir: String,
    pub download_scroll: u16,
    pub log_scroll: u16,
    pub paused: bool,
}

/// The application state with its texts as character sequences.
pub struct AppView {
    pub mode: AppMode,
    pub input: Seq<char>,
    pub cursor: usize,
    pub downloads: Seq<DownloadView>,
    pub log: Seq<Seq<char>>,
    pub tor_connected: bool,
    pub focus: Focus,
    pub should_quit: bool,
    pub proxy_addr: Seq<char>,
    pub output_dir: Seq<char>,
    pub download_scroll: u16,
    pub log_scroll: u16,
    pub paused: bool,
}

/// The views of a list of downloads.
pub open spec fn downloads_view(ds: Seq<Download>) -> Seq<DownloadView> {
    ds.map_values(|d: Download| d@)
}

/// The views of a list of log lines.
pub open spec fn log_view(ls: Seq<String>) -> Seq<Seq<char>> {
    ls.map_values(|l: String| l@)
}

impl View for App {
    type V = AppView;

    open spec fn view(&self) -> AppView {
        AppView {
            mode: self.mode,
            input: self.input@,
            cursor: self.cursor_position,
            downloads: downloads_view(self.downloads@),
            log: log_view(self.log_messages@),
            tor_connected: self.tor_connected,
            focus: self.focus,
            should_quit: self.should_quit,
            proxy_addr: self.proxy_addr@,
            output_dir: self.output_dir@,
            download_scroll: self.download_scroll,
            log_scroll: self.log_scroll,
            paused: self.paused,
        }
    }
}

/// The first line of every log.
pub const WELCOME_MESSAGE: &'static str = "🧅 Welcome to OnionDownOda";

/// The time stamp `[HH:MM:SS] ` (UTC) of the instant `now_secs` seconds
/// after the Unix epoch, followed by `msg`: one line of the activity log.
pub open spec fn log_line(now_secs: u64, msg: Seq<char>) -> Seq<char> {
    "["@ + crate::text::two_digits(((now_secs / 3600) % 24) as nat) + ":"@
        + crate::text::two_digits(((now_secs / 60) % 60) as nat) + ":"@
        + crate::text::two_digits((now_secs % 60) as nat) + "] "@ + msg
}

impl AppView {
    /// The state after appending `msg`, time-stamped with `now_secs`, to the log.
    pub open spec fn with_log(self, now_secs: u64, msg: Seq<char>) -> AppView {
        AppView { log: self.log.push(log_line(now_secs, msg)), ..self }
    }

    /// The state in which the application starts.
    pub open spec fn initial(proxy_addr: Seq<char>, output_dir: Seq<char>) -> AppView {
        AppView {
            mode: AppMode::Idle,
            input: Seq::empty(),
            cursor: 0,
            downloads: Seq::empty(),
            log: seq![WELCOME_MESSAGE@],
            tor_connected: false,
            focus: Focus::Input,
            should_quit: false,
            proxy_addr,
            output_dir,
            download_scroll: 0,
            log_scroll: 0,
            paused: false,
        }
    }
}

impl App {
    /// The state is consistent: the cursor lies within the input line.
    pub open spec fn wf(&self) -> bool {
        self.cursor_position <= byte_len(self.input@)
    }

    /// A fresh application: idle, empty input focused, one welcome line in
    /// the log, Tor not yet known to be reachable.
    pub fn new(proxy_addr: String, output_dir: String) -> (app: App)
        ensures
            app@ == AppView::initial(proxy_addr@, output_dir@),
            app.wf(),
    {
        let mut log_messages: Vec<String> = Vec::new();
        log_messages.push(String::from_str(WELCOME_MESSAGE));
        let app = App {
            mode: AppMode::Idle,
            input: String::new(),
            cursor_position: 0,
            downloads: Vec::new(),
            log_messages,
            tor_connected: false,
            focus: Focus::Input,
            should_quit: false,
            proxy_addr,
            output_dir,
            download_scroll: 0,
            log_scroll: 0,
            paused: false,
        };
        assert(app@.log =~= seq![WELCOME_MESSAGE@]);
        assert(app@.downloads =~= Seq::<DownloadView>::empty());
        app
    }

    /// Appends `msg` to the log, time-stamped with the instant `now_secs`
    /// seconds after the Unix epoch.
    pub fn add_log_at(&mut self, now_secs: u64, msg: &str)
        ensures
            final(self)@ == old(self)@.with_log(now_secs, msg@),
    {
        let mut line = String::from_str("[");
        crate::text::append_two_digits(&mut line, (now_secs / 3600) % 24);
        line.append(":");
        crate::text::append_two_digits(&mut line, (now_secs / 60) % 60);
        line.append(":");
        crate::text::append_two_digits(&mut line, now_secs % 60);
        line.append("] ");
        line.append(msg);
        assert(line@ =~= log_line(now_secs, msg@));
        self.log_messages.push(line);
        assert(log_view(self.log_messages@) =~= log_view(old(self).log_messages@).push(
            log_line(now_secs, msg@),
        ));
    }

    /// Appends `msg` to the log, time-stamped with the current time of day.
    pub fn add_log(&mut self, msg: &str)
        ensures
            exists|t: u64| final(self)@ == #[trigger] old(self)@.with_log(t, msg@),
    {
        let now = crate::clock::unix_time_millis() / 1000;
        self.add_log_at(now, msg);
    }
}

} // verus!

verus! {

/// Logged when a download is asked for while Tor is unreachable.
pub const TOR_NOT_CONNECTED_MESSAGE: &'static str = "⚠ Cannot download — Tor proxy not connected";

/// `x - by`, or 0 if that would be negative.
pub open spec fn dec_sat(x: u16, by: u16) -> u16 {
    if x >= by {
        (x - by) as u16
    } else {
        0
    }
}

/// `x + by`, or the largest `u16` if that overflows.
pub open spec fn inc_sat(x: u16, by: u16) -> u16 {
    if x + by > u16::MAX {
        u16::MAX
    } else {
        (x + by) as u16
    }
}

/// What a key does while the URL input has the focus: editing keys change
/// the line and the cursor (a byte offset into the line's UTF-8 form, moved
/// one byte at a time, as `String` indices are), Enter asks for a download of the trimmed line
/// (or logs a warning when Tor is unreachable), Tab moves the focus to the
/// download list and Esc quits.
pub open spec fn input_key_step(s: AppView, code: KeyCode, now_secs: u64) -> (AppView, ActionView) {
    match code {
        KeyCode::Enter => {
            let url = crate::text::trim_ws(s.input);
            if url.len() == 0 {
                (s, ActionView::Noop)
            } else if !s.tor_connected {
                (s.with_log(now_secs, TOR_NOT_CONNECTED_MESSAGE@), ActionView::Noop)
            } else {
                (AppView { input: Seq::empty(), cursor: 0, ..s }, ActionView::StartDownload(url))
            }
        },
        KeyCode::Tab => (AppView { focus: Focus::Downloads, ..s }, ActionView::Noop),
        KeyCode::Esc => (s, ActionView::Quit),
        KeyCode::Backspace => if s.cursor > 0 {
            (
                AppView {
                    cursor: (s.cursor - 1) as usize,
                    input: s.input.remove(char_index_at_byte(s.input, s.cursor - 1)),
                    ..s
                },
                ActionView::Noop,
            )
        } else {
            (s, ActionView::Noop)
        },
        KeyCode::Delete => if s.cursor < byte_len(s.input) {
            (
                AppView { input: s.input.remove(char_index_at_byte(s.input, s.cursor as int)), ..s },
                ActionView::Noop,
            )
        } else {
            (s, ActionView::Noop)
        },
        KeyCode::Left => (
            AppView {
                cursor: if s.cursor > 0 {
                    (s.cursor - 1) as usize
                } else {
                    0
                },
                ..s
            },
            ActionView::Noop,
        ),
        KeyCode::Right => if s.cursor < byte_len(s.input) {
            (AppView { cursor: (s.cursor + 1) as usize, ..s }, ActionView::Noop)
        } else {
            (s, ActionView::Noop)
        },
        KeyCode::Home => (AppView { cursor: 0, ..s }, ActionView::Noop),
        KeyCode::End => (AppView { cursor: byte_len(s.input) as usize, ..s }, ActionView::Noop),
        KeyCode::Char(c) => (
            AppView {
                input: s.input.insert(char_index_at_byte(s.input, s.cursor as int), c),
                cursor: (s.cursor + 1) as usize,
                ..s
            },
            ActionView::Noop,
        ),
        _ => (s, ActionView::Noop),
    }
}

/// What a key does while the download list has the focus: Tab moves the
/// focus back to the input, `q` and Esc quit, Space asks to pause or resume
/// a running download, the arrows scroll the list by one line and Page
/// Up/Down scroll the log by three.
pub open spec fn downloads_key_step(s: AppView, code: KeyCode) -> (AppView, ActionView) {
    match code {
        KeyCode::Tab => (AppView { focus: Focus::Input, ..s }, ActionView::Noop),
        KeyCode::Char(c) => if c == 'q' {
            (s, ActionView::Quit)
        } else if c == ' ' && s.mode == AppMode::Downloading {
            (s, if s.paused { ActionView::Resume } else { ActionView::Pause })
        } else {
            (s, ActionView::Noop)
        },
        KeyCode::Esc => (s, ActionView::Quit),
        KeyCode::Up => (
            AppView { download_scroll: dec_sat(s.download_scroll, 1), ..s },
            ActionView::Noop,
        ),
        KeyCode::Down => (
            AppView { download_scroll: inc_sat(s.download_scroll, 1), ..s },
            ActionView::Noop,
        ),
        KeyCode::PageUp => (AppView { log_scroll: dec_sat(s.log_scroll, 3), ..s }, ActionView::Noop),
        KeyCode::PageDown => (
            AppView { log_scroll: inc_sat(s.log_scroll, 3), ..s },
            ActionView::Noop,
        ),
        _ => (s, ActionView::Noop),
    }
}

/// Whether a key in the input line can be handled: editing at the cursor
/// needs the cursor on a character boundary (Backspace the byte before it,
/// and a character there to remove), as `String::insert` and
/// `String::remove` need; other keys can always be handled.
pub open spec fn input_key_defined(s: AppView, code: KeyCode) -> bool {
    match code {
        KeyCode::Backspace => s.cursor == 0 || (is_byte_boundary(s.input, s.cursor - 1) && s.cursor
            - 1 < byte_len(s.input)),
        KeyCode::Delete => s.cursor >= byte_len(s.input) || is_byte_boundary(s.input, s.cursor as int),
        KeyCode::Char(_) => is_byte_boundary(s.input, s.cursor as int),
        _ => true,
    }
}

/// Whether a key press can be handled in state `s` (see `input_key_defined`).
pub open spec fn key_defined(s: AppView, key: KeyEvent) -> bool {
    if key.ctrl && key.code == KeyCode::Char('c') {
        true
    } else {
        match s.focus {
            Focus::Input => input_key_defined(s, key.code),
            Focus::Downloads => true,
        }
    }
}

/// What a key press does: Control-C quits from anywhere; every other key
/// goes to the focused panel.
pub open spec fn key_step(s: AppView, key: KeyEvent, now_secs: u64) -> (AppView, ActionView) {
    if key.ctrl && key.code == KeyCode::Char('c') {
        (s, ActionView::Quit)
    } else {
        match s.focus {
            Focus::Input => input_key_step(s, key.code, now_secs),
            Focus::Downloads => downloads_key_step(s, key.code),
        }
    }
}

impl App {
    fn handle_input_key(&mut self, code: KeyCode, now_secs: u64) -> (action: Action)
        requires
            input_key_defined(old(self)@, code),
            byte_len(old(self).input@) < usize::MAX,
        ensures
            (final(self)@, action@) == input_key_step(old(self)@, code, now_secs),
            old(self).wf() ==> final(self).wf(),
    {
        let v = crate::text::chars_of(self.input.as_str());
        let n = crate::text::utf8_len(&v);
        match code {
            KeyCode::Enter => {
                let (lo, hi) = crate::text::trim_bounds(&v);
                if lo < hi {
                    if !self.tor_connected {
                        self.add_log_at(now_secs, TOR_NOT_CONNECTED_MESSAGE);
                        return Action::Noop;
                    }
                    let url = crate::text::string_from_chars(&v, lo, hi);
                    self.input = String::new();
                    self.cursor_position = 0;
                    return Action::StartDownload(url);
                }
                Action::Noop
            },
            KeyCode::Tab => {
                self.focus = Focus::Downloads;
                Action::Noop
            },
            KeyCode::Esc => Action::Quit,
            KeyCode::Backspace => {
                if self.cursor_position > 0 {
                    let b = self.cursor_position - 1;
                    if let Some(k) = crate::text::char_index_of_byte(&v, b) {
                        proof {
                            crate::text::lemma_byte_boundary(v@, b as int);
                            crate::text::lemma_remove_at_boundary(v@, b as int);
                        }
                        self.input = crate::text::remove_char(self.input.as_str(), k);
                        self.cursor_position = b;
                    }
                }
                Action::Noop
            },
            KeyCode::Delete => {
                if (self.cursor_position as u128) < n {
                    if let Some(k) = crate::text::char_index_of_byte(&v, self.cursor_position) {
                        proof {
                            crate::text::lemma_byte_boundary(v@, self.cursor_position as int);
                            crate::text::lemma_remove_at_boundary(v@, self.cursor_position as int);
                        }
                        self.input = crate::text::remove_char(self.input.as_str(), k);
                    }
                }
                Action::Noop
            },
            KeyCode::Left => {
                self.cursor_position = self.cursor_position.saturating_sub(1);
                Action::Noop
            },
            KeyCode::Right => {
                if (self.cursor_position as u128) < n {
                    self.cursor_position = self.cursor_position + 1;
                }
                Action::Noop
            },
            KeyCode::Home => {
                self.cursor_position = 0;
                Action::Noop
            },
            KeyCode::End => {
                self.cursor_position = n as usize;
                Action::Noop
            },
            KeyCode::Char(c) => {
                if let Some(k) = crate::text::char_index_of_byte(&v, self.cursor_position) {
                    proof {
                        crate::text::lemma_byte_boundary(v@, self.cursor_position as int);
                        crate::text::lemma_insert_at_boundary(v@, self.cursor_position as int, c);
                    }
                    self.input = crate::text::insert_char(self.input.as_str(), k, c);
                    self.cursor_position = self.cursor_position + 1;
                }
                Action::Noop
            },
            _ => Action::Noop,
        }
    }

    fn handle_downloads_key(&mut self, code: KeyCode) -> (action: Action)
        ensures
            (final(self)@, action@) == downloads_key_step(old(self)@, code),
            final(self).input == old(self).input,
            final(self).cursor_position == old(self).cursor_position,
    {
        match code {
            KeyCode::Tab => {
                self.focus = Focus::Input;
                Action::Noop
            },
            KeyCode::Char(c) => {
                if c == 'q' {
                    Action::Quit
                } else if c == ' ' && self.mode == AppMode::Downloading {
                    if self.paused {
                        Action::Resume
                    } else {
                        Action::Pause
                    }
                } else {
                    Action::Noop
                }
            },
            KeyCode::Esc => Action::Quit,
            KeyCode::Up => {
                self.download_scroll = self.download_scroll.saturating_sub(1);
                Action::Noop
            },
            KeyCode::Down => {
                self.download_scroll = self.download_scroll.saturating_add(1);
                Action::Noop
            },
            KeyCode::PageUp => {
                self.log_scroll = self.log_scroll.saturating_sub(3);
                Action::Noop
            },
            KeyCode::PageDown => {
                self.log_scroll = self.log_scroll.saturating_add(3);
                Action::Noop
            },
            _ => Action::Noop,
        }
    }

    /// Whether `handle_key` can take `key` in the present state: the key can
    /// be handled (see `key_defined`) and the line is shorter than the
    /// largest `usize` in bytes.
    pub fn can_handle_key(&self, key: KeyEvent) -> (b: bool)
        ensures
            b == (key_defined(self@, key) && byte_len(self.input@) < usize::MAX),
    {
        let v = crate::text::chars_of(self.input.as_str());
        let n = crate::text::utf8_len(&v);
        if n >= usize::MAX as u128 {
            return false;
        }
        if key.ctrl && key.code == KeyCode::Char('c') {
            return true;
        }
        match self.focus {
            Focus::Downloads => true,
            Focus::Input => match key.code {
                KeyCode::Backspace => {
                    if self.cursor_position == 0 {
                        true
                    } else {
                        let b = self.cursor_position - 1;
                        crate::text::char_index_of_byte(&v, b).is_some() && (b as u128) < n
                    }
                },
                KeyCode::Delete => {
                    (self.cursor_position as u128) >= n || crate::text::char_index_of_byte(
                        &v,
                        self.cursor_position,
                    ).is_some()
                },
                KeyCode::Char(_) => crate::text::char_index_of_byte(&v, self.cursor_position).is_some(),
                _ => true,
            },
        }
    }

    /// Handles a key press at the instant `now_secs` seconds after the Unix
    /// epoch (the time stamp of any line it logs); see `key_step`.
    pub fn handle_key_at(&mut self, key: KeyEvent, now_secs: u64) -> (action: Action)
        requires
            key_defined(old(self)@, key),
            byte_len(old(self).input@) < usize::MAX,
        ensures
            (final(self)@, action@) == key_step(old(self)@, key, now_secs),
            old(self).wf() ==> final(self).wf(),
    {
        if key.ctrl && key.code == KeyCode::Char('c') {
            return Action::Quit;
        }
        match self.focus {
            Focus::Input => self.handle_input_key(key.code, now_secs),
            Focus::Downloads => self.handle_downloads_key(key.code),
        }
    }

    /// Handles a key press now (see `key_step`); a logged line carries the
    /// current time of day.
    pub fn handle_key(&mut self, key: KeyEvent) -> (action: Action)
        requires
            key_defined(old(self)@, key),
            byte_len(old(self).input@) < usize::MAX,
        ensures
            exists|t: u64| (final(self)@, action@) == #[trigger] key_step(old(self)@, key, t),
            old(self).wf() ==> final(self).wf(),
    {
        let now = crate::clock::unix_time_millis() / 1000;
        self.handle_key_at(key, now)
    }
}

} // verus!

verus! {

/// How long a download has been running at `now_ms`, in milliseconds
/// (0 if the clock reads earlier than its start).
pub open spec fn elapsed_ms(d: DownloadView, now_ms: u64) -> nat {
    if now_ms >= d.started_at_ms {
        (now_ms - d.started_at_ms) as nat
    } else {
        0
    }
}

/// The average speed of a download at `now_ms`, in whole bytes per second
/// (0 before any time has passed, the largest `u64` if it exceeds that).
pub open spec fn speed_bps_spec(d: DownloadView, now_ms: u64) -> u64 {
    let e = elapsed_ms(d, now_ms);
    if e == 0 {
        0
    } else {
        let v = (d.downloaded_bytes * 1000) as nat / e;
        if v > u64::MAX {
            u64::MAX
        } else {
            v as u64
        }
    }
}

/// The seconds left at the average speed so far, rounded down: known once
/// some bytes have arrived over some time and the total size is known.
pub open spec fn eta_seconds_spec(d: DownloadView, now_ms: u64) -> Option<u64> {
    let e = elapsed_ms(d, now_ms);
    if e > 0 && d.downloaded_bytes > 0 && d.total_bytes is Some {
        let total = d.total_bytes->0;
        let remaining: nat = if total >= d.downloaded_bytes {
            (total - d.downloaded_bytes) as nat
        } else {
            0
        };
        let secs = remaining * e / ((d.downloaded_bytes * 1000) as nat);
        Some(
            if secs > u64::MAX {
                u64::MAX
            } else {
                secs as u64
            },
        )
    } else {
        None
    }
}

impl Download {
    fn elapsed_ms_at(&self, now_ms: u64) -> (e: u64)
        ensures
            e == elapsed_ms(self@, now_ms),
    {
        now_ms.saturating_sub(self.started_at_ms)
    }

    /// The average speed at `now_ms` (see `speed_bps_spec`).
    pub fn speed_bps_at(&self, now_ms: u64) -> (v: u64)
        ensures
            v == speed_bps_spec(self@, now_ms),
    {
        let e = self.elapsed_ms_at(now_ms);
        if e == 0 {
            return 0;
        }
        let v: u128 = (self.downloaded_bytes as u128) * 1000 / (e as u128);
        if v > u64::MAX as u128 {
            u64::MAX
        } else {
            v as u64
        }
    }

    /// The average speed so far, in bytes per second, by the system clock.
    pub fn speed_bps(&self) -> (v: u64)
        ensures
            exists|now: u64| v == #[trigger] speed_bps_spec(self@, now),
    {
        self.speed_bps_at(crate::clock::unix_time_millis())
    }

    /// The estimated seconds left at `now_ms` (see `eta_seconds_spec`).
    pub fn eta_seconds_at(&self, now_ms: u64) -> (eta: Option<u64>)
        ensures
            eta == eta_seconds_spec(self@, now_ms),
    {
        let e = self.elapsed_ms_at(now_ms);
        if e > 0 && self.downloaded_bytes > 0 {
            if let Some(total) = self.total_bytes {
                let remaining: u64 = total.saturating_sub(self.downloaded_bytes);
                assert((remaining as u128) * (e as u128) <= u64::MAX * u64::MAX) by (nonlinear_arith)
                    requires
                        remaining <= u64::MAX,
                        e <= u64::MAX,
                ;
                let num: u128 = (remaining as u128) * (e as u128);
                let den: u128 = (self.downloaded_bytes as u128) * 1000;
                let secs: u128 = num / den;
                return Some(
                    if secs > u64::MAX as u128 {
                        u64::MAX
                    } else {
                        secs as u64
                    },
                );
            }
        }
        None
    }

    /// The estimated seconds left, by the system clock.
    pub fn eta_seconds(&self) -> (eta: Option<u64>)
        ensures
            exists|now: u64| eta == #[trigger] eta_seconds_spec(self@, now),
    {
        self.eta_seconds_at(crate::clock::unix_time_millis())
    }
}

} // verus!

verus! {

/// Logged when the downloads are paused.
pub const PAUSED_MESSAGE: &'static str = "⏸️ Download paused (Space to resume)";

/// Logged when the downloads resume.
pub const RESUMED_MESSAGE: &'static str = "▶️ Download resumed";

/// `ds` with its last entry replaced by `f` of it; an empty list is kept.
pub open spec fn update_last(
    ds: Seq<DownloadView>,
    f: spec_fn(DownloadView) -> DownloadView,
) -> Seq<DownloadView> {
    if ds.len() == 0 {
        ds
    } else {
        ds.update(ds.len() - 1, f(ds.last()))
    }
}

/// `d` with its state changed from `from` to `to`; other states are kept.
pub open spec fn switch_status(d: DownloadView, from: StatusView, to: StatusView) -> DownloadView {
    if d.status == from {
        DownloadView { status: to, ..d }
    } else {
        d
    }
}

/// Pausing: the pause flag is raised, the latest download is marked paused
/// if it was in progress, and the pause is logged.
pub open spec fn pause_step(s: AppView, now_secs: u64) -> AppView {
    AppView {
        paused: true,
        downloads: update_last(
            s.downloads,
            |d: DownloadView| switch_status(d, StatusView::InProgress, StatusView::Paused),
        ),
        ..s
    }.with_log(now_secs, PAUSED_MESSAGE@)
}

/// Resuming: the pause flag is lowered, the latest download is marked in
/// progress if it was paused, and the resumption is logged.
pub open spec fn resume_step(s: AppView, now_secs: u64) -> AppView {
    AppView {
        paused: false,
        downloads: update_last(
            s.downloads,
            |d: DownloadView| switch_status(d, StatusView::Paused, StatusView::InProgress),
        ),
        ..s
    }.with_log(now_secs, RESUMED_MESSAGE@)
}

/// Starting a download of `url` at `now_ms`: a new entry, named after the
/// URL, in progress with nothing received yet, and the application busy.
pub open spec fn start_step(s: AppView, url: Seq<char>, now_ms: u64) -> AppView {
    AppView {
        downloads: s.downloads.push(
            DownloadView {
                filename: crate::downloader::filename_of(url),
                total_bytes: None,
                downloaded_bytes: 0,
                status: StatusView::InProgress,
                started_at_ms: now_ms,
            },
        ),
        mode: AppMode::Downloading,
        ..s
    }
}

impl App {
    /// Marks the latest download in progress if it is paused (`from_paused`),
    /// or paused if it is in progress (otherwise); other states are kept.
    fn switch_last_status(&mut self, from_paused: bool)
        ensures
            final(self)@ == (AppView {
                downloads: update_last(
                    old(self)@.downloads,
                    |d: DownloadView|
                        if from_paused {
                            switch_status(d, StatusView::Paused, StatusView::InProgress)
                        } else {
                            switch_status(d, StatusView::InProgress, StatusView::Paused)
                        },
                ),
                ..old(self)@
            }),
    {
        let ghost f = |d: DownloadView|
            if from_paused {
                switch_status(d, StatusView::Paused, StatusView::InProgress)
            } else {
                switch_status(d, StatusView::InProgress, StatusView::Paused)
            };
        if let Some(mut dl) = self.downloads.pop() {
            let matches = match &dl.status {
                DownloadStatus::InProgress => !from_paused,
                DownloadStatus::Paused => from_paused,
                _ => false,
            };
            if matches {
                dl.status = if from_paused {
                    DownloadStatus::InProgress
                } else {
                    DownloadStatus::Paused
                };
            }
            let ghost dv = dl@;
            self.downloads.push(dl);
            proof {
                let od = downloads_view(old(self).downloads@);
                assert(old(self).downloads@ =~= self.downloads@.drop_last().push(
                    old(self).downloads@.last(),
                ));
                assert(dv == f(od.last()));
                assert(downloads_view(self.downloads@) =~= update_last(od, f));
            }
        } else {
            assert(update_last(downloads_view(old(self).downloads@), f) =~= downloads_view(
                self.downloads@,
            ));
        }
    }

    /// Pauses at the instant `now_secs` (see `pause_step`).
    pub fn pause_download_at(&mut self, now_secs: u64)
        ensures
            final(self)@ == pause_step(old(self)@, now_secs),
    {
        self.paused = true;
        self.switch_last_status(false);
        self.add_log_at(now_secs, PAUSED_MESSAGE);
    }

    /// Pauses now (see `pause_step`).
    pub fn pause_download(&mut self)
        ensures
            exists|t: u64| final(self)@ == #[trigger] pause_step(old(self)@, t),
    {
        self.pause_download_at(crate::clock::unix_time_millis() / 1000);
    }

    /// Resumes at the instant `now_secs` (see `resume_step`).
    pub fn resume_download_at(&mut self, now_secs: u64)
        ensures
            final(self)@ == resume_step(old(self)@, now_secs),
    {
        self.paused = false;
        self.switch_last_status(true);
        self.add_log_at(now_secs, RESUMED_MESSAGE);
    }

    /// Resumes now (see `resume_step`).
    pub fn resume_download(&mut self)
        ensures
            exists|t: u64| final(self)@ == #[trigger] resume_step(old(self)@, t),
    {
        self.resume_download_at(crate::clock::unix_time_millis() / 1000);
    }

    /// Adds a download of `url` begun at `now_ms` (see `start_step`).
    pub fn start_download_at(&mut self, url: &str, now_ms: u64)
        ensures
            final(self)@ == start_step(old(self)@, url@, now_ms),
    {
        let filename = crate::downloader::extract_filename(url);
        self.downloads.push(
            Download {
                filename,
                total_bytes: None,
                downloaded_bytes: 0,
                status: DownloadStatus::InProgress,
                started_at_ms: now_ms,
            },
        );
        self.mode = AppMode::Downloading;
        assert(downloads_view(self.downloads@) =~= start_step(old(self)@, url@, now_ms).downloads);
    }

    /// Adds a download of `url` begun now (see `start_step`).
    pub fn start_download(&mut self, url: &str)
        ensures
            exists|t: u64| final(self)@ == #[trigger] start_step(old(self)@, url@, t),
    {
        self.start_download_at(url, crate::clock::unix_time_millis());
    }
}

} // verus!

verus! {

/// What the log says about a size that may be unknown.
pub open spec fn size_text(total_bytes: Option<u64>) -> Seq<char> {
    match total_bytes {
        Some(b) => format_bytes_spec(b as nat),
        None => "unknown size"@,
    }
}

/// The effect of one progress report at `now_secs`; it concerns the latest
/// download. `Started` logs the name and size and records them; `Progress`
/// records the bytes received, and the total if none was known; `Completed`
/// marks the download done with all its bytes, logs it and makes the
/// application idle; `Failed` marks the download failed with the error, logs
/// it and makes the application idle.
pub open spec fn progress_step(s: AppView, p: ProgressView, now_secs: u64) -> AppView {
    match p {
        ProgressView::Started { id, filename, total_bytes } => {
            let s1 = s.with_log(
                now_secs,
                "📥 Starting: "@ + filename + " ("@ + size_text(total_bytes) + ")"@,
            );
            AppView {
                downloads: update_last(
                    s1.downloads,
                    |d: DownloadView| DownloadView { total_bytes, filename, ..d },
                ),
                ..s1
            }
        },
        ProgressView::Progress { id, downloaded, total } => AppView {
            downloads: update_last(
                s.downloads,
                |d: DownloadView|
                    DownloadView {
                        downloaded_bytes: downloaded,
                        total_bytes: if d.total_bytes is None {
                            total
                        } else {
                            d.total_bytes
                        },
                        ..d
                    },
            ),
            ..s
        },
        ProgressView::Completed { id, filepath, total_bytes } => {
            let s1 = AppView {
                downloads: update_last(
                    s.downloads,
                    |d: DownloadView|
                        DownloadView {
                            downloaded_bytes: total_bytes,
                            status: StatusView::Completed,
                            ..d
                        },
                ),
                ..s
            };
            AppView {
                mode: AppMode::Idle,
                ..s1.with_log(
                    now_secs,
                    "✅ Done: "@ + filepath + " ("@ + format_bytes_spec(total_bytes as nat) + ")"@,
                )
            }
        },
        ProgressView::Failed { id, error } => {
            let s1 = AppView {
                downloads: update_last(
                    s.downloads,
                    |d: DownloadView| DownloadView { status: StatusView::Failed(error), ..d },
                ),
                ..s
            };
            AppView { mode: AppMode::Idle, ..s1.with_log(now_secs, "❌ Failed: "@ + error) }
        },
    }
}

/// The effect of the reports `ps` applied in order, the `i`-th at `ts[i]`.
pub open spec fn progress_steps(s: AppView, ps: Seq<ProgressView>, ts: Seq<u64>) -> AppView
    decreases ps.len(),
{
    if ps.len() == 0 {
        s
    } else {
        progress_step(
            progress_steps(s, ps.drop_last(), ts.drop_last()),
            ps.last(),
            ts[ps.len() - 1],
        )
    }
}

/// The views of a list of progress reports.
pub open spec fn reports_view(ps: Seq<DownloadProgress>) -> Seq<ProgressView> {
    ps.map_values(|p: DownloadProgress| p@)
}

impl App {
    /// Puts back, as the latest download, `dl`: the latest entry of `prev`
    /// transformed by `f`, after it was popped off `prev`.
    fn put_last(
        &mut self,
        dl: Download,
        Ghost(prev): Ghost<Seq<Download>>,
        Ghost(f): Ghost<spec_fn(DownloadView) -> DownloadView>,
    )
        requires
            prev.len() > 0,
            old(self).downloads@ == prev.drop_last(),
            dl@ == f(prev.last()@),
        ensures
            final(self)@ == (AppView {
                downloads: update_last(downloads_view(prev), f),
                ..old(self)@
            }),
    {
        self.downloads.push(dl);
        proof {
            assert(prev =~= self.downloads@.drop_last().push(prev.last()));
            assert(downloads_view(self.downloads@) =~= update_last(downloads_view(prev), f));
        }
    }

    /// Applies one progress report at the instant `now_secs` (see `progress_step`).
    pub fn apply_progress_at(&mut self, progress: DownloadProgress, now_secs: u64)
        ensures
            final(self)@ == progress_step(old(self)@, progress@, now_secs),
    {
        let ghost p = progress@;
        match progress {
            DownloadProgress::Started { id, filename, total_bytes } => {
                let mut msg = String::from_str("📥 Starting: ");
                msg.append(filename.as_str());
                msg.append(" (");
                match total_bytes {
                    Some(b) => {
                        let t = format_bytes(b);
                        msg.append(t.as_str());
                    },
                    None => msg.append("unknown size"),
                }
                msg.append(")");
                self.add_log_at(now_secs, msg.as_str());
                let ghost fname = filename@;
                let ghost f = |d: DownloadView| DownloadView { total_bytes, filename: fname, ..d };
                let ghost prev = self.downloads@;
                if let Some(mut dl) = self.downloads.pop() {
                    dl.total_bytes = total_bytes;
                    dl.filename = filename;
                    self.put_last(dl, Ghost(prev), Ghost(f));
                } else {
                    assert(update_last(downloads_view(prev), f) =~= downloads_view(prev));
                }
            },
            DownloadProgress::Progress { id, downloaded, total } => {
                let ghost f = |d: DownloadView|
                    DownloadView {
                        downloaded_bytes: downloaded,
                        total_bytes: if d.total_bytes is None {
                            total
                        } else {
                            d.total_bytes
                        },
                        ..d
                    };
                let ghost prev = self.downloads@;
                if let Some(mut dl) = self.downloads.pop() {
                    dl.downloaded_bytes = downloaded;
                    if dl.total_bytes.is_none() {
                        dl.total_bytes = total;
                    }
                    self.put_last(dl, Ghost(prev), Ghost(f));
                } else {
                    assert(update_last(downloads_view(prev), f) =~= downloads_view(prev));
                }
            },
            DownloadProgress::Completed { id, filepath, total_bytes } => {
                let ghost f = |d: DownloadView|
                    DownloadView {
                        downloaded_bytes: total_bytes,
                        status: StatusView::Completed,
                        ..d
                    };
                let ghost prev = self.downloads@;
                if let Some(mut dl) = self.downloads.pop() {
                    dl.downloaded_bytes = total_bytes;
                    dl.status = DownloadStatus::Completed;
                    self.put_last(dl, Ghost(prev), Ghost(f));
                } else {
                    assert(update_last(downloads_view(prev), f) =~= downloads_view(prev));
                }
                let mut msg = String::from_str("✅ Done: ");
                msg.append(filepath.as_str());
                msg.append(" (");
                let t = format_bytes(total_bytes);
                msg.append(t.as_str());
                msg.append(")");
                self.add_log_at(now_secs, msg.as_str());
                self.mode = AppMode::Idle;
            },
            DownloadProgress::Failed { id, error } => {
                let ghost e = error@;
                let ghost f = |d: DownloadView| DownloadView { status: StatusView::Failed(e), ..d };
                let ghost prev = self.downloads@;
                if let Some(mut dl) = self.downloads.pop() {
                    dl.status = DownloadStatus::Failed(error.clone());
                    self.put_last(dl, Ghost(prev), Ghost(f));
                } else {
                    assert(update_last(downloads_view(prev), f) =~= downloads_view(prev));
                }
                let mut msg = String::from_str("❌ Failed: ");
                msg.append(error.as_str());
                self.add_log_at(now_secs, msg.as_str());
                self.mode = AppMode::Idle;
            },
        }
    }
}

} // verus!

verus! {

impl App {
    /// Applies the reports `messages` in order, each time-stamped with the
    /// time of day at which it is applied (see `progress_steps`).
    pub fn process_progress(&mut self, messages: Vec<DownloadProgress>)
        ensures
            exists|ts: Seq<u64>|
                ts.len() == messages@.len() && final(self)@ == #[trigger] progress_steps(
                    old(self)@,
                    reports_view(messages@),
                    ts,
                ),
    {
        let ghost ps = reports_view(messages@);
        let ghost mut ts: Seq<u64> = Seq::empty();
        let mut rest = messages;
        assert(ps.subrange(0, 0) =~= Seq::<ProgressView>::empty());
        assert(reports_view(rest@) =~= ps.subrange(0, ps.len() as int));
        while rest.len() > 0
            invariant
                ts.len() <= ps.len(),
                reports_view(rest@) == ps.subrange(ts.len() as int, ps.len() as int),
                self@ == progress_steps(old(self)@, ps.subrange(0, ts.len() as int), ts),
            decreases rest@.len(),
        {
            let ghost k: int = ts.len() as int;
            let ghost before = rest@;
            let m = rest.remove(0);
            proof {
                let rv = reports_view(before);
                assert(rv =~= ps.subrange(k, ps.len() as int));
                assert(rv.len() == before.len());
                assert(k < ps.len());
                assert(rv[0] == before[0]@);
                assert(m == before[0]);
                assert(rv[0] == ps[k]);
                assert(m@ == ps[k]);
                assert(rest@ =~= before.subrange(1, before.len() as int));
                assert forall|j: int| 0 <= j < rest@.len() implies #[trigger] reports_view(rest@)[j]
                    == ps.subrange(k + 1, ps.len() as int)[j] by {
                    assert(rest@[j] == before[j + 1]);
                    assert(rv[j + 1] == before[j + 1]@);
                    assert(rv[j + 1] == ps[k + 1 + j]);
                }
                assert(reports_view(rest@) =~= ps.subrange(k + 1, ps.len() as int));
            }
            let now = crate::clock::unix_time_millis() / 1000;
            self.apply_progress_at(m, now);
            proof {
                let ts2 = ts.push(now);
                assert(ps.subrange(0, k + 1).drop_last() =~= ps.subrange(0, k));
                assert(ts2.drop_last() =~= ts);
                assert(ps.subrange(0, k + 1).last() == ps[k]);
                ts = ts2;
            }
        }
        assert(ps.subrange(0, ts.len() as int) =~= ps);
    }
}

} // verus!

verus! {

/// Control-C quits from anywhere and leaves the state as it is.
pub proof fn lemma_ctrl_c_quits(s: AppView, now_secs: u64)
    ensures
        key_step(s, KeyEvent { code: KeyCode::Char('c'), ctrl: true }, now_secs) == (
            s,
            ActionView::Quit,
        ),
{
}

/// Key presses never touch the download list, the mode or the pause flag:
/// those change only through the actions the event loop performs.
pub proof fn lemma_keys_keep_downloads(s: AppView, key: KeyEvent, now_secs: u64)
    ensures
        key_step(s, key, now_secs).0.downloads == s.downloads,
        key_step(s, key, now_secs).0.mode == s.mode,
        key_step(s, key, now_secs).0.paused == s.paused,
{
}

/// Tab pressed twice gives the focus back and changes nothing else.
pub proof fn lemma_tab_twice(s: AppView, t1: u64, t2: u64)
    ensures
        ({
            let tab = KeyEvent { code: KeyCode::Tab, ctrl: false };
            let (s1, a1) = key_step(s, tab, t1);
            let (s2, a2) = key_step(s1, tab, t2);
            &&& s1.focus != s.focus
            &&& s2 == s
            &&& a1 == ActionView::Noop
            &&& a2 == ActionView::Noop
        }),
{
}

/// In the input line, typing any character at a character boundary and then
/// Backspace gives back the line and the cursor as they were; both keys can
/// be handled.
pub proof fn lemma_type_then_backspace(s: AppView, c: char, t1: u64, t2: u64)
    requires
        s.focus == Focus::Input,
        is_byte_boundary(s.input, s.cursor as int),
        s.cursor < usize::MAX,
    ensures
        ({
            let typed = KeyEvent { code: KeyCode::Char(c), ctrl: false };
            let back = KeyEvent { code: KeyCode::Backspace, ctrl: false };
            let (s1, _) = key_step(s, typed, t1);
            let (s2, _) = key_step(s1, back, t2);
            &&& key_defined(s, typed)
            &&& key_defined(s1, back)
            &&& s2 == s
        }),
{
    let b = s.cursor as int;
    crate::text::lemma_byte_boundary(s.input, b);
    crate::text::lemma_insert_at_boundary(s.input, b, c);
    let s1 = key_step(s, KeyEvent { code: KeyCode::Char(c), ctrl: false }, t1).0;
    assert(s1.input == s.input.insert(char_index_at_byte(s.input, b), c));
    assert(s1.cursor == b + 1);
    let s2 = key_step(s1, KeyEvent { code: KeyCode::Backspace, ctrl: false }, t2).0;
    assert(s2.input =~= s.input);
    assert(s2 == s);
}

/// On ASCII text, where bytes and characters coincide, every key can be
/// handled; a key that types an ASCII character keeps the text ASCII, and
/// every key keeps the cursor within the line.
pub proof fn lemma_ascii_input_keys(s: AppView, key: KeyEvent, now_secs: u64)
    requires
        crate::text::is_ascii_text(s.input),
        s.cursor <= s.input.len(),
        s.cursor < usize::MAX,
        key.code matches KeyCode::Char(c) ==> (c as u32) < 0x80,
    ensures
        key_defined(s, key),
        crate::text::is_ascii_text(key_step(s, key, now_secs).0.input),
        key_step(s, key, now_secs).0.cursor <= byte_len(key_step(s, key, now_secs).0.input),
{
    crate::text::lemma_ascii_bytes(s.input);
    let s1 = key_step(s, key, now_secs).0;
    if !(key.ctrl && key.code == KeyCode::Char('c')) && s.focus == Focus::Input {
        match key.code {
            KeyCode::Char(c) => {
                let b = s.cursor as int;
                assert(is_byte_boundary(s.input, b));
                crate::text::lemma_insert_at_boundary(s.input, b, c);
                assert(s1.input == s.input.insert(b, c));
                assert forall|i: int| 0 <= i < s1.input.len() implies (#[trigger] s1.input[i] as u32)
                    < 0x80 by {
                    if i < b {
                        assert(s1.input[i] == s.input[i]);
                    } else if i > b {
                        assert(s1.input[i] == s.input[i - 1]);
                    }
                }
                crate::text::lemma_ascii_bytes(s1.input);
            },
            KeyCode::Backspace => {
                if s.cursor > 0 {
                    let b = s.cursor - 1;
                    assert(is_byte_boundary(s.input, b));
                    assert(s1.input == s.input.remove(b));
                    assert forall|i: int| 0 <= i < s1.input.len() implies (#[trigger] s1.input[i] as u32)
                        < 0x80 by {
                        if i < b {
                            assert(s1.input[i] == s.input[i]);
                        } else {
                            assert(s1.input[i] == s.input[i + 1]);
                        }
                    }
                    crate::text::lemma_ascii_bytes(s1.input);
                }
            },
            KeyCode::Delete => {
                if s.cursor < s.input.len() {
                    let b = s.cursor as int;
                    assert(is_byte_boundary(s.input, b));
                    assert(s1.input == s.input.remove(b));
                    assert forall|i: int| 0 <= i < s1.input.len() implies (#[trigger] s1.input[i] as u32)
                        < 0x80 by {
                        if i < b {
                            assert(s1.input[i] == s.input[i]);
                        } else {
                            assert(s1.input[i] == s.input[i + 1]);
                        }
                    }
                    crate::text::lemma_ascii_bytes(s1.input);
                }
            },
            KeyCode::Enter => {
                crate::text::lemma_ascii_bytes(s1.input);
            },
            _ => {},
        }
    }
}

/// Enter in the input line asks for a download of the trimmed line and
/// empties the line when Tor is reachable; when it is not, nothing is asked
/// for, the line stays and one warning is logged. A blank line does nothing.
pub proof fn lemma_enter(s: AppView, now_secs: u64)
    requires
        s.focus == Focus::Input,
    ensures
        ({
            let (s1, a) = key_step(s, KeyEvent { code: KeyCode::Enter, ctrl: false }, now_secs);
            let url = crate::text::trim_ws(s.input);
            &&& url.len() == 0 ==> s1 == s && a == ActionView::Noop
            &&& url.len() > 0 && s.tor_connected ==> a == ActionView::StartDownload(url)
                && s1.input.len() == 0 && s1.cursor == 0 && s1.log == s.log
            &&& url.len() > 0 && !s.tor_connected ==> a == ActionView::Noop && s1.input == s.input
                && s1.log == s.log.push(log_line(now_secs, TOR_NOT_CONNECTED_MESSAGE@))
        }),
{
}

/// Space in the download list pauses a running download, and after the
/// pause the same key resumes it.
pub proof fn lemma_space_toggles_pause(s: AppView, t1: u64, t2: u64, t3: u64)
    requires
        s.focus == Focus::Downloads,
        s.mode == AppMode::Downloading,
        !s.paused,
    ensures
        ({
            let space = KeyEvent { code: KeyCode::Char(' '), ctrl: false };
            &&& key_step(s, space, t1).1 == ActionView::Pause
            &&& key_step(pause_step(s, t2), space, t3).1 == ActionView::Resume
        }),
{
}

/// Pausing and then resuming lowers the pause flag and leaves the download
/// list as it was (unless the latest download was already paused, which
/// resuming sets going), with one log line for each step.
pub proof fn lemma_pause_then_resume(s: AppView, t1: u64, t2: u64)
    requires
        s.downloads.len() == 0 || s.downloads.last().status != StatusView::Paused,
    ensures
        ({
            let s2 = resume_step(pause_step(s, t1), t2);
            &&& s2.downloads == s.downloads
            &&& !s2.paused
            &&& s2.log == s.log.push(log_line(t1, PAUSED_MESSAGE@)).push(
                log_line(t2, RESUMED_MESSAGE@),
            )
            &&& s2.input == s.input
            &&& s2.mode == s.mode
        }),
{
    let s1 = pause_step(s, t1);
    let s2 = resume_step(s1, t2);
    if s.downloads.len() > 0 {
        let d = s.downloads.last();
        if d.status == StatusView::InProgress {
            assert(s1.downloads.last().status == StatusView::Paused);
            assert(s2.downloads.last() == d);
        } else {
            assert(s1.downloads.last() == d);
        }
        assert(s2.downloads =~= s.downloads);
    }
}

/// A download that completes or fails leaves the application idle, and its
/// entry says so; a completed entry counts every byte that was reported.
pub proof fn lemma_finished_download(s: AppView, p: ProgressView, now_secs: u64)
    requires
        s.downloads.len() > 0,
        p is Completed || p is Failed,
    ensures
        ({
            let s1 = progress_step(s, p, now_secs);
            &&& s1.mode == AppMode::Idle
            &&& s1.downloads.len() == s.downloads.len()
            &&& s1.log.len() == s.log.len() + 1
            &&& p matches ProgressView::Completed { total_bytes, .. } ==> s1.downloads.last().status
                == StatusView::Completed && s1.downloads.last().downloaded_bytes == total_bytes
            &&& p matches ProgressView::Failed { error, .. } ==> s1.downloads.last().status
                == StatusView::Failed(error)
        }),
{
}

/// Every report concerns the latest download only: the earlier entries of
/// the list stay as they were.
pub proof fn lemma_progress_touches_latest_only(s: AppView, p: ProgressView, now_secs: u64)
    ensures
        ({
            let s1 = progress_step(s, p, now_secs);
            &&& s1.downloads.len() == s.downloads.len()
            &&& forall|i: int|
                0 <= i < s.downloads.len() - 1 ==> #[trigger] s1.downloads[i] == s.downloads[i]
        }),
{
}

/// A `Started` report names the latest download and records its size,
/// logging one line; a `Progress` report records the bytes received, and
/// the total only when none was known, logging nothing. Neither changes the
/// mode, the state of the download or the earlier entries.
pub proof fn lemma_started_and_progress(s: AppView, p: ProgressView, now_secs: u64)
    requires
        s.downloads.len() > 0,
        p is Started || p is Progress,
    ensures
        ({
            let s1 = progress_step(s, p, now_secs);
            let d = s.downloads.last();
            let d1 = s1.downloads.last();
            &&& s1.mode == s.mode
            &&& s1.downloads.len() == s.downloads.len()
            &&& d1.status == d.status
            &&& d1.started_at_ms == d.started_at_ms
            &&& p matches ProgressView::Started { filename, total_bytes, .. } ==> {
                &&& d1.filename == filename
                &&& d1.total_bytes == total_bytes
                &&& d1.downloaded_bytes == d.downloaded_bytes
                &&& s1.log.len() == s.log.len() + 1
                &&& s1.log.drop_last() == s.log
            }
            &&& p matches ProgressView::Progress { downloaded, total, .. } ==> {
                &&& d1.filename == d.filename
                &&& d1.downloaded_bytes == downloaded
                &&& d1.total_bytes == (if d.total_bytes is Some {
                    d.total_bytes
                } else {
                    total
                })
                &&& s1.log == s.log
            }
        }),
{
    let s1 = progress_step(s, p, now_secs);
    if p is Started {
        assert(s1.log.drop_last() =~= s.log);
    }
}

/// Reports are applied in the order they arrive: one more report, taken at
/// `t`, acts on the state that the reports before it left behind.
pub proof fn lemma_reports_in_order(
    s: AppView,
    ps: Seq<ProgressView>,
    ts: Seq<u64>,
    p: ProgressView,
    t: u64,
)
    requires
        ts.len() == ps.len(),
    ensures
        progress_steps(s, ps.push(p), ts.push(t)) == progress_step(progress_steps(s, ps, ts), p, t),
{
    assert(ps.push(p).drop_last() =~= ps);
    assert(ts.push(t).drop_last() =~= ts);
}

/// A run of reports keeps the number of downloads.
proof fn lemma_reports_keep_count(s: AppView, ps: Seq<ProgressView>, ts: Seq<u64>)
    ensures
        progress_steps(s, ps, ts).downloads.len() == s.downloads.len(),
    decreases ps.len(),
{
    if ps.len() > 0 {
        lemma_reports_keep_count(s, ps.drop_last(), ts.drop_last());
        lemma_progress_touches_latest_only(
            progress_steps(s, ps.drop_last(), ts.drop_last()),
            ps.last(),
            ts[ps.len() - 1],
        );
    }
}

/// The newest report wins: when the last of a run of reports is a
/// `Progress`, the latest download counts the bytes that report gives,
/// whatever the reports before it said; the list keeps its length.
pub proof fn lemma_last_progress_wins(s: AppView, ps: Seq<ProgressView>, ts: Seq<u64>)
    requires
        s.downloads.len() > 0,
        ps.len() > 0,
        ts.len() == ps.len(),
    ensures
        progress_steps(s, ps, ts).downloads.len() == s.downloads.len(),
        ps.last() matches ProgressView::Progress { downloaded, .. } ==> progress_steps(
            s,
            ps,
            ts,
        ).downloads.last().downloaded_bytes == downloaded,
{
    lemma_reports_keep_count(s, ps, ts);
    lemma_reports_keep_count(s, ps.drop_last(), ts.drop_last());
}

/// In the download list, Up and Down move the list by one line and
/// PageUp and PageDown move the log by three, each stopping at its ends;
/// nothing else changes. Down after Up comes back to a line that was not
/// the first, and Up after Down to one that was not the last.
pub proof fn lemma_scroll_keys(s: AppView, t: u64)
    requires
        s.focus == Focus::Downloads,
    ensures
        ({
            let up = key_step(s, KeyEvent { code: KeyCode::Up, ctrl: false }, t);
            let down = key_step(s, KeyEvent { code: KeyCode::Down, ctrl: false }, t);
            let pg_up = key_step(s, KeyEvent { code: KeyCode::PageUp, ctrl: false }, t);
            let pg_down = key_step(s, KeyEvent { code: KeyCode::PageDown, ctrl: false }, t);
            &&& up.0.download_scroll == (if s.download_scroll > 0 {
                s.download_scroll - 1
            } else {
                0
            })
            &&& up.0 == AppView { download_scroll: up.0.download_scroll, ..s }
            &&& up.1 == ActionView::Noop
            &&& down.0.download_scroll == (if s.download_scroll < u16::MAX {
                s.download_scroll + 1
            } else {
                u16::MAX as int
            })
            &&& down.0 == AppView { download_scroll: down.0.download_scroll, ..s }
            &&& down.1 == ActionView::Noop
            &&& pg_up.0.log_scroll == (if s.log_scroll >= 3 {
                s.log_scroll - 3
            } else {
                0
            })
            &&& pg_up.0 == AppView { log_scroll: pg_up.0.log_scroll, ..s }
            &&& pg_up.1 == ActionView::Noop
            &&& pg_down.0.log_scroll == (if s.log_scroll <= u16::MAX - 3 {
                s.log_scroll + 3
            } else {
                u16::MAX as int
            })
            &&& pg_down.0 == AppView { log_scroll: pg_down.0.log_scroll, ..s }
            &&& pg_down.1 == ActionView::Noop
            &&& s.download_scroll > 0 ==> key_step(
                up.0,
                KeyEvent { code: KeyCode::Down, ctrl: false },
                t,
            ).0 == s
            &&& s.download_scroll < u16::MAX ==> key_step(
                down.0,
                KeyEvent { code: KeyCode::Up, ctrl: false },
                t,
            ).0 == s
        }),
{
}

} // verus!

verus! {

/// Once every byte of a known size has arrived, over some time, the
/// estimate is zero seconds.
pub proof fn lemma_eta_when_done(d: DownloadView, now_ms: u64)
    requires
        d.total_bytes is Some,
        d.downloaded_bytes >= d.total_bytes->0,
        d.downloaded_bytes > 0,
        elapsed_ms(d, now_ms) > 0,
    ensures
        eta_seconds_spec(d, now_ms) == Some(0u64),
{
    let e = elapsed_ms(d, now_ms);
    assert(0 * e / ((d.downloaded_bytes * 1000) as nat) == 0) by (nonlinear_arith)
        requires
            d.downloaded_bytes > 0,
    ;
}

} // verus!

verus! {

/// Every log line begins with an eleven-character stamp `[HH:MM:SS] `
/// (hours below 24, minutes and seconds below 60) and ends with the message.
pub proof fn lemma_log_line_shape(now_secs: u64, msg: Seq<char>)
    ensures
        log_line(now_secs, msg).len() == 11 + msg.len(),
        log_line(now_secs, msg).subrange(11, log_line(now_secs, msg).len() as int) == msg,
        log_line(now_secs, msg)[0] == '[',
        log_line(now_secs, msg)[3] == ':',
        log_line(now_secs, msg)[6] == ':',
        log_line(now_secs, msg)[9] == ']',
{
    reveal_strlit("[");
    reveal_strlit(":");
    reveal_strlit("] ");
    let h = ((now_secs / 3600) % 24) as nat;
    let m = ((now_secs / 60) % 60) as nat;
    let s = (now_secs % 60) as nat;
    lemma_two_digits_len(h);
    lemma_two_digits_len(m);
    lemma_two_digits_len(s);
    let l = log_line(now_secs, msg);
    assert(l.subrange(11, l.len() as int) =~= msg);
}

/// A number below 100 takes exactly two characters when written with
/// `two_digits`.
proof fn lemma_two_digits_len(n: nat)
    requires
        n < 100,
    ensures
        crate::text::two_digits(n).len() == 2,
{
    if n >= 10 {
        assert(decimal(n) == decimal(n / 10).push(digit_char(n % 10)));
        assert(n / 10 < 10);
    }
}

} // verus!

verus! {

/// The tenths a size is written with are the nearest to `bytes / unit`:
/// `rounded_tenths / 10` is within half a tenth of it.
pub proof fn lemma_rounded_tenths_nearest(bytes: nat, unit: nat)
    requires
        unit > 0,
    ensures
        2 * rounded_tenths(bytes, unit) * unit <= 20 * bytes + unit,
        20 * bytes <= 2 * rounded_tenths(bytes, unit) * unit + unit,
{
    let t = bytes * 10;
    let q = t / unit;
    let r = t % unit;
    assert(t == q * unit + r && 0 <= r < unit) by (nonlinear_arith)
        requires
            unit > 0,
            q == t / unit,
            r == t % unit,
    ;
    let n = rounded_tenths(bytes, unit);
    assert(2 * n * unit == 2 * (n * unit)) by (nonlinear_arith);
    if n == q + 1 {
        assert(2 * r >= unit);
        assert(n * unit == q * unit + unit) by (nonlinear_arith)
            requires
                n == q + 1,
        ;
    } else {
        assert(n == q);
        assert(2 * r <= unit);
    }
}

/// Below 1024 bytes a size is written in whole bytes; from there on in the
/// largest of KB (1024 bytes), MB (1024 KB) and GB (1024 MB) that it reaches.
pub proof fn lemma_format_bytes_units(bytes: nat)
    ensures
        bytes < 1024 ==> format_bytes_spec(bytes) == decimal(bytes) + " B"@,
        1024 <= bytes < 1048576 ==> format_bytes_spec(bytes) == one_decimal_place(
            rounded_tenths(bytes, 1024),
        ) + " KB"@,
        1048576 <= bytes < 1073741824 ==> format_bytes_spec(bytes) == one_decimal_place(
            rounded_tenths(bytes, 1048576),
        ) + " MB"@,
        1073741824 <= bytes ==> format_bytes_spec(bytes) == one_decimal_place(
            rounded_tenths(bytes, 1073741824),
        ) + " GB"@,
{
}

/// The speed is rounded down: over the time elapsed it accounts for no more
/// than the bytes received, and one byte per second more would account for
/// more.
pub proof fn lemma_speed_rounds_down(d: DownloadView, now_ms: u64)
    requires
        elapsed_ms(d, now_ms) > 0,
        speed_bps_spec(d, now_ms) < u64::MAX,
    ensures
        speed_bps_spec(d, now_ms) * elapsed_ms(d, now_ms) <= d.downloaded_bytes * 1000,
        d.downloaded_bytes * 1000 < (speed_bps_spec(d, now_ms) + 1) * elapsed_ms(d, now_ms),
{
    let e = elapsed_ms(d, now_ms);
    let x = (d.downloaded_bytes * 1000) as nat;
    let v = x / e;
    assert(v * e <= x < (v + 1) * e) by (nonlinear_arith)
        requires
            e > 0,
            v == x / e,
    ;
}

/// The estimate is the remaining bytes at the average speed so far, in whole
/// seconds rounded down: `eta * downloaded * 1000 <= remaining * elapsed`,
/// and one second more would exceed it.
pub proof fn lemma_eta_rounds_down(d: DownloadView, now_ms: u64)
    requires
        elapsed_ms(d, now_ms) > 0,
        d.downloaded_bytes > 0,
        d.total_bytes is Some,
        d.total_bytes->0 >= d.downloaded_bytes,
        eta_seconds_spec(d, now_ms)->0 < u64::MAX,
    ensures
        eta_seconds_spec(d, now_ms) is Some,
        eta_seconds_spec(d, now_ms)->0 * (d.downloaded_bytes * 1000) <= (d.total_bytes->0
            - d.downloaded_bytes) * elapsed_ms(d, now_ms),
        (d.total_bytes->0 - d.downloaded_bytes) * elapsed_ms(d, now_ms) < (eta_seconds_spec(
            d,
            now_ms,
        )->0 + 1) * (d.downloaded_bytes * 1000),
{
    let e = elapsed_ms(d, now_ms);
    let rem = (d.total_bytes->0 - d.downloaded_bytes) as nat;
    let y = (d.downloaded_bytes * 1000) as nat;
    let x = rem * e;
    let s = x / y;
    assert(s * y <= x < (s + 1) * y) by (nonlinear_arith)
        requires
            y > 0,
            s == x / y,
    ;
}

} // verus!
