//! The display rules of the terminal interface: which layout a width gets,
//! which log lines are shown, how a line is coloured, and the figures and
//! labels of a download's progress row. Drawing itself is left to the
//! terminal front end.
use vstd::prelude::*;

use crate::app::{format_bytes, format_bytes_spec, DownloadStatus, Focus, StatusView};
use crate::text::{append_decimal, contains_seq, decimal, str_contains};

verus! {

/// How the header is laid out.
#[derive(Debug, Clone, Copy, PartialEq, Eq, Structural)]
pub enum LayoutMode {
    /// 120 columns or more: socials on both sides of the logo.
    Wide,
    /// 80 to 119 columns: the logo with the socials below.
    Medium,
    /// Fewer than 80 columns: a plain title and a request to widen.
    Narrow,
}

/// The layout for a terminal `width` columns wide.
pub open spec fn layout_for(width: u16) -> LayoutMode {
    if width >= 120 {
        LayoutMode::Wide
    } else if width >= 80 {
        LayoutMode::Medium
    } else {
        LayoutMode::Narrow
    }
}

/// Chooses the layout for a terminal `width` columns wide.
pub fn layout_mode(width: u16) -> (m: LayoutMode)
    ensures
        m == layout_for(width),
{
    if width >= 120 {
        LayoutMode::Wide
    } else if width >= 80 {
        LayoutMode::Medium
    } else {
        LayoutMode::Narrow
    }
}

/// How many log lines the log panel shows.
pub const LOG_VISIBLE_LINES: usize = 4;

/// The log lines `start..end` shown when the log holds `total` lines and
/// is scrolled by `scroll`: the window starts at `scroll`, but no later than
/// where the last lines just fit, and holds at most `LOG_VISIBLE_LINES`.
pub open spec fn log_window_spec(total: usize, scroll: u16) -> (usize, usize) {
    let last_start: int = if total >= LOG_VISIBLE_LINES {
        total - LOG_VISIBLE_LINES
    } else {
        0
    };
    let start: int = if scroll < last_start {
        scroll as int
    } else {
        last_start
    };
    let end: int = if start + LOG_VISIBLE_LINES < total {
        start + LOG_VISIBLE_LINES
    } else {
        total as int
    };
    (start as usize, end as usize)
}

/// The range of log lines to show (see `log_window_spec`).
pub fn log_window(total: usize, scroll: u16) -> (w: (usize, usize))
    ensures
        w == log_window_spec(total, scroll),
        w.0 <= w.1 <= total,
        w.1 - w.0 <= LOG_VISIBLE_LINES,
        total >= LOG_VISIBLE_LINES ==> w.1 - w.0 == LOG_VISIBLE_LINES,
{
    let last_start = total.saturating_sub(LOG_VISIBLE_LINES);
    let scroll = scroll as usize;
    let start = if scroll < last_start {
        scroll
    } else {
        last_start
    };
    let end = if start + LOG_VISIBLE_LINES < total {
        start + LOG_VISIBLE_LINES
    } else {
        total
    };
    (start, end)
}

/// The colour class of a log line.
#[derive(Debug, Clone, Copy, PartialEq, Eq, Structural)]
pub enum LogTone {
    /// Something succeeded (green).
    Success,
    /// Something went wrong (red).
    Error,
    /// A download event (cyan).
    Info,
    /// Anything else (grey).
    Plain,
}

/// The colour class of a log line: a check mark or `Connected` means
/// success, a cross or a warning sign an error, an inbox tray or a link a
/// download event; the first that applies wins.
pub open spec fn log_tone_spec(msg: Seq<char>) -> LogTone {
    if contains_seq(msg, "✅"@) || contains_seq(msg, "Connected"@) {
        LogTone::Success
    } else if contains_seq(msg, "❌"@) || contains_seq(msg, "⚠"@) {
        LogTone::Error
    } else if contains_seq(msg, "📥"@) || contains_seq(msg, "🔗"@) {
        LogTone::Info
    } else {
        LogTone::Plain
    }
}

/// The colour class of a log line (see `log_tone_spec`).
pub fn log_tone(msg: &str) -> (t: LogTone)
    ensures
        t == log_tone_spec(msg@),
{
    if str_contains(msg, "✅") || str_contains(msg, "Connected") {
        LogTone::Success
    } else if str_contains(msg, "❌") || str_contains(msg, "⚠") {
        LogTone::Error
    } else if str_contains(msg, "📥") || str_contains(msg, "🔗") {
        LogTone::Info
    } else {
        LogTone::Plain
    }
}

/// The icon shown before a download's name.
pub open spec fn status_icon_spec(s: StatusView) -> Seq<char> {
    match s {
        StatusView::InProgress => "⏳"@,
        StatusView::Paused => "⏸️"@,
        StatusView::Completed => "✅"@,
        StatusView::Failed(_) => "❌"@,
    }
}

/// The icon shown before a download's name: hourglass, pause sign, check
/// mark or cross.
pub fn status_icon(status: &DownloadStatus) -> (icon: &'static str)
    ensures
        icon@ == status_icon_spec(status@),
{
    match status {
        DownloadStatus::InProgress => "⏳",
        DownloadStatus::Paused => "⏸️",
        DownloadStatus::Completed => "✅",
        DownloadStatus::Failed(_) => "❌",
    }
}

/// The label of the focused panel in the help bar.
pub fn focus_label(focus: Focus) -> (label: &'static str)
    ensures
        label@ == (match focus {
            Focus::Input => "INPUT"@,
            Focus::Downloads => "DOWNLOADS"@,
        }),
{
    match focus {
        Focus::Input => "INPUT",
        Focus::Downloads => "DOWNLOADS",
    }
}

} // verus!

verus! {

/// The figures of a progress bar.
#[derive(Debug, Clone, Copy, PartialEq, Eq, Structural)]
pub struct ProgressBar {
    /// Cells drawn full.
    pub filled: usize,
    /// Cells drawn empty.
    pub empty: usize,
    /// Whole percent done.
    pub percent: u32,
}

/// The cells of a bar in a panel `inner_width` columns wide: 30 columns are
/// kept for the figures beside it, but the bar has at least 10 cells.
pub open spec fn bar_cells(inner_width: u16) -> nat {
    let w: nat = if inner_width >= 30 {
        (inner_width - 30) as nat
    } else {
        0
    };
    if w < 10 {
        10
    } else {
        w
    }
}

/// The bar of a download with `downloaded` of `total` bytes: the share done,
/// rounded down, of the cells and of a hundred percent (an empty file counts
/// as nothing done); the rest of the cells are empty.
pub open spec fn progress_bar_spec(downloaded: u64, total: u64, inner_width: u16) -> ProgressBar {
    let cells = bar_cells(inner_width);
    let filled: nat = if total == 0 {
        0
    } else {
        (downloaded * cells) as nat / (total as nat)
    };
    let filled_sat: nat = if filled > usize::MAX {
        usize::MAX as nat
    } else {
        filled
    };
    let percent: nat = if total == 0 {
        0
    } else {
        (downloaded * 100) as nat / (total as nat)
    };
    ProgressBar {
        filled: filled_sat as usize,
        empty: if filled_sat <= cells {
            (cells - filled_sat) as usize
        } else {
            0
        },
        percent: if percent > u32::MAX {
            u32::MAX
        } else {
            percent as u32
        },
    }
}

/// The progress bar of a download (see `progress_bar_spec`). A download that
/// has received bytes of an announced size of zero has no bar.
pub fn progress_bar(downloaded: u64, total: u64, inner_width: u16) -> (bar: ProgressBar)
    requires
        total > 0 || downloaded == 0,
    ensures
        bar == progress_bar_spec(downloaded, total, inner_width),
{
    let w = inner_width.saturating_sub(30);
    let cells: u16 = if w < 10 {
        10
    } else {
        w
    };
    if total == 0 {
        return ProgressBar { filled: 0, empty: cells as usize, percent: 0 };
    }
    assert((downloaded as u128) * (cells as u128) <= u64::MAX * u16::MAX) by (nonlinear_arith)
        requires
            downloaded <= u64::MAX,
            cells <= u16::MAX,
    ;
    let f: u128 = (downloaded as u128) * (cells as u128) / (total as u128);
    let filled: usize = if f > usize::MAX as u128 {
        usize::MAX
    } else {
        f as usize
    };
    let p: u128 = (downloaded as u128) * 100 / (total as u128);
    let percent: u32 = if p > u32::MAX as u128 {
        u32::MAX
    } else {
        p as u32
    };
    let empty: usize = if filled <= cells as usize {
        cells as usize - filled
    } else {
        0
    };
    ProgressBar { filled, empty, percent }
}

/// For a download of known non-zero size, the bar splits its cells between
/// full and empty, and the full cells and the percent are the share done,
/// rounded down: a finished download shows a full bar at 100 percent.
pub proof fn lemma_progress_bar_share(downloaded: u64, total: u64, inner_width: u16)
    requires
        total > 0,
        downloaded <= total,
    ensures
        ({
            let bar = progress_bar_spec(downloaded, total, inner_width);
            let cells = bar_cells(inner_width);
            &&& bar.filled + bar.empty == cells
            &&& bar.filled * total <= downloaded * cells < (bar.filled + 1) * total
            &&& bar.percent <= 100
            &&& bar.percent * total <= downloaded * 100 < (bar.percent + 1) * total
            &&& downloaded == total ==> bar.percent == 100 && bar.empty == 0
        }),
{
    let cells = bar_cells(inner_width);
    assert(cells <= u16::MAX);
    let x = (downloaded * cells) as nat;
    let f = x / (total as nat);
    assert(f * total <= x < (f + 1) * total) by (nonlinear_arith)
        requires
            total > 0,
            f == x / (total as nat),
    ;
    assert(f <= cells) by (nonlinear_arith)
        requires
            total > 0,
            downloaded <= total,
            x == downloaded * cells,
            f * total <= x,
    ;
    let y = (downloaded * 100) as nat;
    let q = y / (total as nat);
    assert(q * total <= y < (q + 1) * total) by (nonlinear_arith)
        requires
            total > 0,
            q == y / (total as nat),
    ;
    assert(q <= 100) by (nonlinear_arith)
        requires
            total > 0,
            downloaded <= total,
            y == downloaded * 100,
            q * total <= y,
    ;
    if downloaded == total {
        assert(x == cells * total) by (nonlinear_arith)
            requires
                x == downloaded * cells,
                downloaded == total,
        ;
        assert(f == cells) by (nonlinear_arith)
            requires
                total > 0,
                x == cells * total,
                f == x / (total as nat),
        ;
        assert(q == 100) by (nonlinear_arith)
            requires
                total > 0,
                y == downloaded * 100,
                downloaded == total,
                q == y / (total as nat),
        ;
    }
}

/// The speed figure of a progress row: the size per second, as `2.5 MB/s`.
pub fn speed_label(bytes_per_sec: u64) -> (label: String)
    ensures
        label@ == format_bytes_spec(bytes_per_sec as nat) + "/s"@,
{
    let mut label = format_bytes(bytes_per_sec);
    label.append("/s");
    label
}

/// The time figure of a progress row: `PAUSED` while paused, else
/// `ETA <seconds>s` when an estimate exists, else nothing.
pub open spec fn eta_label_spec(paused: bool, eta: Option<u64>) -> Seq<char> {
    if paused {
        "PAUSED"@
    } else {
        match eta {
            Some(s) => "ETA "@ + decimal(s as nat) + "s"@,
            None => Seq::empty(),
        }
    }
}

/// The time figure of a progress row (see `eta_label_spec`).
pub fn eta_label(paused: bool, eta: Option<u64>) -> (label: String)
    ensures
        label@ == eta_label_spec(paused, eta),
{
    if paused {
        return String::from_str("PAUSED");
    }
    match eta {
        Some(s) => {
            let mut label = String::from_str("ETA ");
            append_decimal(&mut label, s);
            label.append("s");
            label
        },
        None => String::new(),
    }
}

/// The text of the Tor status bar after its dot.
pub open spec fn tor_status_spec(connected: bool, proxy_addr: Seq<char>) -> Seq<char> {
    if connected {
        " Connected ("@ + proxy_addr + ")"@
    } else {
        " Disconnected — start tor service"@
    }
}

/// The text of the Tor status bar (see `tor_status_spec`).
pub fn tor_status_text(connected: bool, proxy_addr: &str) -> (text: String)
    ensures
        text@ == tor_status_spec(connected, proxy_addr@),
{
    if connected {
        let mut text = String::from_str(" Connected (");
        text.append(proxy_addr);
        text.append(")");
        text
    } else {
        String::from_str(" Disconnected — start tor service")
    }
}

} // verus!

verus! {

/// `s` padded on the left with spaces to at least three characters, as
/// `{:>3}` formats it.
pub open spec fn pad_left3(s: Seq<char>) -> Seq<char> {
    if s.len() >= 3 {
        s
    } else {
        Seq::new((3 - s.len()) as nat, |i: int| ' ') + s
    }
}

/// The frames of the spinner shown while a download of unknown size runs.
pub open spec fn spinner_frame(i: nat) -> Seq<char> {
    if i == 0 {
        "⠋"@
    } else if i == 1 {
        "⠙"@
    } else if i == 2 {
        "⠹"@
    } else if i == 3 {
        "⠸"@
    } else if i == 4 {
        "⠼"@
    } else if i == 5 {
        "⠴"@
    } else if i == 6 {
        "⠦"@
    } else if i == 7 {
        "⠧"@
    } else if i == 8 {
        "⠇"@
    } else {
        "⠏"@
    }
}

/// The second row of a download in the list.
#[derive(Debug, Clone, PartialEq, Eq)]
pub enum DownloadRow {
    /// A known size, running or paused: the bar, then the figures after it.
    Bar { bar: ProgressBar, figures: String, paused: bool },
    /// An unknown size, paused: the bytes received and the speed.
    Paused { figures: String },
    /// An unknown size, running: the spinner label, then the bytes received and the speed.
    Running { label: String, figures: String },
    /// Finished: the text of the row.
    Done { text: String },
    /// Failed: the text of the row.
    Failed { text: String },
}

/// A row with its texts as character sequences.
pub enum DownloadRowView {
    Bar { bar: ProgressBar, figures: Seq<char>, paused: bool },
    Paused { figures: Seq<char> },
    Running { label: Seq<char>, figures: Seq<char> },
    Done { text: Seq<char> },
    Failed { text: Seq<char> },
}

impl View for DownloadRow {
    type V = DownloadRowView;

    open spec fn view(&self) -> DownloadRowView {
        match self {
            DownloadRow::Bar { bar, figures, paused } => DownloadRowView::Bar {
                bar: *bar,
                figures: figures@,
                paused: *paused,
            },
            DownloadRow::Paused { figures } => DownloadRowView::Paused { figures: figures@ },
            DownloadRow::Running { label, figures } => DownloadRowView::Running {
                label: label@,
                figures: figures@,
            },
            DownloadRow::Done { text } => DownloadRowView::Done { text: text@ },
            DownloadRow::Failed { text } => DownloadRowView::Failed { text: text@ },
        }
    }
}

/// Whether a download's row can be drawn: a bar needs a non-zero size
/// unless nothing has arrived.
pub open spec fn download_row_defined(d: crate::app::DownloadView) -> bool {
    (d.status == StatusView::InProgress || d.status == StatusView::Paused) && d.total_bytes
        == Some(0u64) ==> d.downloaded_bytes == 0
}

/// The second row of download `d` at `now_ms` in a panel `inner_width`
/// columns wide. A running or paused download shows its speed (0 while
/// paused): with a known size a bar followed by ` <percent>%  <speed>  <time>`
/// (the percent right-aligned in three columns, the time as `eta_label`
/// gives it); with an unknown size the bytes received and the speed, after
/// a spinner frame that advances every 100 ms while it runs. A finished
/// download shows `  ✓ Done (<size>)`, a failed one `  ✗ <error>`.
pub open spec fn download_row_spec(
    d: crate::app::DownloadView,
    now_ms: u64,
    inner_width: u16,
) -> DownloadRowView {
    match d.status {
        StatusView::Completed => DownloadRowView::Done {
            text: "  ✓ Done ("@ + format_bytes_spec(d.downloaded_bytes as nat) + ")"@,
        },
        StatusView::Failed(e) => DownloadRowView::Failed { text: "  ✗ "@ + e },
        _ => {
            let paused = d.status == StatusView::Paused;
            let speed = format_bytes_spec(
                (if paused {
                    0
                } else {
                    crate::app::speed_bps_spec(d, now_ms)
                }) as nat,
            ) + "/s"@;
            match d.total_bytes {
                Some(total) => {
                    let bar = progress_bar_spec(d.downloaded_bytes, total, inner_width);
                    let eta = eta_label_spec(
                        paused,
                        if paused {
                            None
                        } else {
                            crate::app::eta_seconds_spec(d, now_ms)
                        },
                    );
                    DownloadRowView::Bar {
                        bar,
                        figures: " "@ + pad_left3(decimal(bar.percent as nat)) + "%  "@ + speed
                            + "  "@ + eta,
                        paused,
                    }
                },
                None => {
                    let figures = format_bytes_spec(d.downloaded_bytes as nat) + "  "@ + speed;
                    if paused {
                        DownloadRowView::Paused { figures }
                    } else {
                        DownloadRowView::Running {
                            label: "  "@ + spinner_frame(
                                (crate::app::elapsed_ms(d, now_ms) / 100) % 10,
                            ) + " Downloading "@,
                            figures,
                        }
                    }
                },
            }
        },
    }
}

fn spinner_text(i: u64) -> (s: &'static str)
    requires
        i < 10,
    ensures
        s@ == spinner_frame(i as nat),
{
    if i == 0 {
        "⠋"
    } else if i == 1 {
        "⠙"
    } else if i == 2 {
        "⠹"
    } else if i == 3 {
        "⠸"
    } else if i == 4 {
        "⠼"
    } else if i == 5 {
        "⠴"
    } else if i == 6 {
        "⠦"
    } else if i == 7 {
        "⠧"
    } else if i == 8 {
        "⠇"
    } else {
        "⠏"
    }
}

/// The second row of `d` at `now_ms` (see `download_row_spec`).
pub fn download_row_at(d: &crate::app::Download, now_ms: u64, inner_width: u16) -> (row:
    DownloadRow)
    requires
        download_row_defined(d@),
    ensures
        row@ == download_row_spec(d@, now_ms, inner_width),
{
    match &d.status {
        DownloadStatus::Completed => {
            let mut text = String::from_str("  ✓ Done (");
            let size = format_bytes(d.downloaded_bytes);
            text.append(size.as_str());
            text.append(")");
            DownloadRow::Done { text }
        },
        DownloadStatus::Failed(e) => {
            let mut text = String::from_str("  ✗ ");
            text.append(e.as_str());
            DownloadRow::Failed { text }
        },
        _ => {
            let paused = match &d.status {
                DownloadStatus::Paused => true,
                _ => false,
            };
            let speed = speed_label(
                if paused {
                    0
                } else {
                    d.speed_bps_at(now_ms)
                },
            );
            match d.total_bytes {
                Some(total) => {
                    let bar = progress_bar(d.downloaded_bytes, total, inner_width);
                    let eta = eta_label(
                        paused,
                        if paused {
                            None
                        } else {
                            d.eta_seconds_at(now_ms)
                        },
                    );
                    let mut figures = String::from_str(" ");
                    proof {
                        reveal_strlit(" ");
                        reveal_strlit("  ");
                        crate::text::lemma_decimal_digits(bar.percent as nat);
                        lemma_decimal_len(bar.percent as nat);
                    }
                    let ghost p = bar.percent as nat;
                    if bar.percent < 10 {
                        figures.append("  ");
                        assert(Seq::new((3 - decimal(p).len()) as nat, |i: int| ' ') =~= "  "@);
                    } else if bar.percent < 100 {
                        figures.append(" ");
                        assert(Seq::new((3 - decimal(p).len()) as nat, |i: int| ' ') =~= " "@);
                    }
                    let ghost before_digits = figures@;
                    append_decimal(&mut figures, bar.percent as u64);
                    assert(figures@ =~= " "@ + pad_left3(decimal(p))) by {
                        if p >= 100 {
                            assert(before_digits =~= " "@);
                        } else {
                            assert(before_digits =~= " "@ + Seq::new((3 - decimal(p).len()) as nat, |i: int| ' '));
                        }
                    }
                    figures.append("%  ");
                    figures.append(speed.as_str());
                    figures.append("  ");
                    figures.append(eta.as_str());
                    assert(figures@ =~= " "@ + pad_left3(decimal(p)) + "%  "@ + speed@ + "  "@ + eta@);
                    DownloadRow::Bar { bar, figures, paused }
                },
                None => {
                    let mut figures = format_bytes(d.downloaded_bytes);
                    figures.append("  ");
                    figures.append(speed.as_str());
                    if paused {
                        DownloadRow::Paused { figures }
                    } else {
                        let e = now_ms.saturating_sub(d.started_at_ms);
                        let mut label = String::from_str("  ");
                        label.append(spinner_text((e / 100) % 10));
                        label.append(" Downloading ");
                        DownloadRow::Running { label, figures }
                    }
                },
            }
        },
    }
}

/// The number of digits of a number below 10, below 100, or larger.
proof fn lemma_decimal_len(n: nat)
    ensures
        n < 10 ==> decimal(n).len() == 1,
        10 <= n < 100 ==> decimal(n).len() == 2,
        n >= 100 ==> decimal(n).len() >= 3,
    decreases n,
{
    if n >= 10 {
        lemma_decimal_len(n / 10);
    }
}

/// The second row of `d` now, by the system clock (see `download_row_spec`).
pub fn download_row(d: &crate::app::Download, inner_width: u16) -> (row: DownloadRow)
    requires
        download_row_defined(d@),
    ensures
        exists|now: u64| row@ == #[trigger] download_row_spec(d@, now, inner_width),
{
    download_row_at(d, crate::clock::unix_time_millis(), inner_width)
}

} // verus!
