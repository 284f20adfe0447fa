use oniondownoda::app::{
    Action, App, AppMode, Download, DownloadStatus, Focus, KeyCode, KeyEvent,
};
use oniondownoda::clock::unix_time_millis;
use oniondownoda::downloader::DownloadProgress;

fn key(code: KeyCode) -> KeyEvent {
    KeyEvent { code, ctrl: false }
}

fn fresh() -> App {
    App::new("socks5h://127.0.0.1:9050".to_string(), "./downloads".to_string())
}

fn type_text(app: &mut App, s: &str) {
    for c in s.chars() {
        assert_eq!(app.handle_key_at(key(KeyCode::Char(c)), 0), Action::Noop);
    }
}

#[test]
fn new_app_state() {
    let app = fresh();
    assert_eq!(app.mode, AppMode::Idle);
    assert_eq!(app.focus, Focus::Input);
    assert_eq!(app.input, "");
    assert_eq!(app.cursor_position, 0);
    assert!(app.downloads.is_empty());
    assert_eq!(app.log_messages, vec!["🧅 Welcome to OnionDownOda".to_string()]);
    assert!(!app.tor_connected);
    assert!(!app.paused);
    assert_eq!(app.proxy_addr, "socks5h://127.0.0.1:9050");
}

#[test]
fn log_lines_carry_time_of_day() {
    let mut app = fresh();
    app.add_log_at(3600 * 25 + 62, "hello");
    assert_eq!(app.log_messages[1], "[01:01:02] hello");
    app.add_log_at(86399, "late");
    assert_eq!(app.log_messages[2], "[23:59:59] late");
}

#[test]
fn add_log_uses_clock() {
    let mut app = fresh();
    app.add_log("now");
    let line = &app.log_messages[1];
    assert_eq!(line.len(), "[00:00:00] now".len());
    assert!(line.starts_with('['));
    assert!(line.ends_with("] now"));
    assert_eq!(&line[3..4], ":");
    assert_eq!(&line[6..7], ":");
}

#[test]
fn clock_reads_after_2020() {
    assert!(unix_time_millis() > 1_577_836_800_000);
}

#[test]
fn typing_and_editing_keys() {
    let mut app = fresh();
    type_text(&mut app, "abd");
    assert_eq!(app.input, "abd");
    assert_eq!(app.cursor_position, 3);
    app.handle_key_at(key(KeyCode::Left), 0);
    type_text(&mut app, "c");
    assert_eq!(app.input, "abcd");
    assert_eq!(app.cursor_position, 3);
    app.handle_key_at(key(KeyCode::Backspace), 0);
    assert_eq!(app.input, "abd");
    assert_eq!(app.cursor_position, 2);
    app.handle_key_at(key(KeyCode::Delete), 0);
    assert_eq!(app.input, "ab");
    app.handle_key_at(key(KeyCode::Delete), 0);
    assert_eq!(app.input, "ab");
    app.handle_key_at(key(KeyCode::Home), 0);
    assert_eq!(app.cursor_position, 0);
    app.handle_key_at(key(KeyCode::Backspace), 0);
    assert_eq!(app.input, "ab");
    app.handle_key_at(key(KeyCode::Left), 0);
    assert_eq!(app.cursor_position, 0);
    app.handle_key_at(key(KeyCode::End), 0);
    assert_eq!(app.cursor_position, 2);
    app.handle_key_at(key(KeyCode::Right), 0);
    assert_eq!(app.cursor_position, 2);
}

#[test]
fn control_c_quits_anywhere() {
    let mut app = fresh();
    let ctrl_c = KeyEvent { code: KeyCode::Char('c'), ctrl: true };
    assert_eq!(app.handle_key_at(ctrl_c, 0), Action::Quit);
    assert_eq!(app.input, "");
    app.focus = Focus::Downloads;
    assert_eq!(app.handle_key_at(ctrl_c, 0), Action::Quit);
}

#[test]
fn esc_quits_and_q_quits_in_list() {
    let mut app = fresh();
    assert_eq!(app.handle_key_at(key(KeyCode::Esc), 0), Action::Quit);
    type_text(&mut app, "q");
    assert_eq!(app.input, "q");
    app.handle_key_at(key(KeyCode::Tab), 0);
    assert_eq!(app.focus, Focus::Downloads);
    assert_eq!(app.handle_key_at(key(KeyCode::Char('q')), 0), Action::Quit);
    assert_eq!(app.handle_key_at(key(KeyCode::Esc), 0), Action::Quit);
    app.handle_key_at(key(KeyCode::Tab), 0);
    assert_eq!(app.focus, Focus::Input);
}

#[test]
fn enter_without_tor_logs_warning() {
    let mut app = fresh();
    type_text(&mut app, "  http://x.onion/f.bin ");
    assert_eq!(app.handle_key_at(key(KeyCode::Enter), 3661), Action::Noop);
    assert_eq!(app.input, "  http://x.onion/f.bin ");
    assert_eq!(
        app.log_messages.last().unwrap(),
        "[01:01:01] ⚠ Cannot download — Tor proxy not connected"
    );
}

#[test]
fn enter_with_tor_starts_trimmed_url() {
    let mut app = fresh();
    app.tor_connected = true;
    type_text(&mut app, "  http://x.onion/f.bin ");
    assert_eq!(
        app.handle_key_at(key(KeyCode::Enter), 0),
        Action::StartDownload("http://x.onion/f.bin".to_string())
    );
    assert_eq!(app.input, "");
    assert_eq!(app.cursor_position, 0);
    assert_eq!(app.log_messages.len(), 1);
}

#[test]
fn enter_on_blank_line_does_nothing() {
    let mut app = fresh();
    app.tor_connected = true;
    type_text(&mut app, " \t ");
    assert_eq!(app.handle_key_at(key(KeyCode::Enter), 0), Action::Noop);
    assert_eq!(app.input, " \t ");
    assert_eq!(app.log_messages.len(), 1);
}

#[test]
fn scrolling_saturates() {
    let mut app = fresh();
    app.focus = Focus::Downloads;
    app.handle_key_at(key(KeyCode::Up), 0);
    assert_eq!(app.download_scroll, 0);
    app.handle_key_at(key(KeyCode::Down), 0);
    app.handle_key_at(key(KeyCode::Down), 0);
    assert_eq!(app.download_scroll, 2);
    app.handle_key_at(key(KeyCode::PageDown), 0);
    assert_eq!(app.log_scroll, 3);
    app.handle_key_at(key(KeyCode::PageUp), 0);
    app.handle_key_at(key(KeyCode::PageUp), 0);
    assert_eq!(app.log_scroll, 0);
    app.log_scroll = u16::MAX - 1;
    app.handle_key_at(key(KeyCode::PageDown), 0);
    assert_eq!(app.log_scroll, u16::MAX);
}

#[test]
fn space_pauses_and_resumes_only_while_downloading() {
    let mut app = fresh();
    app.focus = Focus::Downloads;
    assert_eq!(app.handle_key_at(key(KeyCode::Char(' ')), 0), Action::Noop);
    app.start_download_at("http://x.onion/a.iso", 1000);
    assert_eq!(app.handle_key_at(key(KeyCode::Char(' ')), 0), Action::Pause);
    app.pause_download_at(10);
    assert!(app.paused);
    assert_eq!(app.downloads[0].status, DownloadStatus::Paused);
    assert_eq!(app.log_messages.last().unwrap(), "[00:00:10] ⏸️ Download paused (Space to resume)");
    assert_eq!(app.handle_key_at(key(KeyCode::Char(' ')), 0), Action::Resume);
    app.resume_download_at(11);
    assert!(!app.paused);
    assert_eq!(app.downloads[0].status, DownloadStatus::InProgress);
    assert_eq!(app.log_messages.last().unwrap(), "[00:00:11] ▶️ Download resumed");
}

#[test]
fn pause_keeps_finished_download() {
    let mut app = fresh();
    app.start_download_at("http://x.onion/a.iso", 0);
    app.apply_progress_at(
        DownloadProgress::Completed { id: 0, filepath: "out/a.iso".to_string(), total_bytes: 10 },
        0,
    );
    app.pause_download();
    assert_eq!(app.downloads[0].status, DownloadStatus::Completed);
    app.resume_download();
    assert_eq!(app.downloads[0].status, DownloadStatus::Completed);
    assert!(!app.paused);
}

#[test]
fn start_download_adds_entry() {
    let mut app = fresh();
    app.start_download_at("http://x.onion/dir/a.iso?x=1", 1234);
    assert_eq!(app.mode, AppMode::Downloading);
    assert_eq!(app.downloads.len(), 1);
    let d = &app.downloads[0];
    assert_eq!(d.filename, "a.iso");
    assert_eq!(d.total_bytes, None);
    assert_eq!(d.downloaded_bytes, 0);
    assert_eq!(d.status, DownloadStatus::InProgress);
    assert_eq!(d.started_at_ms, 1234);
    app.start_download("http://x.onion/");
    assert_eq!(app.downloads[1].filename, "download");
}

#[test]
fn progress_reports_update_latest_download() {
    let mut app = fresh();
    app.start_download_at("http://x.onion/old.bin", 0);
    app.start_download_at("http://x.onion/a.iso", 0);
    app.apply_progress_at(
        DownloadProgress::Started { id: 1, filename: "a (1).iso".to_string(), total_bytes: Some(2048) },
        7,
    );
    assert_eq!(app.log_messages.last().unwrap(), "[00:00:07] 📥 Starting: a (1).iso (2.0 KB)");
    assert_eq!(app.downloads[1].filename, "a (1).iso");
    assert_eq!(app.downloads[1].total_bytes, Some(2048));
    app.apply_progress_at(DownloadProgress::Progress { id: 1, downloaded: 1024, total: Some(9) }, 8);
    assert_eq!(app.downloads[1].downloaded_bytes, 1024);
    assert_eq!(app.downloads[1].total_bytes, Some(2048));
    app.apply_progress_at(
        DownloadProgress::Completed { id: 1, filepath: "d/a (1).iso".to_string(), total_bytes: 2048 },
        9,
    );
    assert_eq!(app.downloads[1].status, DownloadStatus::Completed);
    assert_eq!(app.downloads[1].downloaded_bytes, 2048);
    assert_eq!(app.log_messages.last().unwrap(), "[00:00:09] ✅ Done: d/a (1).iso (2.0 KB)");
    assert_eq!(app.mode, AppMode::Idle);
    assert_eq!(app.downloads[0].filename, "old.bin");
    assert_eq!(app.downloads[0].status, DownloadStatus::InProgress);
}

#[test]
fn progress_sets_unknown_total() {
    let mut app = fresh();
    app.start_download_at("http://x.onion/s", 0);
    app.apply_progress_at(DownloadProgress::Started { id: 0, filename: "s".to_string(), total_bytes: None }, 0);
    assert_eq!(app.log_messages.last().unwrap(), "[00:00:00] 📥 Starting: s (unknown size)");
    app.apply_progress_at(DownloadProgress::Progress { id: 0, downloaded: 5, total: Some(50) }, 0);
    assert_eq!(app.downloads[0].total_bytes, Some(50));
}

#[test]
fn failure_is_recorded() {
    let mut app = fresh();
    app.start_download_at("http://x.onion/s", 0);
    app.process_progress(vec![
        DownloadProgress::Progress { id: 0, downloaded: 5, total: None },
        DownloadProgress::Failed { id: 0, error: "HTTP 404 Not Found".to_string() },
    ]);
    assert_eq!(app.downloads[0].status, DownloadStatus::Failed("HTTP 404 Not Found".to_string()));
    assert_eq!(app.downloads[0].downloaded_bytes, 5);
    assert!(app.log_messages.last().unwrap().ends_with("] ❌ Failed: HTTP 404 Not Found"));
    assert_eq!(app.mode, AppMode::Idle);
}

#[test]
fn progress_without_downloads_only_logs() {
    let mut app = fresh();
    app.apply_progress_at(DownloadProgress::Failed { id: 0, error: "e".to_string() }, 0);
    assert!(app.downloads.is_empty());
    assert_eq!(app.log_messages.len(), 2);
}

fn dl(total: Option<u64>, downloaded: u64, started: u64) -> Download {
    Download {
        filename: "f".to_string(),
        total_bytes: total,
        downloaded_bytes: downloaded,
        status: DownloadStatus::InProgress,
        started_at_ms: started,
    }
}

#[test]
fn speed_from_elapsed_time() {
    assert_eq!(dl(None, 5000, 1000).speed_bps_at(3000), 2500);
    assert_eq!(dl(None, 5000, 1000).speed_bps_at(1000), 0);
    assert_eq!(dl(None, 5000, 1000).speed_bps_at(500), 0);
    assert_eq!(dl(None, 1, 0).speed_bps_at(3000), 0);
    assert_eq!(dl(None, u64::MAX, 0).speed_bps_at(1), u64::MAX);
}

#[test]
fn eta_from_average_speed() {
    assert_eq!(dl(Some(10_000), 2_500, 0).eta_seconds_at(1_000), Some(3));
    assert_eq!(dl(Some(10_000), 3_000, 0).eta_seconds_at(1_000), Some(2));
    assert_eq!(dl(Some(10_000), 10_000, 0).eta_seconds_at(1_000), Some(0));
    assert_eq!(dl(Some(10), 20, 0).eta_seconds_at(1_000), Some(0));
    assert_eq!(dl(None, 2_500, 0).eta_seconds_at(1_000), None);
    assert_eq!(dl(Some(10_000), 0, 0).eta_seconds_at(1_000), None);
    assert_eq!(dl(Some(10_000), 5, 1_000).eta_seconds_at(1_000), None);
}

#[test]
fn eta_and_speed_with_clock() {
    let now = unix_time_millis();
    let d = dl(Some(1_000_000), 1_000, now - 1_000);
    let speed = d.speed_bps();
    assert!(speed <= 1_000);
    assert!(speed > 0);
    assert!(d.eta_seconds().is_some());
}
