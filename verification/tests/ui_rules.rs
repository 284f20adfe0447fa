use oniondownoda::app::{Download, DownloadStatus, Focus};
use oniondownoda::ui::{
    download_row_at, eta_label, focus_label, layout_mode, log_tone, log_window, progress_bar, speed_label,
    status_icon, tor_status_text, DownloadRow, LayoutMode, LogTone, ProgressBar,
};

#[test]
fn layout_by_width() {
    assert_eq!(layout_mode(200), LayoutMode::Wide);
    assert_eq!(layout_mode(120), LayoutMode::Wide);
    assert_eq!(layout_mode(119), LayoutMode::Medium);
    assert_eq!(layout_mode(80), LayoutMode::Medium);
    assert_eq!(layout_mode(79), LayoutMode::Narrow);
    assert_eq!(layout_mode(0), LayoutMode::Narrow);
}

#[test]
fn log_window_ranges() {
    assert_eq!(log_window(0, 0), (0, 0));
    assert_eq!(log_window(3, 5), (0, 3));
    assert_eq!(log_window(10, 0), (0, 4));
    assert_eq!(log_window(10, 2), (2, 6));
    assert_eq!(log_window(10, 6), (6, 10));
    assert_eq!(log_window(10, 100), (6, 10));
}

#[test]
fn log_tones() {
    assert_eq!(log_tone("[00:00:01] ✅ Done: x (1.0 KB)"), LogTone::Success);
    assert_eq!(log_tone("Tor Connected"), LogTone::Success);
    assert_eq!(log_tone("❌ Failed: boom"), LogTone::Error);
    assert_eq!(log_tone("⚠ Cannot download — Tor proxy not connected"), LogTone::Error);
    assert_eq!(log_tone("📥 Starting: a (1 B)"), LogTone::Info);
    assert_eq!(log_tone("🔗 link"), LogTone::Info);
    assert_eq!(log_tone("🧅 Welcome to OnionDownOda"), LogTone::Plain);
    assert_eq!(log_tone("✅ and ❌"), LogTone::Success);
}

#[test]
fn icons_and_labels() {
    assert_eq!(status_icon(&DownloadStatus::InProgress), "⏳");
    assert_eq!(status_icon(&DownloadStatus::Paused), "⏸️");
    assert_eq!(status_icon(&DownloadStatus::Completed), "✅");
    assert_eq!(status_icon(&DownloadStatus::Failed("x".to_string())), "❌");
    assert_eq!(focus_label(Focus::Input), "INPUT");
    assert_eq!(focus_label(Focus::Downloads), "DOWNLOADS");
}

#[test]
fn progress_bar_figures() {
    assert_eq!(progress_bar(50, 100, 60), ProgressBar { filled: 15, empty: 15, percent: 50 });
    assert_eq!(progress_bar(0, 100, 60), ProgressBar { filled: 0, empty: 30, percent: 0 });
    assert_eq!(progress_bar(100, 100, 20), ProgressBar { filled: 10, empty: 0, percent: 100 });
    assert_eq!(progress_bar(1, 3, 40), ProgressBar { filled: 3, empty: 7, percent: 33 });
    assert_eq!(progress_bar(0, 0, 40), ProgressBar { filled: 0, empty: 10, percent: 0 });
    assert_eq!(progress_bar(300, 100, 40), ProgressBar { filled: 30, empty: 0, percent: 300 });
}

#[test]
fn progress_bar_matches_float_ratio() {
    for total in [7u64, 100, 1000, 4096, 123_457] {
        for downloaded in [0u64, 1, total / 3, total / 2, total - 1, total] {
            for width in [10u16, 45, 80, 200] {
                let ratio = downloaded as f64 / total as f64;
                let cells = (width as usize).saturating_sub(30).max(10);
                let filled = (ratio * cells as f64) as usize;
                let bar = progress_bar(downloaded, total, width);
                assert_eq!(bar.filled, filled);
                assert_eq!(bar.empty, cells.saturating_sub(filled));
                assert_eq!(bar.percent, (ratio * 100.0) as u32);
            }
        }
    }
}

#[test]
fn speed_and_eta_labels() {
    assert_eq!(speed_label(2621440), "2.5 MB/s");
    assert_eq!(speed_label(0), "0 B/s");
    assert_eq!(eta_label(true, Some(5)), "PAUSED");
    assert_eq!(eta_label(false, Some(12)), "ETA 12s");
    assert_eq!(eta_label(false, None), "");
}

#[test]
fn tor_status_texts() {
    assert_eq!(
        tor_status_text(true, "socks5h://127.0.0.1:9050"),
        " Connected (socks5h://127.0.0.1:9050)"
    );
    assert_eq!(tor_status_text(false, "x"), " Disconnected — start tor service");
}

fn row_download(status: DownloadStatus, total: Option<u64>, downloaded: u64) -> Download {
    Download { filename: "f".to_string(), total_bytes: total, downloaded_bytes: downloaded, status, started_at_ms: 1_000 }
}

#[test]
fn download_rows() {
    let d = row_download(DownloadStatus::InProgress, Some(10_000), 2_500);
    assert_eq!(
        download_row_at(&d, 2_000, 60),
        DownloadRow::Bar {
            bar: ProgressBar { filled: 7, empty: 23, percent: 25 },
            figures: "  25%  2.4 KB/s  ETA 3s".to_string(),
            paused: false,
        }
    );
    let p = row_download(DownloadStatus::Paused, Some(10_000), 10_000);
    assert_eq!(
        download_row_at(&p, 2_000, 20),
        DownloadRow::Bar {
            bar: ProgressBar { filled: 10, empty: 0, percent: 100 },
            figures: " 100%  0 B/s  PAUSED".to_string(),
            paused: true,
        }
    );
    let z = row_download(DownloadStatus::InProgress, Some(10_000), 0);
    match download_row_at(&z, 1_000, 40) {
        DownloadRow::Bar { figures, .. } => assert_eq!(figures, "   0%  0 B/s  "),
        other => panic!("{:?}", other),
    }
    let u = row_download(DownloadStatus::InProgress, None, 2048);
    assert_eq!(
        download_row_at(&u, 1_250, 40),
        DownloadRow::Running { label: "  ⠹ Downloading ".to_string(), figures: "2.0 KB  8.0 KB/s".to_string() }
    );
    let up = row_download(DownloadStatus::Paused, None, 2048);
    assert_eq!(download_row_at(&up, 1_250, 40), DownloadRow::Paused { figures: "2.0 KB  0 B/s".to_string() });
    let done = row_download(DownloadStatus::Completed, Some(2048), 2048);
    assert_eq!(download_row_at(&done, 0, 40), DownloadRow::Done { text: "  ✓ Done (2.0 KB)".to_string() });
    let failed = row_download(DownloadStatus::Failed("HTTP 404".to_string()), None, 0);
    assert_eq!(download_row_at(&failed, 0, 40), DownloadRow::Failed { text: "  ✗ HTTP 404".to_string() });
}

#[test]
fn download_row_figures_match_format() {
    for pct_dl in [0u64, 5, 42, 100, 250] {
        let d = row_download(DownloadStatus::Paused, Some(100), pct_dl);
        if let DownloadRow::Bar { figures, bar, .. } = download_row_at(&d, 5_000, 50) {
            assert_eq!(figures, format!(" {:>3}%  {}  {}", bar.percent, "0 B/s", "PAUSED"));
        } else {
            panic!("expected a bar");
        }
    }
}
