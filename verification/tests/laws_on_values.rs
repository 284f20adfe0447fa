use oniondownoda::app::{Action, App, DownloadStatus, Focus, KeyCode, KeyEvent};
use oniondownoda::downloader::{extract_filename, plan_chunks, MIN_CHUNK_SIZE};
use oniondownoda::tor::proxy_socket_addr;

fn plain_key(code: KeyCode) -> KeyEvent {
    KeyEvent { code, ctrl: false }
}

#[test]
fn tab_twice_restores_focus() {
    let mut app = App::new("p".to_string(), "d".to_string());
    app.handle_key_at(plain_key(KeyCode::Char('x')), 0);
    assert_eq!(app.handle_key_at(plain_key(KeyCode::Tab), 0), Action::Noop);
    assert_eq!(app.focus, Focus::Downloads);
    assert_eq!(app.handle_key_at(plain_key(KeyCode::Tab), 0), Action::Noop);
    assert_eq!(app.focus, Focus::Input);
    assert_eq!(app.input, "x");
    assert_eq!(app.cursor_position, 1);
}

#[test]
fn typing_then_backspace_restores_line() {
    let mut app = App::new("p".to_string(), "d".to_string());
    for c in "hé".chars() {
        app.handle_key_at(plain_key(KeyCode::Char(c)), 0);
    }
    assert_eq!(app.cursor_position, 2);
    app.handle_key_at(plain_key(KeyCode::End), 0);
    assert_eq!(app.cursor_position, 3);
    for c in "llo".chars() {
        app.handle_key_at(plain_key(KeyCode::Char(c)), 0);
    }
    assert_eq!(app.input, "héllo");
    assert_eq!(app.cursor_position, 6);
    app.handle_key_at(plain_key(KeyCode::Left), 0);
    app.handle_key_at(plain_key(KeyCode::Left), 0);
    assert!(app.can_handle_key(plain_key(KeyCode::Char('✓'))));
    app.handle_key_at(plain_key(KeyCode::Char('✓')), 0);
    assert_eq!(app.input, "hél✓lo");
    assert_eq!(app.cursor_position, 5);
    app.handle_key_at(plain_key(KeyCode::Backspace), 0);
    assert_eq!(app.input, "héllo");
    assert_eq!(app.cursor_position, 4);
}

#[test]
fn cursor_moves_by_bytes() {
    let mut app = App::new("p".to_string(), "d".to_string());
    app.handle_key_at(plain_key(KeyCode::Char('é')), 0);
    assert_eq!(app.cursor_position, 1);
    app.handle_key_at(plain_key(KeyCode::Right), 0);
    assert_eq!(app.cursor_position, 2);
    app.handle_key_at(plain_key(KeyCode::Left), 0);
    app.handle_key_at(plain_key(KeyCode::End), 0);
    assert_eq!(app.cursor_position, 2);
    app.handle_key_at(plain_key(KeyCode::Left), 0);
    assert_eq!(app.cursor_position, 1);
    assert!(!app.can_handle_key(plain_key(KeyCode::Char('x'))));
    assert!(!app.can_handle_key(plain_key(KeyCode::Delete)));
    assert!(app.can_handle_key(plain_key(KeyCode::Backspace)));
    assert!(app.can_handle_key(plain_key(KeyCode::Right)));
    assert!(app.can_handle_key(plain_key(KeyCode::Tab)));
    app.handle_key_at(plain_key(KeyCode::Home), 0);
    assert!(app.can_handle_key(plain_key(KeyCode::Delete)));
    app.handle_key_at(plain_key(KeyCode::Delete), 0);
    assert_eq!(app.input, "");
    assert_eq!(app.cursor_position, 0);
}

#[test]
fn cursor_matches_string_byte_indices() {
    let mut app = App::new("p".to_string(), "d".to_string());
    let mut model = String::new();
    let mut cursor = 0usize;
    let script = [
        KeyCode::Char('a'), KeyCode::End, KeyCode::Char('ж'), KeyCode::End, KeyCode::Char('✓'),
        KeyCode::End, KeyCode::Char('b'), KeyCode::Home, KeyCode::Char('😀'), KeyCode::End,
        KeyCode::Left, KeyCode::Backspace, KeyCode::Home, KeyCode::Delete, KeyCode::End,
    ];
    for code in script {
        let key = plain_key(code);
        let ok = app.can_handle_key(key);
        let expect_ok = match code {
            KeyCode::Char(_) => model.is_char_boundary(cursor),
            KeyCode::Backspace => cursor == 0 || model.is_char_boundary(cursor - 1) && cursor - 1 < model.len(),
            KeyCode::Delete => cursor >= model.len() || model.is_char_boundary(cursor),
            _ => true,
        };
        assert_eq!(ok, expect_ok, "{:?}", code);
        if !ok {
            continue;
        }
        app.handle_key_at(key, 0);
        match code {
            KeyCode::Char(c) => {
                model.insert(cursor, c);
                cursor += 1;
            }
            KeyCode::Backspace => {
                if cursor > 0 {
                    cursor -= 1;
                    model.remove(cursor);
                }
            }
            KeyCode::Delete => {
                if cursor < model.len() {
                    model.remove(cursor);
                }
            }
            KeyCode::Left => cursor = cursor.saturating_sub(1),
            KeyCode::Right => {
                if cursor < model.len() {
                    cursor += 1
                }
            }
            KeyCode::Home => cursor = 0,
            KeyCode::End => cursor = model.len(),
            _ => {}
        }
        assert_eq!(app.input, model);
        assert_eq!(app.cursor_position, cursor);
    }
}

#[test]
fn pause_then_resume_restores_download() {
    let mut app = App::new("p".to_string(), "d".to_string());
    app.start_download_at("http://x.onion/a", 0);
    let logs = app.log_messages.len();
    app.pause_download_at(1);
    app.resume_download_at(2);
    assert_eq!(app.downloads[0].status, DownloadStatus::InProgress);
    assert!(!app.paused);
    assert_eq!(app.log_messages.len(), logs + 2);
}

#[test]
fn keys_leave_downloads_alone() {
    let mut app = App::new("p".to_string(), "d".to_string());
    app.start_download_at("http://x.onion/a", 0);
    for code in [KeyCode::Char('z'), KeyCode::Tab, KeyCode::Char(' '), KeyCode::Down, KeyCode::Esc] {
        app.handle_key_at(plain_key(code), 0);
        assert_eq!(app.downloads.len(), 1);
        assert_eq!(app.downloads[0].status, DownloadStatus::InProgress);
        assert!(!app.paused);
    }
}

#[test]
fn filename_of_filename_is_itself() {
    for url in ["http://x.onion/a/b.zip?x=1", "http://x.onion/", "plain", "a?b"] {
        let f = extract_filename(url);
        assert_eq!(extract_filename(&f), f);
        assert!(!f.is_empty() && !f.contains('/') && !f.contains('?'));
    }
}

#[test]
fn chunk_plans_partition_the_file() {
    for total in [1u64, 1000, MIN_CHUNK_SIZE, 7 * MIN_CHUNK_SIZE + 12345, 250 * MIN_CHUNK_SIZE] {
        for max in [0usize, 1, 3, 100] {
            let chunks = plan_chunks(total, max);
            assert!(!chunks.is_empty());
            assert!(max == 0 || chunks.len() <= max);
            assert_eq!(chunks[0].0, 0);
            assert_eq!(chunks.last().unwrap().1, total - 1);
            for w in chunks.windows(2) {
                assert_eq!(w[1].0, w[0].1 + 1);
            }
            for (s, e) in &chunks {
                assert!(s <= e);
                if total >= MIN_CHUNK_SIZE {
                    assert!(e - s + 1 >= MIN_CHUNK_SIZE);
                }
            }
        }
    }
}

#[test]
fn proxy_address_loses_scheme() {
    for p in ["socks5://socks5://h:1", "socks5h://socks5://h:1", "socks5://h:1"] {
        assert!(!proxy_socket_addr(p).starts_with("socks5://"));
    }
}
