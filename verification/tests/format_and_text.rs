use oniondownoda::app::format_bytes;
use oniondownoda::text::{append_decimal, char_count, insert_char, remove_char, str_contains};
use oniondownoda::tor::proxy_socket_addr;

fn float_format(bytes: u64) -> String {
    const KB: u64 = 1024;
    const MB: u64 = KB * 1024;
    const GB: u64 = MB * 1024;
    if bytes >= GB {
        format!("{:.1} GB", bytes as f64 / GB as f64)
    } else if bytes >= MB {
        format!("{:.1} MB", bytes as f64 / MB as f64)
    } else if bytes >= KB {
        format!("{:.1} KB", bytes as f64 / KB as f64)
    } else {
        format!("{} B", bytes)
    }
}

#[test]
fn format_bytes_units() {
    assert_eq!(format_bytes(0), "0 B");
    assert_eq!(format_bytes(512), "512 B");
    assert_eq!(format_bytes(1023), "1023 B");
    assert_eq!(format_bytes(1024), "1.0 KB");
    assert_eq!(format_bytes(1536), "1.5 KB");
    assert_eq!(format_bytes(1048576), "1.0 MB");
    assert_eq!(format_bytes(2621440), "2.5 MB");
    assert_eq!(format_bytes(1073741824), "1.0 GB");
    assert_eq!(format_bytes(1048575), "1024.0 KB");
}

#[test]
fn format_bytes_ties_round_to_even() {
    assert_eq!(format_bytes(1280), float_format(1280));
    assert_eq!(format_bytes(1280 + 1024), float_format(1280 + 1024));
}

#[test]
fn format_bytes_matches_float_formatting() {
    let mut samples: Vec<u64> = Vec::new();
    for i in 0..5000u64 {
        samples.push(i);
        samples.push(1000 + i * 7);
        samples.push(1024 * 1024 - 2500 + i);
        samples.push(i * 104_857 + 3);
        samples.push(1024u64.pow(3) * 3 + i * 53_687_091);
    }
    for k in 10..50u32 {
        samples.push((1u64 << k) - 1);
        samples.push(1u64 << k);
        samples.push((1u64 << k) + (1u64 << (k - 3)));
    }
    samples.push(u64::MAX / 4096);
    for b in samples {
        assert_eq!(format_bytes(b), float_format(b), "bytes = {}", b);
    }
}

#[test]
fn decimal_rendering() {
    let mut s = String::from("n=");
    append_decimal(&mut s, 0);
    append_decimal(&mut s, 9);
    s.push(',');
    append_decimal(&mut s, u64::MAX);
    assert_eq!(s, format!("n=09,{}", u64::MAX));
}

#[test]
fn char_editing() {
    assert_eq!(insert_char("abc", 1, 'X'), "aXbc");
    assert_eq!(insert_char("abc", 3, 'X'), "abcX");
    assert_eq!(remove_char("abc", 0), "bc");
    assert_eq!(remove_char("aé✓", 1), "a✓");
    assert_eq!(char_count("aé✓"), 3);
}

#[test]
fn substring_search() {
    assert!(str_contains("hello world", "o w"));
    assert!(str_contains("abc", ""));
    assert!(!str_contains("abc", "abcd"));
    assert!(str_contains("✅ Done", "✅"));
    assert!(!str_contains("Done", "✅"));
}

#[test]
fn proxy_addresses() {
    assert_eq!(proxy_socket_addr("socks5h://127.0.0.1:9050"), "127.0.0.1:9050");
    assert_eq!(proxy_socket_addr("socks5://host:1"), "host:1");
    assert_eq!(proxy_socket_addr("127.0.0.1:9150"), "127.0.0.1:9150");
    assert_eq!(proxy_socket_addr("socks5h://socks5h://x:1"), "x:1");
    assert_eq!(proxy_socket_addr("socks5://socks5h://x:1"), "socks5h://x:1");
    assert_eq!(proxy_socket_addr("socks5h://socks5://x:1"), "x:1");
}

#[test]
fn proxy_address_matches_trim_start_matches() {
    for p in ["socks5h://a", "socks5://socks5://b", "xsocks5://c", "socks5h://socks5h://socks5://d", ""] {
        let expected = p.trim_start_matches("socks5h://").trim_start_matches("socks5://");
        assert_eq!(proxy_socket_addr(p), expected);
    }
}
