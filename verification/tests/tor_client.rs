use oniondownoda::error::OnionError;
use oniondownoda::tor::{
    build_client, build_normal_client, client_from_settings, normal_client_settings,
    tor_client_settings, ClientBuildError, ClientSettings,
};

#[test]
fn client_for_socks_proxy_builds() {
    assert!(build_client("socks5h://127.0.0.1:9050").is_ok());
    assert!(build_client("socks5://127.0.0.1:9150").is_ok());
}

#[test]
fn bad_proxy_address_is_tor_unavailable() {
    match build_client("http://[::1") {
        Err(OnionError::TorUnavailable(t)) => {
            assert!(t.starts_with("http://[::1: "), "{}", t);
            assert!(t.len() > "http://[::1: ".len());
        }
        other => panic!("unexpected {:?}", other.map(|_| ())),
    }
}

#[test]
fn normal_client_builds() {
    assert!(build_normal_client().is_ok());
}

#[test]
fn error_messages() {
    assert_eq!(
        OnionError::TorUnavailable("x: y".to_string()).message(),
        "Tor proxy unavailable: x: y"
    );
    assert_eq!(OnionError::DownloadFailed("HTTP 404".to_string()).message(), "Download failed: HTTP 404");
    let io = std::io::Error::new(std::io::ErrorKind::Other, "disk full");
    assert_eq!(OnionError::Io(io).message(), "I/O error: disk full");
}

#[test]
fn tor_and_normal_settings() {
    let s = tor_client_settings("socks5h://127.0.0.1:9050");
    assert_eq!(s.proxy.as_deref(), Some("socks5h://127.0.0.1:9050"));
    assert_eq!(s.request_timeout_secs, 600);
    assert_eq!(s.connect_timeout_secs, 120);
    let n = normal_client_settings();
    assert!(n.proxy.is_none());
    assert_eq!(n.request_timeout_secs, 600);
    assert_eq!(n.connect_timeout_secs, 120);
}

#[test]
fn settings_with_bad_proxy_are_rejected() {
    let bad = ClientSettings { proxy: Some("http://[::1".to_string()), request_timeout_secs: 1, connect_timeout_secs: 1 };
    assert!(matches!(client_from_settings(&bad), Err(ClientBuildError::ProxyRejected(_))));
    let good = ClientSettings { proxy: Some("socks5h://127.0.0.1:9050".to_string()), request_timeout_secs: 1, connect_timeout_secs: 1 };
    assert!(client_from_settings(&good).is_ok());
}
