use launcher_core::actions::build_fallback_url;
use launcher_core::actions::classify_spawn_error;
use launcher_core::actions::is_valid_url;
use launcher_core::actions::sanitize_windows_app_name;
use launcher_core::actions::unknown_app_error;
use launcher_core::normalize::normalize_app_name;

#[test]
fn normalize_lowercases_and_strips_symbols() {
    assert_eq!(normalize_app_name("Visual Studio Code"), "visualstudiocode");
    assert_eq!(normalize_app_name("Notepad++"), "notepad");
    assert_eq!(normalize_app_name("µTorrent"), "torrent");
    assert_eq!(normalize_app_name("7-Zip 23.01"), "7zip2301");
    assert_eq!(normalize_app_name("!!!"), "");
    assert_eq!(normalize_app_name(""), "");
}

#[test]
fn normalize_is_idempotent_on_samples() {
    for s in [
        "Visual Studio Code",
        "Notepad++",
        "µTorrent",
        "7-Zip 23.01",
        "",
        "ALL CAPS",
        "already normal",
    ] {
        let once = normalize_app_name(s);
        let twice = normalize_app_name(&once);
        assert_eq!(twice, once);
    }
}

#[test]
fn fallback_url_for_youtube_and_others() {
    assert_eq!(build_fallback_url("YouTube "), "https://www.youtube.com");
    assert_eq!(build_fallback_url("Spotify"), "https://www.spotify.com");
    assert_eq!(build_fallback_url("zzz"), "https://www.zzz.com");
    assert_eq!(build_fallback_url("  youtube  "), "https://www.youtube.com");
}

#[test]
fn url_validation_requires_http_scheme() {
    assert!(is_valid_url("https://example.com"));
    assert!(is_valid_url("http://example.com"));
    assert!(is_valid_url("  https://padded.example  "));
    assert!(!is_valid_url("ftp://x.com"));
    assert!(!is_valid_url("example.com"));
    assert!(!is_valid_url(""));
}

#[test]
fn sanitize_accepts_plain_names_and_trims() {
    assert_eq!(sanitize_windows_app_name("  notepad  "), Ok("notepad".to_string()));
    assert_eq!(sanitize_windows_app_name("Visual Studio Code"), Ok("Visual Studio Code".to_string()));
}

#[test]
fn sanitize_rejects_empty_names() {
    assert_eq!(sanitize_windows_app_name("   "), Err("Empty app name".to_string()));
    assert_eq!(sanitize_windows_app_name(""), Err("Empty app name".to_string()));
}

#[test]
fn sanitize_rejects_shell_metacharacters() {
    for bad in ["a&b", "a|b", "a>b", "a<b", "a;b", "a\"b", "a'b", "name$", "x\\y"] {
        assert_eq!(
            sanitize_windows_app_name(bad),
            Err("Invalid characters in app name".to_string()),
            "expected rejection of {bad}"
        );
    }
}

#[test]
fn spawn_errors_are_classified_by_elevation_signal() {
    assert_eq!(
        classify_spawn_error("C:\\app.exe", "os error 740"),
        "App requires admin rights: C:\\app.exe"
    );
    assert_eq!(
        classify_spawn_error("C:\\app.exe", "needs elevation to run"),
        "App requires admin rights: C:\\app.exe"
    );
    assert_eq!(
        classify_spawn_error("C:\\app.exe", "access denied"),
        "Spawn failed: access denied"
    );
}

#[test]
fn unknown_app_error_names_the_value() {
    assert_eq!(unknown_app_error("zzz"), "Unknown app: zzz");
}
