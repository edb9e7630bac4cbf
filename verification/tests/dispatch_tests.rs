use launcher_core::dispatch::kill_failure_response;
use launcher_core::dispatch::kill_success_response;
use launcher_core::dispatch::list_apps_response;
use launcher_core::dispatch::open_app_failure_response;
use launcher_core::dispatch::open_app_success_response;
use launcher_core::dispatch::open_url_failure_response;
use launcher_core::dispatch::open_url_success_response;
use launcher_core::dispatch::plan_action;
use launcher_core::dispatch::unknown_action_response;
use launcher_core::dispatch::ActionStep;
use launcher_core::model::AppSource;
use launcher_core::model::InstalledApp;
use launcher_core::registry::build_app_registry;
use launcher_core::actions::unknown_app_error;

fn app(name: &str, display: &str, path: &str) -> InstalledApp {
    InstalledApp {
        name: name.to_string(),
        display_name: display.to_string(),
        path: path.to_string(),
        source: AppSource::Registry,
    }
}

fn registry() -> launcher_core::registry::AppRegistry {
    build_app_registry(vec![app("spotify", "Spotify", "C:\\Apps\\Spotify.exe")])
}

#[test]
fn list_apps_returns_the_display_names() {
    let reg = registry();
    match plan_action("list_apps", "", &reg) {
        ActionStep::Done(resp) => {
            assert!(resp.success);
            assert_eq!(resp.message, "Installed apps listed");
            assert!(!resp.requires_confirmation);
            assert_eq!(
                resp.data,
                Some(vec![
                    "Spotify".to_string(),
                    "cmd".to_string(),
                    "explorer".to_string(),
                    "notepad".to_string(),
                ])
            );
        }
        _ => panic!("list_apps must finish without an OS call"),
    }
}

#[test]
fn open_app_launches_a_resolved_path() {
    let reg = registry();
    match plan_action("open_app", "spotify", &reg) {
        ActionStep::LaunchExecutable { path } => assert_eq!(path, "C:\\Apps\\Spotify.exe"),
        _ => panic!("a registered name must be launched directly"),
    }
}

#[test]
fn open_app_defers_unknown_names_to_native_resolution() {
    let reg = registry();
    match plan_action("open_app", "zzz", &reg) {
        ActionStep::ResolveNatively { name } => assert_eq!(name, "zzz"),
        _ => panic!("an unknown safe name goes to OS-native resolution"),
    }
}

#[test]
fn open_app_fallback_offers_the_web_url() {
    // The host reports that native resolution of the unknown name failed;
    // the resulting response must offer the fallback URL behind confirmation.
    let resp = open_app_failure_response("zzz", &unknown_app_error("zzz"));
    assert!(!resp.success);
    assert!(resp.requires_confirmation);
    assert_eq!(resp.fallback_action, Some("open_url".to_string()));
    assert_eq!(resp.fallback_value, Some("https://www.zzz.com".to_string()));
    assert_eq!(resp.message, "App not found. Should I open this in Chrome? (Unknown app: zzz)");
    assert_eq!(resp.data, None);
}

#[test]
fn open_app_rejects_unsafe_names_without_an_os_call() {
    let reg = registry();
    match plan_action("open_app", "bad|name", &reg) {
        ActionStep::Done(resp) => {
            assert!(!resp.success);
            assert!(resp.requires_confirmation);
            assert_eq!(resp.fallback_action, Some("open_url".to_string()));
            assert_eq!(resp.fallback_value, Some("https://www.bad|name.com".to_string()));
        }
        _ => panic!("an unsafe name must never reach the OS shell"),
    }
}

#[test]
fn open_url_rejects_non_http_schemes() {
    let reg = registry();
    match plan_action("open_url", "ftp://x.com", &reg) {
        ActionStep::Done(resp) => {
            assert!(!resp.success);
            assert!(!resp.requires_confirmation);
            assert_eq!(resp.message, "Invalid URL");
            assert_eq!(resp.fallback_action, None);
            assert_eq!(resp.fallback_value, None);
        }
        _ => panic!("an invalid URL must never reach the OS handler"),
    }
}

#[test]
fn open_url_passes_valid_urls_through() {
    let reg = registry();
    match plan_action("open_url", "https://example.com", &reg) {
        ActionStep::OpenUrlExternally { url } => assert_eq!(url, "https://example.com"),
        _ => panic!("a valid URL goes to the OS handler"),
    }
}

#[test]
fn kill_process_passes_the_name_through() {
    let reg = registry();
    match plan_action("kill_process", "notepad.exe", &reg) {
        ActionStep::KillProcessByName { name } => assert_eq!(name, "notepad.exe"),
        _ => panic!("kill_process hands the name to the OS"),
    }
}

#[test]
fn unrecognized_actions_are_rejected_by_name() {
    let reg = registry();
    match plan_action("reboot", "now", &reg) {
        ActionStep::Done(resp) => {
            assert!(!resp.success);
            assert_eq!(resp.message, "Unknown action: reboot");
        }
        _ => panic!("an unknown action must finish without an OS call"),
    }
}

#[test]
fn outcome_responses_carry_the_documented_messages() {
    assert_eq!(open_app_success_response().message, "Application opened");
    assert_eq!(open_url_success_response().message, "URL opened");
    assert_eq!(open_url_failure_response("denied").message, "Failed to open URL: denied");
    assert_eq!(kill_success_response().message, "Process terminated");
    assert_eq!(
        kill_failure_response("no such process").message,
        "Failed to terminate process: no such process"
    );
    assert_eq!(unknown_action_response("dance").message, "Unknown action: dance");
    let reg = registry();
    let listing = list_apps_response(&reg);
    assert!(listing.success);
    assert_eq!(listing.data.as_ref().map(|d| d.len()), Some(4));
}
