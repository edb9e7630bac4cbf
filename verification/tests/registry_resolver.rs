use launcher_core::model::AppSource;
use launcher_core::model::InstalledApp;
use launcher_core::registry::build_app_registry;
use launcher_core::registry::dedup_apps;
use launcher_core::resolver::resolve_app;

fn app(name: &str, display: &str, path: &str) -> InstalledApp {
    InstalledApp {
        name: name.to_string(),
        display_name: display.to_string(),
        path: path.to_string(),
        source: AppSource::PathProbe,
    }
}

fn sample_apps() -> Vec<InstalledApp> {
    vec![
        app("spotify", "Spotify", "C:\\Apps\\Spotify.exe"),
        app("visual studio code", "Visual Studio Code", "C:\\Apps\\Code.exe"),
        app("devstudio", "DevStudio", "C:\\Apps\\DevStudio.exe"),
    ]
}

#[test]
fn registry_adds_missing_fallbacks() {
    let reg = build_app_registry(sample_apps());
    assert_eq!(resolve_app(&reg, "notepad"), Some("notepad.exe".to_string()));
    assert_eq!(resolve_app(&reg, "explorer"), Some("explorer.exe".to_string()));
    assert_eq!(resolve_app(&reg, "cmd"), Some("cmd.exe".to_string()));
}

#[test]
fn registry_keeps_discovered_path_over_fallback() {
    let mut apps = sample_apps();
    apps.push(app("notepad", "notepad", "C:\\Custom\\notepad.exe"));
    let reg = build_app_registry(apps);
    assert_eq!(resolve_app(&reg, "notepad"), Some("C:\\Custom\\notepad.exe".to_string()));
}

#[test]
fn resolver_exact_match_wins() {
    let reg = build_app_registry(sample_apps());
    assert_eq!(resolve_app(&reg, "spotify"), Some("C:\\Apps\\Spotify.exe".to_string()));
    assert_eq!(resolve_app(&reg, "Visual Studio Code!"), Some("C:\\Apps\\Code.exe".to_string()));
}

#[test]
fn resolver_prefix_beats_substring() {
    let mut apps = sample_apps();
    apps.push(app("decode master", "Decode Master", "C:\\Apps\\Decode.exe"));
    apps.push(app("codeinsiders", "CodeInsiders", "C:\\Apps\\CodeInsiders.exe"));
    let reg = build_app_registry(apps);
    // "codeinsiders" starts with the query; "decodemaster" only contains it.
    assert_eq!(resolve_app(&reg, "code"), Some("C:\\Apps\\CodeInsiders.exe".to_string()));
}

#[test]
fn short_queries_never_match_by_substring() {
    let reg = build_app_registry(sample_apps());
    // "vs" is shorter than four characters; "devstudio" contains it but must not match.
    assert_eq!(resolve_app(&reg, "vs"), None);
}

#[test]
fn long_queries_match_by_substring() {
    let reg = build_app_registry(sample_apps());
    // Both "devstudio" and "visualstudiocode" contain "stud"; the longer key
    // scores higher (1000 plus the key length).
    assert_eq!(resolve_app(&reg, "stud"), Some("C:\\Apps\\Code.exe".to_string()));
}

#[test]
fn unknown_queries_resolve_to_nothing() {
    let reg = build_app_registry(sample_apps());
    assert_eq!(resolve_app(&reg, "zzz"), None);
}

#[test]
fn display_names_are_sorted_and_deduplicated() {
    let apps = vec![
        app("zed", "Zed", "Z"),
        app("alpha", "Alpha", "A"),
        app("midway", "Midway", "M"),
        app("alpha2", "Alpha", "A2"),
    ];
    let reg = build_app_registry(apps);
    assert_eq!(
        reg.display_names,
        vec![
            "Alpha".to_string(),
            "Midway".to_string(),
            "Zed".to_string(),
            "cmd".to_string(),
            "explorer".to_string(),
            "notepad".to_string(),
        ]
    );
}

#[test]
fn dedup_keeps_the_first_of_each_raw_name() {
    let apps = vec![
        app("slack", "Slack", "first"),
        app("slack", "Slack Again", "second"),
        app("other", "Other", "third"),
    ];
    let deduped = dedup_apps(apps);
    assert_eq!(deduped.len(), 2);
    assert_eq!(deduped[0].path, "first");
    assert_eq!(deduped[1].path, "third");
}

#[test]
fn dedup_is_a_no_op_on_deduplicated_input() {
    let once = dedup_apps(vec![
        app("a", "A", "1"),
        app("b", "B", "2"),
        app("a", "A2", "3"),
    ]);
    let names: Vec<String> = once.iter().map(|a| a.name.clone()).collect();
    let paths: Vec<String> = once.iter().map(|a| a.path.clone()).collect();
    let twice = dedup_apps(once);
    assert_eq!(twice.iter().map(|a| a.name.clone()).collect::<Vec<_>>(), names);
    assert_eq!(twice.iter().map(|a| a.path.clone()).collect::<Vec<_>>(), paths);
}

#[test]
fn building_twice_from_the_same_set_is_identical() {
    let reg1 = build_app_registry(sample_apps());
    let reg2 = build_app_registry(sample_apps());
    assert_eq!(reg1.display_names, reg2.display_names);
    let pairs1: Vec<(String, String)> =
        reg1.apps.iter().map(|e| (e.key.clone(), e.path.clone())).collect();
    let pairs2: Vec<(String, String)> =
        reg2.apps.iter().map(|e| (e.key.clone(), e.path.clone())).collect();
    assert_eq!(pairs1, pairs2);
}

#[test]
fn normalized_collisions_let_the_later_entry_overwrite() {
    // Two distinct raw names that normalize to the same key: the raw-name
    // dedup keeps both, and the later one overwrites in the lookup map.
    let apps = vec![
        app("v s code", "V S Code", "C:\\first.exe"),
        app("vscode", "VSCode", "C:\\second.exe"),
    ];
    let reg = build_app_registry(apps);
    assert_eq!(resolve_app(&reg, "vscode"), Some("C:\\second.exe".to_string()));
    // Both display names survive: the dedup pass works on raw names.
    assert!(reg.display_names.contains(&"V S Code".to_string()));
    assert!(reg.display_names.contains(&"VSCode".to_string()));
}

#[test]
fn resolver_normalizes_queries() {
    let reg = build_app_registry(sample_apps());
    assert_eq!(resolve_app(&reg, "  SPOT-ify "), Some("C:\\Apps\\Spotify.exe".to_string()));
}
