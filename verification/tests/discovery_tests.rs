use launcher_core::discovery::clean_display_icon;
use launcher_core::discovery::discover_apps_from_localappdata;
use launcher_core::discovery::discover_apps_from_path;
use launcher_core::discovery::discover_apps_from_registry;
use launcher_core::discovery::discover_apps_from_start_menu;
use launcher_core::discovery::has_exe_extension;
use launcher_core::discovery::path_probe_candidates;
use launcher_core::discovery::resolve_lnk_simple;
use launcher_core::model::DirFile;
use launcher_core::model::FolderSnapshot;
use launcher_core::model::LocalDataDir;
use launcher_core::model::MenuEntry;
use launcher_core::model::PathProbe;
use launcher_core::model::RegUninstallEntry;
use launcher_core::model::AppSource;

fn file(stem: &str, ext: &str, path: &str) -> DirFile {
    DirFile { stem: stem.to_string(), ext: ext.to_string(), path: path.to_string() }
}

#[test]
fn candidate_list_is_fixed() {
    let c = path_probe_candidates();
    assert_eq!(c.len(), 23);
    assert_eq!(c[0], "chrome");
    assert_eq!(c[2], "code.cmd");
    assert_eq!(c[22], "vlc.exe");
}

#[test]
fn path_probe_takes_the_first_line_and_strips_suffixes() {
    let probes = vec![
        PathProbe {
            candidate: "code.cmd".to_string(),
            output: Some("C:\\bin\\code.cmd\r\nC:\\other\\code.cmd\r\n".to_string()),
        },
        PathProbe { candidate: "chrome".to_string(), output: None },
        PathProbe { candidate: "vlc.exe".to_string(), output: Some("   \r\n".to_string()) },
        PathProbe { candidate: "Notepad.EXE".to_string(), output: Some("C:\\Windows\\notepad.exe".to_string()) },
    ];
    let apps = discover_apps_from_path(&probes);
    assert_eq!(apps.len(), 2);
    assert_eq!(apps[0].name, "code");
    assert_eq!(apps[0].display_name, "code.cmd");
    assert_eq!(apps[0].path, "C:\\bin\\code.cmd");
    assert_eq!(apps[0].source, AppSource::PathProbe);
    assert_eq!(apps[1].name, "notepad");
    assert_eq!(apps[1].path, "C:\\Windows\\notepad.exe");
}

#[test]
fn display_icon_values_are_cleaned() {
    assert_eq!(clean_display_icon("C:\\Apps\\Thing.exe"), Some("C:\\Apps\\Thing.exe".to_string()));
    assert_eq!(
        clean_display_icon("\"C:\\Apps\\Thing.exe\""),
        Some("C:\\Apps\\Thing.exe".to_string())
    );
    assert_eq!(clean_display_icon("C:\\Apps\\Thing.exe,0"), Some("C:\\Apps\\Thing.exe".to_string()));
    assert_eq!(clean_display_icon("C:\\Apps\\THING.EXE,1"), Some("C:\\Apps\\THING.EXE".to_string()));
    // Quotes are stripped only at the very ends: a quote left before the
    // `,<index>` suffix makes the value unusable.
    assert_eq!(clean_display_icon("\"C:\\Apps\\Thing.exe\",0"), None);
    assert_eq!(clean_display_icon("C:\\Apps\\icon.ico"), None);
    assert_eq!(clean_display_icon(""), None);
}

#[test]
fn exe_extension_check_follows_path_semantics() {
    assert!(has_exe_extension("C:\\Apps\\App.exe"));
    assert!(has_exe_extension("C:\\Apps\\App.EXE"));
    assert!(!has_exe_extension("C:\\Apps\\App.ico"));
    assert!(!has_exe_extension("C:\\Apps\\.exe"));
    assert!(!has_exe_extension(".exe"));
    assert!(has_exe_extension("a.exe"));
}

fn entry(
    display_name: Option<&str>,
    icon_exe: Option<&str>,
    install_location: Option<&str>,
    install_location_exists: bool,
    install_dir_files: Vec<DirFile>,
) -> RegUninstallEntry {
    RegUninstallEntry {
        display_name: display_name.map(|s| s.to_string()),
        icon_exe: icon_exe.map(|s| s.to_string()),
        install_location: install_location.map(|s| s.to_string()),
        install_location_exists,
        install_dir_files,
    }
}

#[test]
fn registry_scanner_prefers_the_icon_path() {
    let entries = vec![entry(
        Some(" Spotify "),
        Some("C:\\Apps\\Spotify.exe"),
        Some("C:\\Apps"),
        true,
        vec![file("Other", "exe", "C:\\Apps\\Other.exe")],
    )];
    let apps = discover_apps_from_registry(&entries);
    assert_eq!(apps.len(), 1);
    assert_eq!(apps[0].name, "spotify");
    assert_eq!(apps[0].display_name, "Spotify");
    assert_eq!(apps[0].path, "C:\\Apps\\Spotify.exe");
    assert_eq!(apps[0].source, AppSource::Registry);
}

#[test]
fn registry_scanner_uses_the_install_location() {
    let entries = vec![
        // The location itself is an existing executable.
        entry(Some("Tool One"), None, Some("C:\\T\\tool.exe"), true, vec![]),
        // The location is a directory: the locator picks by hint.
        entry(
            Some("My App"),
            None,
            Some("C:\\MyApp"),
            false,
            vec![
                file("setup", "exe", "C:\\MyApp\\setup.exe"),
                file("my app", "exe", "C:\\MyApp\\my app.exe"),
            ],
        ),
    ];
    let apps = discover_apps_from_registry(&entries);
    assert_eq!(apps.len(), 2);
    assert_eq!(apps[0].path, "C:\\T\\tool.exe");
    assert_eq!(apps[1].path, "C:\\MyApp\\my app.exe");
}

#[test]
fn registry_scanner_drops_invalid_and_duplicate_entries() {
    let long_name = "x".repeat(121);
    let entries = vec![
        entry(None, Some("C:\\a.exe"), None, false, vec![]),
        entry(Some("   "), Some("C:\\a.exe"), None, false, vec![]),
        entry(Some(long_name.as_str()), Some("C:\\a.exe"), None, false, vec![]),
        entry(Some("App"), Some("C:\\first.exe"), None, false, vec![]),
        entry(Some("APP"), Some("C:\\second.exe"), None, false, vec![]),
        // No resolvable executable: dropped, and not marked as seen.
        entry(Some("Ghost"), None, None, false, vec![]),
        entry(Some("ghost"), Some("C:\\ghost.exe"), None, false, vec![]),
    ];
    let apps = discover_apps_from_registry(&entries);
    assert_eq!(apps.len(), 2);
    assert_eq!(apps[0].name, "app");
    assert_eq!(apps[0].path, "C:\\first.exe");
    assert_eq!(apps[1].name, "ghost");
    assert_eq!(apps[1].path, "C:\\ghost.exe");
}

#[test]
fn shortcuts_stay_unresolved_by_design() {
    assert_eq!(resolve_lnk_simple("C:\\menu\\App.lnk"), Ok(None));
}

#[test]
fn start_menu_scanner_takes_folders_not_shortcuts() {
    let entries = vec![
        MenuEntry::Shortcut {
            name: "Word".to_string(),
            link_path: "C:\\menu\\Word.lnk".to_string(),
        },
        MenuEntry::Folder {
            name: "Discord Inc".to_string(),
            folder: FolderSnapshot {
                subdirs: vec![],
                files: vec![file("Discord", "exe", "C:\\D\\Discord.exe")],
            },
        },
        MenuEntry::Folder {
            name: "Empty".to_string(),
            folder: FolderSnapshot { subdirs: vec![], files: vec![] },
        },
    ];
    let apps = discover_apps_from_start_menu(&entries);
    assert_eq!(apps.len(), 1);
    assert_eq!(apps[0].name, "discord inc");
    assert_eq!(apps[0].display_name, "Discord Inc");
    assert_eq!(apps[0].path, "C:\\D\\Discord.exe");
    assert_eq!(apps[0].source, AppSource::StartMenu);
}

#[test]
fn localdata_scanner_matches_the_allow_list_case_insensitively() {
    let dirs = vec![
        LocalDataDir {
            name: "discord".to_string(),
            folder: FolderSnapshot {
                subdirs: vec![],
                files: vec![file("Discord", "exe", "C:\\L\\Discord.exe")],
            },
        },
        LocalDataDir {
            name: "RandomVendor".to_string(),
            folder: FolderSnapshot {
                subdirs: vec![],
                files: vec![file("Random", "exe", "C:\\L\\Random.exe")],
            },
        },
        LocalDataDir {
            name: "Spotify".to_string(),
            folder: FolderSnapshot { subdirs: vec![], files: vec![] },
        },
    ];
    let apps = discover_apps_from_localappdata(&dirs);
    assert_eq!(apps.len(), 1);
    assert_eq!(apps[0].name, "discord");
    assert_eq!(apps[0].path, "C:\\L\\Discord.exe");
    assert_eq!(apps[0].source, AppSource::LocalAppData);
}
