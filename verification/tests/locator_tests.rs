use launcher_core::locator::find_exe_in_directory;
use launcher_core::locator::find_first_exe_in_dir;
use launcher_core::locator::find_primary_exe_in_folder;
use launcher_core::model::DirFile;
use launcher_core::model::FolderSnapshot;
use launcher_core::model::SubdirListing;

fn file(stem: &str, ext: &str, path: &str) -> DirFile {
    DirFile { stem: stem.to_string(), ext: ext.to_string(), path: path.to_string() }
}

#[test]
fn locator_prefers_exact_hint_match() {
    let files = vec![
        file("other", "exe", "C:\\Dir\\other.exe"),
        file("MyApp", "exe", "C:\\Dir\\MyApp.exe"),
        file("readme", "txt", "C:\\Dir\\readme.txt"),
    ];
    assert_eq!(find_exe_in_directory(&files, "myapp"), Some("C:\\Dir\\MyApp.exe".to_string()));
}

#[test]
fn locator_skips_denylisted_utilities() {
    let files = vec![
        file("Uninstall", "exe", "C:\\Dir\\Uninstall.exe"),
        file("AppUpdate", "exe", "C:\\Dir\\AppUpdate.exe"),
        file("CrashReporter", "exe", "C:\\Dir\\CrashReporter.exe"),
        file("App", "exe", "C:\\Dir\\App.exe"),
    ];
    let picked = find_exe_in_directory(&files, "whatever");
    assert_eq!(picked, Some("C:\\Dir\\App.exe".to_string()));
}

#[test]
fn directory_of_installers_yields_no_primary_executable() {
    let files = vec![
        file("Setup", "exe", "C:\\Dir\\Setup.exe"),
        file("Uninstall", "exe", "C:\\Dir\\Uninstall.exe"),
    ];
    assert_eq!(find_exe_in_directory(&files, "app"), None);
    assert_eq!(find_first_exe_in_dir(&files), None);
    let folder = FolderSnapshot { subdirs: vec![], files };
    assert_eq!(find_primary_exe_in_folder(&folder), None);
}

#[test]
fn locator_ties_keep_the_first_listed() {
    let files = vec![
        file("alpha", "exe", "C:\\Dir\\alpha.exe"),
        file("beta", "exe", "C:\\Dir\\beta.exe"),
    ];
    assert_eq!(find_exe_in_directory(&files, "unrelated"), Some("C:\\Dir\\alpha.exe".to_string()));
}

#[test]
fn locator_middle_tier_when_hint_contains_stem() {
    let files = vec![
        file("generic", "exe", "C:\\Dir\\generic.exe"),
        file("Code", "exe", "C:\\Dir\\Code.exe"),
    ];
    assert_eq!(
        find_exe_in_directory(&files, "Visual Studio Code"),
        Some("C:\\Dir\\Code.exe".to_string())
    );
}

#[test]
fn primary_exe_tries_app_subdirectories_first() {
    let folder = FolderSnapshot {
        subdirs: vec![
            SubdirListing { name: "packages".to_string(), files: vec![file("pkg", "exe", "X")] },
            SubdirListing {
                name: "app-1.0.9".to_string(),
                files: vec![
                    file("Update", "exe", "C:\\D\\app-1.0.9\\Update.exe"),
                    file("Discord", "exe", "C:\\D\\app-1.0.9\\Discord.exe"),
                ],
            },
        ],
        files: vec![file("fallback", "exe", "C:\\D\\fallback.exe")],
    };
    assert_eq!(
        find_primary_exe_in_folder(&folder),
        Some("C:\\D\\app-1.0.9\\Discord.exe".to_string())
    );
}

#[test]
fn primary_exe_falls_back_to_the_folder_itself() {
    let folder = FolderSnapshot {
        subdirs: vec![SubdirListing { name: "docs".to_string(), files: vec![] }],
        files: vec![file("Tool", "exe", "C:\\D\\Tool.exe"), file("Main", "exe", "C:\\D\\Main.exe")],
    };
    assert_eq!(find_primary_exe_in_folder(&folder), Some("C:\\D\\Main.exe".to_string()));
}

#[test]
fn extension_matching_is_case_insensitive() {
    let files = vec![file("App", "EXE", "C:\\Dir\\App.EXE")];
    assert_eq!(find_exe_in_directory(&files, "app"), Some("C:\\Dir\\App.EXE".to_string()));
}
