//! The discovery sources: the Path Prober, the Registry Scanner, the
//! Shortcut/Menu Scanner and the Local-Data Scanner, each working on a
//! snapshot of what the host read from the operating system.

use vstd::prelude::*;
use vstd::string::StrSliceExecFns;
use vstd::string::StringExecFns;

use crate::locator::find_exe_in_directory;
use crate::locator::find_exe_spec;
use crate::locator::find_primary_exe_in_folder;
use crate::locator::primary_exe_spec;
use crate::model::AppSource;
use crate::model::AppView;
use crate::model::InstalledApp;
use crate::model::LocalDataDir;
use crate::model::LocalDataDirView;
use crate::model::MenuEntry;
use crate::model::MenuEntryView;
use crate::model::PathProbe;
use crate::model::PathProbeView;
use crate::model::RegUninstallEntry;
use crate::model::RegUninstallEntryView;
use crate::text::ends_with_str;
use crate::text::first_line_str;
use crate::text::first_line_spec;
use crate::text::lower_seq;
use crate::text::str_eq;
use crate::text::str_eq_ignore_case;
use crate::text::strip_cr;
use crate::text::strip_suffix_all;
use crate::text::strip_suffix_all_str;
use crate::text::take_until_spec;
use crate::text::take_until_str;
use crate::text::to_lowercase_str;
use crate::text::trim_char_end;
use crate::text::trim_char_start;
use crate::text::trim_matching_char;
use crate::text::trim_spec;
use crate::text::trim_str;

verus! {

/// The fixed list of well-known executable names probed on the command path.
pub open spec fn path_candidate_names() -> Seq<Seq<char>> {
    seq![
        "chrome"@,
        "code"@,
        "code.cmd"@,
        "notepad"@,
        "notepad.exe"@,
        "explorer"@,
        "explorer.exe"@,
        "powershell"@,
        "powershell.exe"@,
        "cmd"@,
        "cmd.exe"@,
        "python"@,
        "python.exe"@,
        "firefox"@,
        "firefox.exe"@,
        "spotify"@,
        "spotify.exe"@,
        "discord"@,
        "discord.exe"@,
        "slack"@,
        "slack.exe"@,
        "vlc"@,
        "vlc.exe"@,
    ]
}

/// The well-known executable names that the Path Prober hands to the OS
/// command-resolution mechanism.
pub fn path_probe_candidates() -> (r: Vec<String>)
    ensures
        r.deep_view() == path_candidate_names(),
{
    let mut v: Vec<String> = Vec::new();
    v.push(String::from_str("chrome"));
    v.push(String::from_str("code"));
    v.push(String::from_str("code.cmd"));
    v.push(String::from_str("notepad"));
    v.push(String::from_str("notepad.exe"));
    v.push(String::from_str("explorer"));
    v.push(String::from_str("explorer.exe"));
    v.push(String::from_str("powershell"));
    v.push(String::from_str("powershell.exe"));
    v.push(String::from_str("cmd"));
    v.push(String::from_str("cmd.exe"));
    v.push(String::from_str("python"));
    v.push(String::from_str("python.exe"));
    v.push(String::from_str("firefox"));
    v.push(String::from_str("firefox.exe"));
    v.push(String::from_str("spotify"));
    v.push(String::from_str("spotify.exe"));
    v.push(String::from_str("discord"));
    v.push(String::from_str("discord.exe"));
    v.push(String::from_str("slack"));
    v.push(String::from_str("slack.exe"));
    v.push(String::from_str("vlc"));
    v.push(String::from_str("vlc.exe"));
    proof {
        assert(v.deep_view() =~= path_candidate_names()) by {
            assert(forall|k: int|
                0 <= k < v.deep_view().len() ==> v.deep_view()[k] == #[trigger] v@[k]@);
        }
    }
    v
}

/// The application a successful path probe yields: the first output line,
/// trimmed, as the executable path, and the candidate lower-cased with
/// trailing `.exe` and `.cmd` suffixes stripped as the raw name.  A failed
/// probe, an empty output and a blank first line yield nothing.
pub open spec fn probe_app(p: PathProbeView) -> Option<AppView> {
    match p.output {
        None => None,
        Some(out) => {
            let line = trim_spec(strip_cr(first_line_spec(out)));
            if out.len() == 0 || line.len() == 0 {
                None
            } else {
                Some(
                    AppView {
                        name: strip_suffix_all(
                            strip_suffix_all(lower_seq(p.candidate), ".exe"@),
                            ".cmd"@,
                        ),
                        display_name: p.candidate,
                        path: line,
                        source: AppSource::PathProbe,
                    },
                )
            }
        },
    }
}

/// The applications a sequence of path probes yields, in probe order.
pub open spec fn path_apps_spec(ps: Seq<PathProbeView>) -> Seq<AppView>
    decreases ps.len(),
{
    if ps.len() == 0 {
        Seq::empty()
    } else {
        let rest = path_apps_spec(ps.drop_last());
        match probe_app(ps.last()) {
            Some(a) => rest.push(a),
            None => rest,
        }
    }
}

/// The Path Prober's computation: turns the probe results for the fixed
/// candidate list into discovered applications.
pub fn discover_apps_from_path(probes: &Vec<PathProbe>) -> (r: Vec<InstalledApp>)
    ensures
        r.deep_view() == path_apps_spec(probes.deep_view()),
{
    let ghost ps = probes.deep_view();
    let n = probes.len();
    let mut out: Vec<InstalledApp> = Vec::new();
    let mut i: usize = 0;
    while i < n
        invariant
            0 <= i <= n,
            n == ps.len(),
            ps == probes.deep_view(),
            out.deep_view() == path_apps_spec(ps.take(i as int)),
        decreases n - i,
    {
        let ghost prev = out.deep_view();
        let p = &probes[i];
        proof {
            assert(ps[i as int] == probes@[i as int]@);
            assert(ps.take(i + 1).drop_last() =~= ps.take(i as int));
            assert(ps.take(i + 1).last() == ps[i as int]);
        }
        match &p.output {
            None => {},
            Some(stdout) => {
                let line = trim_str(first_line_str(stdout.as_str()));
                if stdout.unicode_len() > 0 && line.unicode_len() > 0 {
                    let cand_lower = to_lowercase_str(p.candidate.as_str());
                    let stripped_exe = strip_suffix_all_str(cand_lower.as_str(), ".exe");
                    let stripped = strip_suffix_all_str(stripped_exe, ".cmd");
                    out.push(
                        InstalledApp {
                            name: String::from_str(stripped),
                            display_name: p.candidate.clone(),
                            path: String::from_str(line),
                            source: AppSource::PathProbe,
                        },
                    );
                    proof {
                        assert(out.deep_view() =~= prev.push(probe_app(ps[i as int])->Some_0)) by {
                            assert(forall|k: int|
                                0 <= k < out.deep_view().len() ==> out.deep_view()[k]
                                    == #[trigger] out@[k]@);
                        }
                    }
                }
            },
        }
        i = i + 1;
    }
    proof {
        assert(ps.take(n as int) =~= ps);
    }
    out
}

/// The executable named by an uninstall entry's display-icon value: the value
/// unquoted, cut before any trailing `,<index>` suffix and trimmed, accepted
/// only when it ends in the executable extension.  Whether the path exists on
/// disk is for the caller to check.
pub open spec fn clean_display_icon_spec(icon: Seq<char>) -> Option<Seq<char>> {
    let unquoted = trim_char_end(trim_char_start(icon, '"'), '"');
    let cand = trim_spec(take_until_spec(unquoted, ','));
    if ".exe"@.is_suffix_of(cand) || ".EXE"@.is_suffix_of(cand) {
        Some(cand)
    } else {
        None
    }
}

/// Extracts the executable path out of a display-icon value.
pub fn clean_display_icon(icon_str: &str) -> (r: Option<String>)
    ensures
        ({
            let expected = clean_display_icon_spec(icon_str@);
            match r {
                Some(p) => expected == Some(p@),
                None => expected is None,
            }
        }),
{
    let unquoted = trim_matching_char(icon_str, '"');
    let cand = trim_str(take_until_str(unquoted, ','));
    if ends_with_str(cand, ".exe") || ends_with_str(cand, ".EXE") {
        Some(String::from_str(cand))
    } else {
        None
    }
}

/// A path separator.
pub open spec fn is_path_sep(c: char) -> bool {
    c == '/' || c == '\\'
}

/// Whether a path string names a file with the executable extension: it ends
/// in `.exe` (case-insensitively), and at least one character of the file
/// name precedes the dot.
pub open spec fn path_has_exe_extension(s: Seq<char>) -> bool {
    s.len() >= 5 && lower_seq(s.subrange(s.len() - 4, s.len() as int)) == ".exe"@ && !is_path_sep(
        s[s.len() - 5],
    )
}

/// Checks whether a path string names a file with the executable extension.
pub fn has_exe_extension(s: &str) -> (r: bool)
    ensures
        r == path_has_exe_extension(s@),
{
    let slen = s.unicode_len();
    if slen < 5 {
        return false;
    }
    let tail = s.substring_char(slen - 4, slen);
    let tail_lower = to_lowercase_str(tail);
    if !str_eq(tail_lower.as_str(), ".exe") {
        return false;
    }
    let before = s.get_char(slen - 5);
    !(before == '/' || before == '\\')
}

/// The executable resolved from an uninstall entry's install-location value:
/// the location itself when it names an existing executable file, else the
/// Executable Locator's pick from the location's listing, with the trimmed
/// display name as the hint.
pub open spec fn install_location_exe(e: RegUninstallEntryView, hint: Seq<char>) -> Option<
    Seq<char>,
> {
    match e.install_location {
        None => None,
        Some(loc) => {
            if loc.len() == 0 {
                None
            } else if path_has_exe_extension(loc) && e.install_location_exists {
                Some(loc)
            } else {
                find_exe_spec(e.install_dir_files, hint)
            }
        },
    }
}

/// Resolves the executable of one install-location value.
fn extract_exe_from_install_location(e: &RegUninstallEntry, hint: &str) -> (r: Option<String>)
    ensures
        ({
            let expected = install_location_exe(e@, hint@);
            match r {
                Some(p) => expected == Some(p@),
                None => expected is None,
            }
        }),
{
    match &e.install_location {
        None => None,
        Some(loc) => {
            if loc.as_str().unicode_len() == 0 {
                None
            } else if has_exe_extension(loc.as_str()) && e.install_location_exists {
                Some(loc.clone())
            } else {
                find_exe_in_directory(&e.install_dir_files, hint)
            }
        },
    }
}

/// The executable of one uninstall entry: the display-icon path when the host
/// saw one on disk, else whatever the install location yields.
pub open spec fn registry_entry_exe(e: RegUninstallEntryView, hint: Seq<char>) -> Option<
    Seq<char>,
> {
    match e.icon_exe {
        Some(p) => Some(p),
        None => install_location_exe(e, hint),
    }
}

/// The application one uninstall entry yields, given the lower-cased display
/// names already seen: the display name must be present, non-blank and at
/// most 120 characters after trimming, not seen before, and an executable
/// must be resolvable.
pub open spec fn reg_entry_app(e: RegUninstallEntryView, seen: Set<Seq<char>>) -> Option<AppView> {
    match e.display_name {
        None => None,
        Some(raw) => {
            let dn = trim_spec(raw);
            if dn.len() == 0 || dn.len() > 120 {
                None
            } else {
                let norm = lower_seq(dn);
                if seen.contains(norm) {
                    None
                } else {
                    match registry_entry_exe(e, dn) {
                        Some(p) => Some(
                            AppView {
                                name: norm,
                                display_name: dn,
                                path: p,
                                source: AppSource::Registry,
                            },
                        ),
                        None => None,
                    }
                }
            }
        },
    }
}

/// The applications a sequence of uninstall entries yields: entries are
/// processed in order, and an accepted entry's lower-cased display name joins
/// the seen set shared across all roots.
pub open spec fn registry_apps_spec(es: Seq<RegUninstallEntryView>, seen: Set<Seq<char>>) -> Seq<
    AppView,
>
    decreases es.len(),
{
    if es.len() == 0 {
        Seq::empty()
    } else {
        match reg_entry_app(es[0], seen) {
            None => registry_apps_spec(es.drop_first(), seen),
            Some(a) => seq![a] + registry_apps_spec(es.drop_first(), seen.insert(a.name)),
        }
    }
}

/// Whether the list of seen names holds this name.
fn names_contain(v: &Vec<String>, s: &str) -> (r: bool)
    ensures
        r == v.deep_view().contains(s@),
{
    let n = v.len();
    let mut i: usize = 0;
    while i < n
        invariant
            0 <= i <= n,
            n == v@.len(),
            forall|k: int| 0 <= k < i ==> #[trigger] v.deep_view()[k] != s@,
        decreases n - i,
    {
        proof {
            assert(v.deep_view()[i as int] == v@[i as int]@);
        }
        if str_eq(v[i].as_str(), s) {
            proof {
                assert(v.deep_view()[i as int] == s@);
            }
            return true;
        }
        i = i + 1;
    }
    proof {
        if v.deep_view().contains(s@) {
            let k = choose|k: int| 0 <= k < v.deep_view().len() && v.deep_view()[k] == s@;
        }
    }
    false
}

/// The Registry Scanner's computation: turns the uninstall entries read
/// across all registry roots, in scan order, into discovered applications.
/// Cross-root deduplication works over one shared seen set; an entry with no
/// resolvable executable is dropped and marks nothing as seen.
pub fn discover_apps_from_registry(entries: &Vec<RegUninstallEntry>) -> (r: Vec<InstalledApp>)
    ensures
        r.deep_view() == registry_apps_spec(entries.deep_view(), Set::empty()),
{
    let ghost es = entries.deep_view();
    let n = entries.len();
    let mut out: Vec<InstalledApp> = Vec::new();
    let mut seen: Vec<String> = Vec::new();
    let ghost mut seen_set = Set::<Seq<char>>::empty();
    let mut i: usize = 0;
    proof {
        assert(es.skip(0) =~= es);
    }
    while i < n
        invariant
            0 <= i <= n,
            n == es.len(),
            es == entries.deep_view(),
            forall|nm: Seq<char>| seen.deep_view().contains(nm) <==> seen_set.contains(nm),
            registry_apps_spec(es, Set::empty()) == out.deep_view() + registry_apps_spec(
                es.skip(i as int),
                seen_set,
            ),
        decreases n - i,
    {
        let ghost prev = out.deep_view();
        let ghost prev_seen = seen.deep_view();
        let e = &entries[i];
        proof {
            assert(es[i as int] == entries@[i as int]@);
            assert(es.skip(i as int)[0] == es[i as int]);
            assert(es.skip(i as int).drop_first() =~= es.skip(i + 1));
        }
        let mut accepted = false;
        match &e.display_name {
            None => {},
            Some(raw) => {
                let dn = trim_str(raw.as_str());
                let dlen = dn.unicode_len();
                if dlen > 0 && dlen <= 120 {
                    let norm = to_lowercase_str(dn);
                    if !names_contain(&seen, norm.as_str()) {
                        let exe: Option<String> = match &e.icon_exe {
                            Some(p) => Some(p.clone()),
                            None => extract_exe_from_install_location(e, dn),
                        };
                        match exe {
                            Some(path) => {
                                out.push(
                                    InstalledApp {
                                        name: norm.clone(),
                                        display_name: String::from_str(dn),
                                        path,
                                        source: AppSource::Registry,
                                    },
                                );
                                seen.push(norm);
                                accepted = true;
                                proof {
                                    let a = reg_entry_app(es[i as int], seen_set)->Some_0;
                                    assert(out.deep_view() =~= prev.push(a)) by {
                                        assert(forall|k: int|
                                            0 <= k < out.deep_view().len() ==> out.deep_view()[k]
                                                == #[trigger] out@[k]@);
                                    }
                                    assert(seen.deep_view() =~= prev_seen.push(a.name)) by {
                                        assert(forall|k: int|
                                            0 <= k < seen.deep_view().len() ==> seen.deep_view()[k]
                                                == #[trigger] seen@[k]@);
                                    }
                                    assert forall|nm: Seq<char>|
                                        seen.deep_view().contains(nm) <==> seen_set.insert(
                                            a.name,
                                        ).contains(nm) by {
                                        if seen.deep_view().contains(nm) {
                                            let k = choose|k: int|
                                                0 <= k < seen.deep_view().len()
                                                    && seen.deep_view()[k] == nm;
                                            if k < prev_seen.len() {
                                                assert(prev_seen.contains(nm));
                                            }
                                        }
                                        if seen_set.insert(a.name).contains(nm) {
                                            if nm == a.name {
                                                assert(seen.deep_view()[seen.deep_view().len() - 1]
                                                    == nm);
                                            } else {
                                                assert(prev_seen.contains(nm));
                                                let k = choose|k: int|
                                                    0 <= k < prev_seen.len() && prev_seen[k] == nm;
                                                assert(seen.deep_view()[k] == nm);
                                            }
                                        }
                                    }
                                    assert(prev + seq![a] + registry_apps_spec(
                                        es.skip(i + 1),
                                        seen_set.insert(a.name),
                                    ) =~= prev + (seq![a] + registry_apps_spec(
                                        es.skip(i + 1),
                                        seen_set.insert(a.name),
                                    )));
                                    seen_set = seen_set.insert(a.name);
                                }
                            },
                            None => {},
                        }
                    }
                }
            },
        }
        proof {
            if !accepted {
                assert(reg_entry_app(es[i as int], seen_set) is None);
            }
        }
        i = i + 1;
    }
    proof {
        assert(es.skip(n as int) =~= Seq::<RegUninstallEntryView>::empty());
        assert(out.deep_view() + Seq::<AppView>::empty() =~= out.deep_view());
    }
    out
}

/// Shortcut-target resolution: link targets are never resolved
/// (a known discovery gap, kept by design), so every shortcut is skipped and
/// start-menu applications come from folder snapshots alone.
pub fn resolve_lnk_simple(lnk_path: &str) -> (r: Result<Option<String>, String>)
    ensures
        r matches Ok(target) && target is None,
{
    let _ = lnk_path;
    Ok(None)
}

/// The application one start-menu node yields: a folder with a primary
/// executable becomes an application named after the folder; shortcuts yield
/// nothing while link-target resolution stays unimplemented.
pub open spec fn menu_entry_app(e: MenuEntryView) -> Option<AppView> {
    match e {
        MenuEntryView::Folder { name, folder } => match primary_exe_spec(folder) {
            Some(p) => Some(
                AppView {
                    name: lower_seq(name),
                    display_name: name,
                    path: p,
                    source: AppSource::StartMenu,
                },
            ),
            None => None,
        },
        MenuEntryView::Shortcut { .. } => None,
    }
}

/// The applications a walk of the start-menu trees yields, in walk order.
pub open spec fn menu_apps_spec(es: Seq<MenuEntryView>) -> Seq<AppView>
    decreases es.len(),
{
    if es.len() == 0 {
        Seq::empty()
    } else {
        let rest = menu_apps_spec(es.drop_last());
        match menu_entry_app(es.last()) {
            Some(a) => rest.push(a),
            None => rest,
        }
    }
}

/// The Shortcut/Menu Scanner's computation: turns the nodes met while walking
/// the start-menu trees, in walk order, into discovered applications.
pub fn discover_apps_from_start_menu(entries: &Vec<MenuEntry>) -> (r: Vec<InstalledApp>)
    ensures
        r.deep_view() == menu_apps_spec(entries.deep_view()),
{
    let ghost es = entries.deep_view();
    let n = entries.len();
    let mut out: Vec<InstalledApp> = Vec::new();
    let mut i: usize = 0;
    while i < n
        invariant
            0 <= i <= n,
            n == es.len(),
            es == entries.deep_view(),
            out.deep_view() == menu_apps_spec(es.take(i as int)),
        decreases n - i,
    {
        let ghost prev = out.deep_view();
        proof {
            assert(es[i as int] == entries@[i as int]@);
            assert(es.take(i + 1).drop_last() =~= es.take(i as int));
            assert(es.take(i + 1).last() == es[i as int]);
        }
        match &entries[i] {
            MenuEntry::Folder { name, folder } => {
                match find_primary_exe_in_folder(folder) {
                    Some(exe) => {
                        out.push(
                            InstalledApp {
                                name: to_lowercase_str(name.as_str()),
                                display_name: name.clone(),
                                path: exe,
                                source: AppSource::StartMenu,
                            },
                        );
                        proof {
                            assert(out.deep_view() =~= prev.push(
                                menu_entry_app(es[i as int])->Some_0,
                            )) by {
                                assert(forall|k: int|
                                    0 <= k < out.deep_view().len() ==> out.deep_view()[k]
                                        == #[trigger] out@[k]@);
                            }
                        }
                    },
                    None => {},
                }
            },
            MenuEntry::Shortcut { name, link_path } => {
                match resolve_lnk_simple(link_path.as_str()) {
                    Ok(Some(target)) => {
                        out.push(
                            InstalledApp {
                                name: to_lowercase_str(name.as_str()),
                                display_name: name.clone(),
                                path: target,
                                source: AppSource::StartMenu,
                            },
                        );
                    },
                    _ => {},
                }
            },
        }
        i = i + 1;
    }
    proof {
        assert(es.take(n as int) =~= es);
    }
    out
}

/// Whether a directory name matches, up to ASCII case, one of the well-known
/// application names sought under the per-user application-data root.
pub open spec fn is_common_app_name(n: Seq<char>) -> bool {
    ||| lower_seq(n) == lower_seq("Discord"@)
    ||| lower_seq(n) == lower_seq("Slack"@)
    ||| lower_seq(n) == lower_seq("Teams"@)
    ||| lower_seq(n) == lower_seq("Spotify"@)
    ||| lower_seq(n) == lower_seq("WhatsApp"@)
    ||| lower_seq(n) == lower_seq("Signal"@)
    ||| lower_seq(n) == lower_seq("Obsidian"@)
}

/// The application one application-data directory yields: its name must be
/// on the allow-list and its snapshot must hold a primary executable.
pub open spec fn localdata_dir_app(d: LocalDataDirView) -> Option<AppView> {
    if is_common_app_name(d.name) {
        match primary_exe_spec(d.folder) {
            Some(p) => Some(
                AppView {
                    name: lower_seq(d.name),
                    display_name: d.name,
                    path: p,
                    source: AppSource::LocalAppData,
                },
            ),
            None => None,
        }
    } else {
        None
    }
}

/// The applications the application-data directories yield, in listing order.
pub open spec fn localdata_apps_spec(ds: Seq<LocalDataDirView>) -> Seq<AppView>
    decreases ds.len(),
{
    if ds.len() == 0 {
        Seq::empty()
    } else {
        let rest = localdata_apps_spec(ds.drop_last());
        match localdata_dir_app(ds.last()) {
            Some(a) => rest.push(a),
            None => rest,
        }
    }
}

/// The Local-Data Scanner's computation: checks the fixed allow-list of
/// well-known application names against the per-user application-data
/// directories and locates each match's primary executable.
pub fn discover_apps_from_localappdata(dirs: &Vec<LocalDataDir>) -> (r: Vec<InstalledApp>)
    ensures
        r.deep_view() == localdata_apps_spec(dirs.deep_view()),
{
    let ghost ds = dirs.deep_view();
    let n = dirs.len();
    let mut out: Vec<InstalledApp> = Vec::new();
    let mut i: usize = 0;
    while i < n
        invariant
            0 <= i <= n,
            n == ds.len(),
            ds == dirs.deep_view(),
            out.deep_view() == localdata_apps_spec(ds.take(i as int)),
        decreases n - i,
    {
        let ghost prev = out.deep_view();
        let d = &dirs[i];
        proof {
            assert(ds[i as int] == dirs@[i as int]@);
            assert(ds.take(i + 1).drop_last() =~= ds.take(i as int));
            assert(ds.take(i + 1).last() == ds[i as int]);
        }
        let nm = d.name.as_str();
        let matched = str_eq_ignore_case(nm, "Discord") || str_eq_ignore_case(nm, "Slack")
            || str_eq_ignore_case(nm, "Teams") || str_eq_ignore_case(nm, "Spotify")
            || str_eq_ignore_case(nm, "WhatsApp") || str_eq_ignore_case(nm, "Signal")
            || str_eq_ignore_case(nm, "Obsidian");
        if matched {
            match find_primary_exe_in_folder(&d.folder) {
                Some(exe) => {
                    out.push(
                        InstalledApp {
                            name: to_lowercase_str(nm),
                            display_name: d.name.clone(),
                            path: exe,
                            source: AppSource::LocalAppData,
                        },
                    );
                    proof {
                        assert(out.deep_view() =~= prev.push(
                            localdata_dir_app(ds[i as int])->Some_0,
                        )) by {
                            assert(forall|k: int|
                                0 <= k < out.deep_view().len() ==> out.deep_view()[k]
                                    == #[trigger] out@[k]@);
                        }
                    }
                },
                None => {},
            }
        }
        i = i + 1;
    }
    proof {
        assert(ds.take(n as int) =~= ds);
    }
    out
}

} // verus!
