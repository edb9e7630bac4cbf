//! Data model: discovered applications, filesystem and registry snapshots,
//! and the dispatcher's response type.
//!
//! The discovery scanners work on *snapshots*: plain-value images of what the
//! host process read from the operating system (directory listings,
//! uninstall-metadata entries, command-resolution output).  The host gathers
//! the snapshots; every decision taken on them lives in this library.

use vstd::prelude::*;

verus! {

/// Which discovery source produced an application entry.
///
/// Used for diagnostics only; it never affects resolution priority once the
/// entries are merged.
#[derive(Clone, Copy, Debug, PartialEq, Eq, Structural)]
pub enum AppSource {
    PathProbe,
    Registry,
    StartMenu,
    LocalAppData,
    Fallback,
}

/// One candidate application found by a discovery source.
pub struct InstalledApp {
    /// Lowercase identity key as produced by its source, before normalization.
    pub name: String,
    /// Human-readable label.
    pub display_name: String,
    /// Absolute or command-resolvable path to an executable.
    pub path: String,
    /// Provenance tag.
    pub source: AppSource,
}

/// Mathematical image of an [`InstalledApp`].
pub ghost struct AppView {
    pub name: Seq<char>,
    pub display_name: Seq<char>,
    pub path: Seq<char>,
    pub source: AppSource,
}

impl View for InstalledApp {
    type V = AppView;

    open spec fn view(&self) -> AppView {
        AppView {
            name: self.name@,
            display_name: self.display_name@,
            path: self.path@,
            source: self.source,
        }
    }
}

impl DeepView for InstalledApp {
    type V = AppView;

    open spec fn deep_view(&self) -> AppView {
        self.view()
    }
}

/// One file of a directory listing, as the host read it: the file name's stem,
/// its extension (empty when the name has none), and the full path.
pub struct DirFile {
    pub stem: String,
    pub ext: String,
    pub path: String,
}

/// Mathematical image of a [`DirFile`].
pub ghost struct DirFileView {
    pub stem: Seq<char>,
    pub ext: Seq<char>,
    pub path: Seq<char>,
}

impl View for DirFile {
    type V = DirFileView;

    open spec fn view(&self) -> DirFileView {
        DirFileView { stem: self.stem@, ext: self.ext@, path: self.path@ }
    }
}

impl DeepView for DirFile {
    type V = DirFileView;

    open spec fn deep_view(&self) -> DirFileView {
        self.view()
    }
}

/// A listing of one immediate subdirectory: its name and its files.
pub struct SubdirListing {
    pub name: String,
    pub files: Vec<DirFile>,
}

/// Mathematical image of a [`SubdirListing`].
pub ghost struct SubdirView {
    pub name: Seq<char>,
    pub files: Seq<DirFileView>,
}

impl View for SubdirListing {
    type V = SubdirView;

    open spec fn view(&self) -> SubdirView {
        SubdirView { name: self.name@, files: self.files.deep_view() }
    }
}

impl DeepView for SubdirListing {
    type V = SubdirView;

    open spec fn deep_view(&self) -> SubdirView {
        self.view()
    }
}

/// Snapshot of one directory: its immediate subdirectories with their
/// listings, and its own immediate files.
pub struct FolderSnapshot {
    pub subdirs: Vec<SubdirListing>,
    pub files: Vec<DirFile>,
}

/// Mathematical image of a [`FolderSnapshot`].
pub ghost struct FolderView {
    pub subdirs: Seq<SubdirView>,
    pub files: Seq<DirFileView>,
}

impl View for FolderSnapshot {
    type V = FolderView;

    open spec fn view(&self) -> FolderView {
        FolderView { subdirs: self.subdirs.deep_view(), files: self.files.deep_view() }
    }
}

impl DeepView for FolderSnapshot {
    type V = FolderView;

    open spec fn deep_view(&self) -> FolderView {
        self.view()
    }
}

/// The result of probing the OS command-resolution mechanism for one
/// well-known executable name: the candidate probed, and the raw output of
/// the resolution command when it succeeded.
pub struct PathProbe {
    pub candidate: String,
    pub output: Option<String>,
}

/// Mathematical image of a [`PathProbe`].
pub ghost struct PathProbeView {
    pub candidate: Seq<char>,
    pub output: Option<Seq<char>>,
}

impl View for PathProbe {
    type V = PathProbeView;

    open spec fn view(&self) -> PathProbeView {
        PathProbeView {
            candidate: self.candidate@,
            output: match self.output {
                Some(ref s) => Some(s@),
                None => None,
            },
        }
    }
}

impl DeepView for PathProbe {
    type V = PathProbeView;

    open spec fn deep_view(&self) -> PathProbeView {
        self.view()
    }
}

/// Snapshot of one uninstall-metadata entry, as the host read it: the raw
/// display-name value; the cleaned display-icon executable, kept only when
/// the host saw it on disk; the raw install-location value with whether that
/// path exists; and the listing of the install location when it is a
/// directory (empty otherwise).
pub struct RegUninstallEntry {
    pub display_name: Option<String>,
    pub icon_exe: Option<String>,
    pub install_location: Option<String>,
    pub install_location_exists: bool,
    pub install_dir_files: Vec<DirFile>,
}

/// Mathematical image of a [`RegUninstallEntry`].
pub ghost struct RegUninstallEntryView {
    pub display_name: Option<Seq<char>>,
    pub icon_exe: Option<Seq<char>>,
    pub install_location: Option<Seq<char>>,
    pub install_location_exists: bool,
    pub install_dir_files: Seq<DirFileView>,
}

impl View for RegUninstallEntry {
    type V = RegUninstallEntryView;

    open spec fn view(&self) -> RegUninstallEntryView {
        RegUninstallEntryView {
            display_name: match self.display_name {
                Some(ref s) => Some(s@),
                None => None,
            },
            icon_exe: match self.icon_exe {
                Some(ref s) => Some(s@),
                None => None,
            },
            install_location: match self.install_location {
                Some(ref s) => Some(s@),
                None => None,
            },
            install_location_exists: self.install_location_exists,
            install_dir_files: self.install_dir_files.deep_view(),
        }
    }
}

impl DeepView for RegUninstallEntry {
    type V = RegUninstallEntryView;

    open spec fn deep_view(&self) -> RegUninstallEntryView {
        self.view()
    }
}

/// One node met while walking the start-menu trees: a directory with its
/// snapshot, or a shortcut file with the path to the link.
pub enum MenuEntry {
    Folder { name: String, folder: FolderSnapshot },
    Shortcut { name: String, link_path: String },
}

/// Mathematical image of a [`MenuEntry`].
pub ghost enum MenuEntryView {
    Folder { name: Seq<char>, folder: FolderView },
    Shortcut { name: Seq<char>, link_path: Seq<char> },
}

impl View for MenuEntry {
    type V = MenuEntryView;

    open spec fn view(&self) -> MenuEntryView {
        match self {
            MenuEntry::Folder { name, folder } => MenuEntryView::Folder {
                name: name@,
                folder: folder@,
            },
            MenuEntry::Shortcut { name, link_path } => MenuEntryView::Shortcut {
                name: name@,
                link_path: link_path@,
            },
        }
    }
}

impl DeepView for MenuEntry {
    type V = MenuEntryView;

    open spec fn deep_view(&self) -> MenuEntryView {
        self.view()
    }
}

/// One immediate subdirectory of the per-user application-data root, with its
/// snapshot.
pub struct LocalDataDir {
    pub name: String,
    pub folder: FolderSnapshot,
}

/// Mathematical image of a [`LocalDataDir`].
pub ghost struct LocalDataDirView {
    pub name: Seq<char>,
    pub folder: FolderView,
}

impl View for LocalDataDir {
    type V = LocalDataDirView;

    open spec fn view(&self) -> LocalDataDirView {
        LocalDataDirView { name: self.name@, folder: self.folder@ }
    }
}

impl DeepView for LocalDataDir {
    type V = LocalDataDirView;

    open spec fn deep_view(&self) -> LocalDataDirView {
        self.view()
    }
}

/// The dispatcher's response: the outcome of one requested action, with an
/// optional fallback action that the caller must confirm before it runs.
pub struct ActionResponse {
    pub success: bool,
    pub message: String,
    pub requires_confirmation: bool,
    pub fallback_action: Option<String>,
    pub fallback_value: Option<String>,
    pub data: Option<Vec<String>>,
}

/// Mathematical image of an [`ActionResponse`].
pub ghost struct ActionResponseView {
    pub success: bool,
    pub message: Seq<char>,
    pub requires_confirmation: bool,
    pub fallback_action: Option<Seq<char>>,
    pub fallback_value: Option<Seq<char>>,
    pub data: Option<Seq<Seq<char>>>,
}

impl View for ActionResponse {
    type V = ActionResponseView;

    open spec fn view(&self) -> ActionResponseView {
        ActionResponseView {
            success: self.success,
            message: self.message@,
            requires_confirmation: self.requires_confirmation,
            fallback_action: match self.fallback_action {
                Some(ref s) => Some(s@),
                None => None,
            },
            fallback_value: match self.fallback_value {
                Some(ref s) => Some(s@),
                None => None,
            },
            data: match self.data {
                Some(ref v) => Some(v.deep_view()),
                None => None,
            },
        }
    }
}

} // verus!
