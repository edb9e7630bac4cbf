//! The Executable Locator: given a directory listing and an optional name
//! hint, picks the most plausible primary executable, filtering out
//! installer/updater/helper utilities and ranking candidates by
//! name-similarity to the hint.

use vstd::prelude::*;
use vstd::string::StrSliceExecFns;

use crate::model::DirFile;
use crate::model::DirFileView;
use crate::model::FolderSnapshot;
use crate::model::FolderView;
use crate::model::SubdirView;
use crate::text::contains_seq;
use crate::text::contains_str;
use crate::text::lower_seq;
use crate::text::starts_with_str;
use crate::text::str_eq;
use crate::text::to_lowercase_str;

verus! {

/// Whether a lower-cased file stem carries one of the utility keywords that
/// mark installers, updaters and helper executables.
pub open spec fn has_utility_keyword(stem_lower: Seq<char>) -> bool {
    ||| contains_seq(stem_lower, "uninstall"@)
    ||| contains_seq(stem_lower, "setup"@)
    ||| contains_seq(stem_lower, "install"@)
    ||| contains_seq(stem_lower, "update"@)
    ||| contains_seq(stem_lower, "helper"@)
    ||| contains_seq(stem_lower, "tool"@)
    ||| contains_seq(stem_lower, "crash"@)
    ||| contains_seq(stem_lower, "report"@)
    ||| contains_seq(stem_lower, "telemetry"@)
    ||| contains_seq(stem_lower, "vcredist"@)
    ||| contains_seq(stem_lower, "webview"@)
}

/// Checks a lower-cased file stem against the utility-keyword denylist.
pub fn stem_has_utility_keyword(stem_lower: &str) -> (r: bool)
    ensures
        r == has_utility_keyword(stem_lower@),
{
    ||| contains_str(stem_lower, "uninstall")
    ||| contains_str(stem_lower, "setup")
    ||| contains_str(stem_lower, "install")
    ||| contains_str(stem_lower, "update")
    ||| contains_str(stem_lower, "helper")
    ||| contains_str(stem_lower, "tool")
    ||| contains_str(stem_lower, "crash")
    ||| contains_str(stem_lower, "report")
    ||| contains_str(stem_lower, "telemetry")
    ||| contains_str(stem_lower, "vcredist")
    ||| contains_str(stem_lower, "webview")
}

/// Whether a listed file has the executable extension, case-insensitively.
pub open spec fn file_is_exe(f: DirFileView) -> bool {
    lower_seq(f.ext) == "exe"@
}

/// Whether a listed file is a locator candidate: an executable whose stem
/// carries no utility keyword.
pub open spec fn locator_eligible(f: DirFileView) -> bool {
    file_is_exe(f) && !has_utility_keyword(lower_seq(f.stem))
}

/// Checks whether a listed file has the executable extension.
pub fn is_exe_file(f: &DirFile) -> (r: bool)
    ensures
        r == file_is_exe(f@),
{
    let low = to_lowercase_str(f.ext.as_str());
    proof {
        reveal_strlit("exe");
        assert(lower_seq("exe"@) =~= "exe"@);
    }
    str_eq(low.as_str(), "exe")
}

/// The rank of an eligible candidate against the name hint: an exact
/// case-insensitive match of the stem ranks highest, a stem that the hint
/// contains ranks in the middle, anything else lowest.
pub open spec fn locator_priority(f: DirFileView, hint: Seq<char>) -> int {
    if lower_seq(f.stem) == lower_seq(hint) {
        1000
    } else if contains_seq(lower_seq(hint), lower_seq(f.stem)) {
        500
    } else {
        100
    }
}

/// Computes the rank of one candidate against the name hint.
fn candidate_priority(f: &DirFile, hint: &str) -> (r: u64)
    ensures
        r as int == locator_priority(f@, hint@),
{
    let stem_lower = to_lowercase_str(f.stem.as_str());
    let hint_lower = to_lowercase_str(hint);
    if str_eq(stem_lower.as_str(), hint_lower.as_str()) {
        1000
    } else if contains_str(hint_lower.as_str(), stem_lower.as_str()) {
        500
    } else {
        100
    }
}

/// The index of the winning candidate of a listing: the first entry, in
/// listing order, of highest rank among the eligible executables.
pub open spec fn locator_pick(fs: Seq<DirFileView>, hint: Seq<char>) -> Option<int>
    decreases fs.len(),
{
    if fs.len() == 0 {
        None
    } else {
        let rest = locator_pick(fs.drop_last(), hint);
        if locator_eligible(fs.last()) {
            match rest {
                None => Some(fs.len() - 1),
                Some(b) => if locator_priority(fs.last(), hint) > locator_priority(fs[b], hint) {
                    Some(fs.len() - 1)
                } else {
                    rest
                },
            }
        } else {
            rest
        }
    }
}

/// The path the Executable Locator picks from a listing, if any.
pub open spec fn find_exe_spec(fs: Seq<DirFileView>, hint: Seq<char>) -> Option<Seq<char>> {
    match locator_pick(fs, hint) {
        Some(i) => Some(fs[i].path),
        None => None,
    }
}

/// What the locator's pick means: it is an eligible executable of maximal
/// rank, the first such entry in listing order; and nothing is picked exactly
/// when no eligible executable is listed.  In particular the locator never
/// picks a file whose stem carries a utility keyword.
pub proof fn lemma_locator_pick_sound(fs: Seq<DirFileView>, hint: Seq<char>)
    ensures
        match locator_pick(fs, hint) {
            Some(i) => 0 <= i < fs.len() && locator_eligible(fs[i]) && (forall|j: int|
                0 <= j < fs.len() && #[trigger] locator_eligible(fs[j]) ==> locator_priority(
                    fs[j],
                    hint,
                ) <= locator_priority(fs[i], hint)) && (forall|j: int|
                0 <= j < i && #[trigger] locator_eligible(fs[j]) ==> locator_priority(fs[j], hint)
                    < locator_priority(fs[i], hint)),
            None => forall|j: int| 0 <= j < fs.len() ==> !#[trigger] locator_eligible(fs[j]),
        },
    decreases fs.len(),
{
    if fs.len() > 0 {
        lemma_locator_pick_sound(fs.drop_last(), hint);
        assert(forall|j: int| 0 <= j < fs.len() - 1 ==> #[trigger] fs.drop_last()[j] == fs[j]);
        let rest = locator_pick(fs.drop_last(), hint);
        match locator_pick(fs, hint) {
            Some(i) => {
                assert forall|j: int|
                    0 <= j < fs.len() && #[trigger] locator_eligible(fs[j]) implies locator_priority(
                    fs[j],
                    hint,
                ) <= locator_priority(fs[i], hint) by {
                    if j < fs.len() - 1 {
                        assert(locator_eligible(fs.drop_last()[j]));
                    }
                }
                assert forall|j: int|
                    0 <= j < i && #[trigger] locator_eligible(fs[j]) implies locator_priority(
                    fs[j],
                    hint,
                ) < locator_priority(fs[i], hint) by {
                    assert(locator_eligible(fs.drop_last()[j]));
                }
            },
            None => {
                assert(rest is None);
                assert(!locator_eligible(fs.last()));
                assert forall|j: int| 0 <= j < fs.len() implies !#[trigger] locator_eligible(
                    fs[j],
                ) by {
                    if j < fs.len() - 1 {
                        assert(!locator_eligible(fs.drop_last()[j]));
                    } else {
                        assert(fs[j] == fs.last());
                    }
                }
            },
        }
    }
}

/// Picks the most plausible primary executable from a directory listing: the
/// first candidate of highest rank, in listing order.  Returns nothing when
/// the listing holds no eligible executable.
pub fn find_exe_in_directory(files: &Vec<DirFile>, app_name_hint: &str) -> (r: Option<String>)
    ensures
        ({
            let expected = find_exe_spec(files.deep_view(), app_name_hint@);
            match r {
                Some(p) => expected == Some(p@),
                None => expected is None,
            }
        }),
{
    let ghost fs = files.deep_view();
    let n = files.len();
    let mut best: Option<usize> = None;
    let mut best_priority: u64 = 0;
    let mut i: usize = 0;
    while i < n
        invariant
            0 <= i <= n,
            n == fs.len(),
            fs == files.deep_view(),
            match best {
                Some(b) => 0 <= b < i && locator_pick(fs.take(i as int), app_name_hint@) == Some(
                    b as int,
                ) && best_priority as int == locator_priority(fs[b as int], app_name_hint@),
                None => locator_pick(fs.take(i as int), app_name_hint@) is None,
            },
        decreases n - i,
    {
        let f = &files[i];
        proof {
            assert(fs[i as int] == f@);
            assert(fs.take(i + 1).drop_last() =~= fs.take(i as int));
            assert(fs.take(i + 1).last() == fs[i as int]);
        }
        let stem_lower = to_lowercase_str(f.stem.as_str());
        if is_exe_file(f) && !stem_has_utility_keyword(stem_lower.as_str()) {
            let prio = candidate_priority(f, app_name_hint);
            match best {
                Some(_) => {
                    if prio > best_priority {
                        best = Some(i);
                        best_priority = prio;
                    }
                },
                None => {
                    best = Some(i);
                    best_priority = prio;
                },
            }
        }
        proof {
            assert(forall|k: int| 0 <= k < i + 1 ==> #[trigger] fs.take(i + 1)[k] == fs[k]);
        }
        i = i + 1;
    }
    proof {
        assert(fs.take(n as int) =~= fs);
    }
    match best {
        Some(b) => Some(files[b].path.clone()),
        None => None,
    }
}

/// The first eligible executable of a listing, in listing order.
pub open spec fn first_eligible_exe(fs: Seq<DirFileView>) -> Option<Seq<char>>
    decreases fs.len(),
{
    if fs.len() == 0 {
        None
    } else if locator_eligible(fs[0]) {
        Some(fs[0].path)
    } else {
        first_eligible_exe(fs.drop_first())
    }
}

/// Returns the first executable of the listing whose stem carries no utility
/// keyword.
pub fn find_first_exe_in_dir(files: &Vec<DirFile>) -> (r: Option<String>)
    ensures
        ({
            let expected = first_eligible_exe(files.deep_view());
            match r {
                Some(p) => expected == Some(p@),
                None => expected is None,
            }
        }),
{
    let ghost fs = files.deep_view();
    let n = files.len();
    proof {
        assert(fs.skip(0) =~= fs);
    }
    let mut i: usize = 0;
    while i < n
        invariant
            0 <= i <= n,
            n == fs.len(),
            fs == files.deep_view(),
            first_eligible_exe(fs) == first_eligible_exe(fs.skip(i as int)),
            forall|j: int| 0 <= j < i ==> !#[trigger] locator_eligible(fs[j]),
        decreases n - i,
    {
        let f = &files[i];
        proof {
            assert(fs[i as int] == f@);
            assert(fs.skip(i as int)[0] == fs[i as int]);
        }
        let stem_lower = to_lowercase_str(f.stem.as_str());
        if is_exe_file(f) && !stem_has_utility_keyword(stem_lower.as_str()) {
            return Some(f.path.clone());
        }
        proof {
            assert(fs.skip(i as int).drop_first() =~= fs.skip(i + 1));
        }
        i = i + 1;
    }
    proof {
        assert(fs.skip(n as int) =~= Seq::<DirFileView>::empty());
    }
    None
}

/// The executable found through the first subdirectory whose name starts with
/// `app-` (the layout of self-updating installers) and that holds an eligible
/// executable.
pub open spec fn app_subdir_exe(subdirs: Seq<SubdirView>) -> Option<Seq<char>>
    decreases subdirs.len(),
{
    if subdirs.len() == 0 {
        None
    } else if "app-"@.is_prefix_of(lower_seq(subdirs[0].name)) && first_eligible_exe(
        subdirs[0].files,
    ) is Some {
        first_eligible_exe(subdirs[0].files)
    } else {
        app_subdir_exe(subdirs.drop_first())
    }
}

/// The primary executable of a folder: one found under an `app-` subdirectory
/// first, else the first eligible executable of the folder itself.
pub open spec fn primary_exe_spec(folder: FolderView) -> Option<Seq<char>> {
    match app_subdir_exe(folder.subdirs) {
        Some(p) => Some(p),
        None => first_eligible_exe(folder.files),
    }
}

/// Picks the primary executable of a folder snapshot: `app-` subdirectories
/// are tried first, then the folder's own files.
pub fn find_primary_exe_in_folder(folder: &FolderSnapshot) -> (r: Option<String>)
    ensures
        ({
            let expected = primary_exe_spec(folder@);
            match r {
                Some(p) => expected == Some(p@),
                None => expected is None,
            }
        }),
{
    let ghost sds = folder.subdirs.deep_view();
    let n = folder.subdirs.len();
    proof {
        assert(sds.skip(0) =~= sds);
    }
    let mut i: usize = 0;
    while i < n
        invariant
            0 <= i <= n,
            n == sds.len(),
            sds == folder.subdirs.deep_view(),
            app_subdir_exe(sds) == app_subdir_exe(sds.skip(i as int)),
        decreases n - i,
    {
        let sd = &folder.subdirs[i];
        proof {
            assert(sds[i as int] == sd@);
            assert(sds.skip(i as int)[0] == sds[i as int]);
        }
        let name_lower = to_lowercase_str(sd.name.as_str());
        if starts_with_str(name_lower.as_str(), "app-") {
            if let Some(exe) = find_first_exe_in_dir(&sd.files) {
                return Some(exe);
            }
        }
        proof {
            assert(sds.skip(i as int).drop_first() =~= sds.skip(i + 1));
        }
        i = i + 1;
    }
    proof {
        assert(sds.skip(n as int) =~= Seq::<SubdirView>::empty());
    }
    find_first_exe_in_dir(&folder.files)
}

} // verus!
