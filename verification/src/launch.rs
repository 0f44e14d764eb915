//! Launching a Cursor version without the core service: which downloaded
//! AppImage to run, and the data directory and arguments that keep each
//! version's data apart.

use vstd::prelude::*;
use vstd::string::*;
use crate::studio::{contains_text, has_sub};
use crate::text::{chars_of, same_text};

verus! {

/// A file of the downloads directory.
#[derive(Debug)]
pub struct DownloadedFile {
    pub file_name: String,
    /// Whether its extension is `AppImage`
    pub is_appimage: bool,
    /// When it was last modified (nanoseconds from the epoch), when known
    pub modified: Option<i128>,
}

/// Order of modification times: an unknown time comes before any known one.
pub open spec fn time_le(a: Option<i128>, b: Option<i128>) -> bool {
    match (a, b) {
        (None, _) => true,
        (Some(_), None) => false,
        (Some(x), Some(y)) => x <= y,
    }
}

/// `i` is the newest AppImage of `f`: the last of those modified latest.
pub open spec fn is_newest(f: Seq<DownloadedFile>, i: int) -> bool {
    &&& 0 <= i < f.len() && f[i].is_appimage
    &&& forall|j: int| 0 <= j < f.len() && f[j].is_appimage ==> time_le(f[j].modified, f[i].modified)
    &&& forall|j: int| i < j < f.len() && f[j].is_appimage ==> !time_le(f[i].modified, f[j].modified)
}

/// The name pattern of a version's AppImage.
pub open spec fn version_pattern(version: Seq<char>) -> Seq<char> {
    "cursor-"@ + version
}

/// `i` is the first AppImage whose name contains the version's pattern.
pub open spec fn is_first_match(f: Seq<DownloadedFile>, version: Seq<char>, i: int) -> bool {
    &&& 0 <= i < f.len() && f[i].is_appimage && has_sub(f[i].file_name@, version_pattern(version))
    &&& forall|j: int| 0 <= j < i ==> !(f[j].is_appimage && has_sub(f[j].file_name@, version_pattern(version)))
}

fn time_le_exec(a: Option<i128>, b: Option<i128>) -> (r: bool)
    ensures
        r == time_le(a, b),
{
    match (a, b) {
        (None, _) => true,
        (Some(_), None) => false,
        (Some(x), Some(y)) => x <= y,
    }
}

/// The AppImage to run for `version`: for "latest" the newest one,
/// otherwise the first whose name contains `cursor-<version>`.
pub fn pick_appimage(version: &str, files: &[DownloadedFile]) -> (r: Option<usize>)
    ensures
        version@ == "latest"@ ==> (match r {
            Some(i) => is_newest(files@, i as int),
            None => forall|j: int| 0 <= j < files@.len() ==> !files@[j].is_appimage,
        }),
        version@ != "latest"@ ==> (match r {
            Some(i) => is_first_match(files@, version@, i as int),
            None => forall|j: int| 0 <= j < files@.len()
                ==> !(files@[j].is_appimage && has_sub(files@[j].file_name@, version_pattern(version@))),
        }),
{
    if same_text(version, "latest") {
        let mut best: Option<usize> = None;
        let mut i: usize = 0;
        while i < files.len()
            invariant
                i <= files@.len(),
                version@ == "latest"@,
                best is None ==> forall|j: int| 0 <= j < i ==> !files@[j].is_appimage,
                best matches Some(b) ==> b < i && files@[b as int].is_appimage
                    && (forall|j: int| 0 <= j < i && files@[j].is_appimage ==> time_le(files@[j].modified, files@[b as int].modified))
                    && (forall|j: int| b < j < i && files@[j].is_appimage ==> !time_le(files@[b as int].modified, files@[j].modified)),
            decreases files@.len() - i,
        {
            if files[i].is_appimage {
                match best {
                    None => {
                        best = Some(i);
                    },
                    Some(b) => {
                        if time_le_exec(files[b].modified, files[i].modified) {
                            best = Some(i);
                        }
                    },
                }
            }
            i = i + 1;
        }
        best
    } else {
        let mut pattern = String::from_str("cursor-");
        pattern.append(version);
        let p = chars_of(pattern.as_str());
        let mut i: usize = 0;
        while i < files.len()
            invariant
                i <= files@.len(),
                p@ == version_pattern(version@),
                version@ != "latest"@,
                forall|j: int| 0 <= j < i ==> !(files@[j].is_appimage && has_sub(files@[j].file_name@, version_pattern(version@))),
            decreases files@.len() - i,
        {
            if files[i].is_appimage {
                let name = chars_of(files[i].file_name.as_str());
                if contains_text(name.as_slice(), p.as_slice()) {
                    return Some(i);
                }
            }
            i = i + 1;
        }
        None
    }
}

/// `i` is the first file whose name contains `version`.
pub open spec fn is_first_containing(f: Seq<DownloadedFile>, version: Seq<char>, i: int) -> bool {
    &&& 0 <= i < f.len() && has_sub(f[i].file_name@, version)
    &&& forall|j: int| 0 <= j < i ==> !has_sub(f[j].file_name@, version)
}

/// The file to open a workspace with: for "latest" the newest AppImage,
/// otherwise the first file whose name contains the version.
pub fn pick_workspace_launcher(version: &str, files: &[DownloadedFile]) -> (r: Option<usize>)
    ensures
        version@ == "latest"@ ==> (match r {
            Some(i) => is_newest(files@, i as int),
            None => forall|j: int| 0 <= j < files@.len() ==> !files@[j].is_appimage,
        }),
        version@ != "latest"@ ==> (match r {
            Some(i) => is_first_containing(files@, version@, i as int),
            None => forall|j: int| 0 <= j < files@.len() ==> !has_sub(files@[j].file_name@, version@),
        }),
{
    if same_text(version, "latest") {
        return pick_appimage(version, files);
    }
    let p = chars_of(version);
    let mut i: usize = 0;
    while i < files.len()
        invariant
            i <= files@.len(),
            p@ == version@,
            version@ != "latest"@,
            forall|j: int| 0 <= j < i ==> !has_sub(files@[j].file_name@, version@),
        decreases files@.len() - i,
    {
        let name = chars_of(files[i].file_name.as_str());
        if contains_text(name.as_slice(), p.as_slice()) {
            return Some(i);
        }
        i = i + 1;
    }
    None
}

/// A service that the dashboard can start.
#[derive(Clone, Copy, Debug, PartialEq, Eq, Structural)]
pub enum StartableService {
    Core,
    Dialog,
}

/// Which service a start request names: the core service when the name
/// contains "Core", else the dialog daemon when it contains "Dialog".
pub fn service_to_start(name: &str) -> (r: Option<StartableService>)
    ensures
        has_sub(name@, "Core"@) ==> r == Some(StartableService::Core),
        !has_sub(name@, "Core"@) && has_sub(name@, "Dialog"@) ==> r == Some(StartableService::Dialog),
        !has_sub(name@, "Core"@) && !has_sub(name@, "Dialog"@) ==> r is None,
{
    let n = chars_of(name);
    let core = chars_of("Core");
    let dialog = chars_of("Dialog");
    if contains_text(n.as_slice(), core.as_slice()) {
        Some(StartableService::Core)
    } else if contains_text(n.as_slice(), dialog.as_slice()) {
        Some(StartableService::Dialog)
    } else {
        None
    }
}

/// The data directory name of a version, in the home directory.
pub fn data_dir_name(version: &str) -> (s: String)
    ensures
        s@ == ".cursor-"@ + version@,
{
    let mut s = String::from_str(".cursor-");
    s.append(version);
    s
}

/// The arguments that point Cursor at its data and extensions directories.
pub fn launch_args(data_dir: &str, extensions_dir: &str) -> (r: (String, String))
    ensures
        r.0@ == "--user-data-dir="@ + data_dir@,
        r.1@ == "--extensions-dir="@ + extensions_dir@,
{
    let mut a = String::from_str("--user-data-dir=");
    a.append(data_dir);
    let mut b = String::from_str("--extensions-dir=");
    b.append(extensions_dir);
    (a, b)
}

} // verus!
