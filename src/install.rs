//! Where each extracted file of an update goes.
//!
//! Paths are handled as sequences of components: the folder the update was
//! extracted into, each file found under it, and the folder of the program.

use vstd::prelude::*;
use crate::updater::UpdateError;

verus! {

/// Suffix of the sibling name under which the old file is set aside while replaced.
pub open spec fn backup_suffix() -> Seq<char> {
    "_replacement_tmp"@
}

/// Name of the change log shipped beside the program.
pub open spec fn changelog_name() -> Seq<char> {
    "CHANGELOG.txt"@
}

/// What to do with one extracted file: move `source` to `destination`, after
/// creating `destination_folder`, setting any old file aside at `backup`.
#[derive(Debug)]
pub struct Replacement {
    pub source: Vec<String>,
    pub backup: Vec<String>,
    pub destination: Vec<String>,
    pub destination_folder: Vec<String>,
}

/// `file` lies strictly inside `root`.
pub open spec fn inside(root: Seq<Seq<char>>, file: Seq<Seq<char>>) -> bool {
    file.len() > root.len() && file.subrange(0, root.len() as int) == root
}

/// `p` is the replacement that installs `file`, extracted under `root`, into `base`.
pub open spec fn replaces(p: Replacement, root: Seq<Seq<char>>, file: Seq<Seq<char>>, base: Seq<Seq<char>>) -> bool {
    let n = file.len() as int;
    &&& p.source.deep_view() == file
    &&& p.backup.deep_view() == file.drop_last().push(file.last() + backup_suffix())
    &&& p.destination.deep_view() == base + file.subrange(root.len() as int, n)
    &&& p.destination_folder.deep_view() == base + file.subrange(root.len() as int, n - 1)
}

/// Appends copies of `src[from..to]` to `out`.
fn append_parts(out: &mut Vec<String>, src: &Vec<String>, from: usize, to: usize)
    requires
        from <= to <= src.len(),
    ensures
        final(out).deep_view() == old(out).deep_view() + src.deep_view().subrange(from as int, to as int),
{
    let ghost start = old(out).deep_view();
    let mut i: usize = from;
    while i < to
        invariant
            from <= i <= to <= src.len(),
            out.deep_view() =~= start + src.deep_view().subrange(from as int, i as int),
        decreases to - i,
    {
        let part = src[i].clone();
        let ghost before = out.deep_view();
        out.push(part);
        assert(out.deep_view() =~= before.push(src.deep_view()[i as int]));
        proof {
            assert(src.deep_view().subrange(from as int, i + 1) =~= src.deep_view().subrange(
                from as int,
                i as int,
            ).push(src.deep_view()[i as int]));
        }
        i = i + 1;
    }
}

/// Whether two paths have the same components.
fn same_path(a: &Vec<String>, b: &Vec<String>) -> (r: bool)
    ensures
        r == (a.deep_view() == b.deep_view()),
{
    if a.len() != b.len() {
        proof {
            assert(a.deep_view().len() != b.deep_view().len());
        }
        return false;
    }
    let mut i: usize = 0;
    while i < a.len()
        invariant
            a.len() == b.len(),
            i <= a.len(),
            forall|k: int| 0 <= k < i ==> a.deep_view()[k] == b.deep_view()[k],
        decreases a.len() - i,
    {
        if a[i] != b[i] {
            proof {
                assert(a.deep_view()[i as int] != b.deep_view()[i as int]);
            }
            return false;
        }
        i = i + 1;
    }
    assert(a.deep_view() =~= b.deep_view());
    true
}

/// Plans the installation of one extracted file: `None` for the downloaded
/// archive at `archive`, which is not installed; an error for a file outside `root`.
pub fn plan_replacement(root: &Vec<String>, file: &Vec<String>, base: &Vec<String>, archive: &Vec<String>) -> (r: Result<Option<Replacement>, UpdateError>)
    ensures
        !inside(root.deep_view(), file.deep_view()) <==> r matches Err(UpdateError::FileSystemError(_)),
        r is Err ==> r matches Err(UpdateError::FileSystemError(_)),
        inside(root.deep_view(), file.deep_view()) ==> match r {
            Ok(None) => file.deep_view() == archive.deep_view(),
            Ok(Some(p)) => file.deep_view() != archive.deep_view() && replaces(
                p,
                root.deep_view(),
                file.deep_view(),
                base.deep_view(),
            ),
            Err(_) => false,
        },
{
    let m = root.len();
    let n = file.len();
    if n <= m {
        return Err(UpdateError::FileSystemError(String::from_str("file outside the update folder")));
    }
    let mut i: usize = 0;
    while i < m
        invariant
            m == root.len() < n == file.len(),
            i <= m,
            forall|k: int| 0 <= k < i ==> file.deep_view()[k] == root.deep_view()[k],
        decreases m - i,
    {
        if root[i] != file[i] {
            proof {
                assert(file.deep_view().subrange(0, m as int)[i as int] != root.deep_view()[i as int]);
            }
            return Err(UpdateError::FileSystemError(String::from_str("file outside the update folder")));
        }
        i = i + 1;
    }
    proof {
        assert(file.deep_view().subrange(0, m as int) =~= root.deep_view());
    }
    if same_path(file, archive) {
        return Ok(None);
    }
    let mut source: Vec<String> = Vec::new();
    append_parts(&mut source, file, 0, n);
    let mut backup: Vec<String> = Vec::new();
    append_parts(&mut backup, file, 0, n - 1);
    let mut backup_name = file[n - 1].clone();
    backup_name.append("_replacement_tmp");
    backup.push(backup_name);
    let mut destination: Vec<String> = Vec::new();
    append_parts(&mut destination, base, 0, base.len());
    append_parts(&mut destination, file, m, n);
    let mut destination_folder: Vec<String> = Vec::new();
    append_parts(&mut destination_folder, base, 0, base.len());
    append_parts(&mut destination_folder, file, m, n - 1);
    proof {
        let f = file.deep_view();
        let b = base.deep_view();
        assert(source.deep_view() =~= f);
        assert(backup.deep_view() =~= f.drop_last().push(f.last() + backup_suffix()));
        assert(destination.deep_view() =~= b + f.subrange(m as int, n as int));
        assert(destination_folder.deep_view() =~= b + f.subrange(m as int, n - 1));
    }
    Ok(Some(Replacement { source, backup, destination, destination_folder }))
}

/// The change log's path beside the program in `base`.
pub fn changelog_path(base: &Vec<String>) -> (r: Vec<String>)
    ensures
        r.deep_view() == base.deep_view().push(changelog_name()),
{
    let mut r: Vec<String> = Vec::new();
    append_parts(&mut r, base, 0, base.len());
    let ghost before = r.deep_view();
    r.push(String::from_str("CHANGELOG.txt"));
    assert(r.deep_view() =~= before.push(changelog_name()));
    assert(r.deep_view() =~= base.deep_view().push(changelog_name()));
    r
}

/// The steps of installing a release, in the order they run.
#[derive(Clone, Copy, Debug, PartialEq, Eq, Structural)]
pub enum Stage {
    /// Find the asset for this platform in the selected release.
    LocateAsset,
    /// Create the work folder beside the program.
    PrepareFolder,
    /// Download the asset into the work folder.
    Download,
    /// Extract the archive into the work folder.
    Extract,
    /// List the extracted files.
    ListFiles,
    /// Move each extracted file over the installed one.
    Replace,
    /// Show the change log, if possible.
    OpenChangelog,
    /// The update is installed.
    Done,
    /// The update stopped on an error.
    Failed,
}

/// The step that follows a successful `s`.
pub open spec fn stage_after(s: Stage) -> Stage {
    match s {
        Stage::LocateAsset => Stage::PrepareFolder,
        Stage::PrepareFolder => Stage::Download,
        Stage::Download => Stage::Extract,
        Stage::Extract => Stage::ListFiles,
        Stage::ListFiles => Stage::Replace,
        Stage::Replace => Stage::OpenChangelog,
        Stage::OpenChangelog => Stage::Done,
        Stage::Done => Stage::Done,
        Stage::Failed => Stage::Failed,
    }
}

/// What is reported when the archive cannot be extracted.
pub open spec fn archive_failure_text() -> Seq<char> {
    "The update could not be extracted: either the published archive is broken or the download was incomplete. No installed file has been changed."@
}

/// The error a failure of step `s` is reported as, with the failure's own message `msg`.
pub open spec fn failure_of(s: Stage, msg: Seq<char>, e: UpdateError) -> bool {
    match s {
        Stage::LocateAsset => e is UnsupportedPlatform,
        Stage::Download => e matches UpdateError::NetworkError(m) && m@ == msg,
        Stage::Extract => e matches UpdateError::ArchiveError(m) && m@ == archive_failure_text(),
        _ => e matches UpdateError::FileSystemError(m) && m@ == msg,
    }
}

/// Decides what follows step `stage` given how it went: the next step on
/// success; on failure the error it is reported as, except that failing to
/// show the change log is no error. A finished or failed run stays as it is.
pub fn advance(stage: Stage, outcome: Result<(), String>) -> (r: (Stage, Option<UpdateError>))
    ensures
        stage == Stage::Done || stage == Stage::Failed ==> r.0 == stage && r.1 is None,
        outcome is Ok ==> r.0 == stage_after(stage) && r.1 is None,
        outcome is Err && stage == Stage::OpenChangelog ==> r.0 == Stage::Done && r.1 is None,
        outcome is Err && stage != Stage::OpenChangelog && stage != Stage::Done && stage != Stage::Failed
            ==> r.0 == Stage::Failed && r.1 is Some && failure_of(stage, outcome->Err_0@, r.1->Some_0),
{
    match outcome {
        Ok(()) => {
            let next = match stage {
                Stage::LocateAsset => Stage::PrepareFolder,
                Stage::PrepareFolder => Stage::Download,
                Stage::Download => Stage::Extract,
                Stage::Extract => Stage::ListFiles,
                Stage::ListFiles => Stage::Replace,
                Stage::Replace => Stage::OpenChangelog,
                Stage::OpenChangelog => Stage::Done,
                Stage::Done => Stage::Done,
                Stage::Failed => Stage::Failed,
            };
            (next, None)
        },
        Err(msg) => match stage {
            Stage::OpenChangelog => (Stage::Done, None),
            Stage::Done => (Stage::Done, None),
            Stage::Failed => (Stage::Failed, None),
            Stage::LocateAsset => (Stage::Failed, Some(UpdateError::UnsupportedPlatform)),
            Stage::Download => (Stage::Failed, Some(UpdateError::NetworkError(msg))),
            Stage::Extract => (
                Stage::Failed,
                Some(
                    UpdateError::ArchiveError(
                        String::from_str(
                            "The update could not be extracted: either the published archive is broken or the download was incomplete. No installed file has been changed.",
                        ),
                    ),
                ),
            ),
            _ => (Stage::Failed, Some(UpdateError::FileSystemError(msg))),
        },
    }
}

} // verus!
