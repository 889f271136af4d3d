//! Transactional package installation.
//!
//! The unit of atomicity is one package directory. An install/update runs:
//! download → extract into a staging directory *on the same filesystem* →
//! validate the staged manifest → rename the previous directory to a backup
//! → rename the staged directory into place → drop the backup. Any failure
//! after the first rename restores the backup, so the previous state
//! survives every failure mode; a crash mid-swap is healed by the recovery
//! sweep on the next run.
//!
//! The transaction itself is a machine: [`apply`] begins it,
//! [`Installing::task`] names the next thing to do to the disk, and
//! [`Installing::next`] takes what came of it. [`transaction`] states what
//! holds of every run of it.

pub mod download;
pub mod extract;
pub mod transaction;

use vstd::prelude::*;
use crate::foundry::local::{self, ManifestFile};
use crate::foundry::{Installation, PackageType};
use crate::paths;
use crate::text;

verus! {

/// Errors that can occur while installing a package.
#[derive(Clone, Debug)]
pub enum Error {
    /// The archive download failed.
    Download {
        /// The package being downloaded.
        name: String,
        /// The underlying download error.
        source: download::Error,
    },
    /// The archive could not be extracted.
    Extract {
        /// The package being extracted.
        name: String,
        /// The underlying extraction error.
        source: extract::Error,
    },
    /// The staged archive is not the package that was requested.
    WrongPackage {
        /// The package that was requested.
        expected: String,
        /// The package id found in the staged manifest.
        found: String,
    },
    /// The archive layout or manifest is unusable.
    InvalidArchive {
        /// The package whose archive is unusable.
        name: String,
        /// Why the archive was rejected.
        reason: String,
    },
    /// Plain I/O failure during staging or the swap.
    Io {
        /// The file or directory the operation failed on.
        path: String,
        /// Why it failed.
        reason: String,
    },
    /// A blocking task could not be joined (runtime shutdown).
    Internal(String),
}

/// An installation error, as text.
pub enum ErrorView {
    /// The archive download failed.
    Download { name: Seq<char>, source: download::Error },
    /// The archive could not be extracted.
    Extract { name: Seq<char>, source: extract::Error },
    /// The staged archive is not the package that was requested.
    WrongPackage { expected: Seq<char>, found: Seq<char> },
    /// The archive layout or manifest is unusable.
    InvalidArchive { name: Seq<char>, reason: Seq<char> },
    /// Plain I/O failure during staging or the swap.
    Io { path: Seq<char>, reason: Seq<char> },
    /// A blocking task could not be joined.
    Internal(Seq<char>),
}

impl View for Error {
    type V = ErrorView;

    open spec fn view(&self) -> ErrorView {
        match *self {
            Error::Download { name, source } => ErrorView::Download { name: name@, source },
            Error::Extract { name, source } => ErrorView::Extract { name: name@, source },
            Error::WrongPackage { expected, found } => ErrorView::WrongPackage {
                expected: expected@,
                found: found@,
            },
            Error::InvalidArchive { name, reason } => ErrorView::InvalidArchive {
                name: name@,
                reason: reason@,
            },
            Error::Io { path, reason } => ErrorView::Io { path: path@, reason: reason@ },
            Error::Internal(reason) => ErrorView::Internal(reason@),
        }
    }
}

impl ErrorView {
    /// The text of this error.
    pub open spec fn text(self) -> Seq<char> {
        match self {
            ErrorView::Download { name, source } => "downloading `"@ + name + "` failed"@,
            ErrorView::Extract { name, source } => "extracting `"@ + name + "` failed"@,
            ErrorView::WrongPackage { expected, found } => "the archive contains `"@ + found
                + "`, not the requested `"@ + expected + "`"@,
            ErrorView::InvalidArchive { name, reason } => "the archive for `"@ + name
                + "` is unusable: "@ + reason,
            ErrorView::Io { path, reason } => "I/O failed at "@ + path,
            ErrorView::Internal(reason) => "internal failure: "@ + reason,
        }
    }

    /// The texts of what caused this error, outermost first.
    pub open spec fn causes(self) -> Seq<Seq<char>> {
        match self {
            ErrorView::Download { name, source } => seq![source.text()] + source.causes(),
            ErrorView::Extract { name, source } => seq![source.text()] + source.causes(),
            ErrorView::Io { path, reason } => seq![reason],
            _ => Seq::empty(),
        }
    }
}

impl Error {
    /// The text of this error.
    #[must_use]
    pub fn message(&self) -> (message: String)
        ensures
            message@ == self@.text(),
    {
        match self {
            Error::Download { name, .. } => {
                let mut message = "downloading `".to_owned();
                message.append(name.as_str());
                message.append("` failed");
                message
            },
            Error::Extract { name, .. } => {
                let mut message = "extracting `".to_owned();
                message.append(name.as_str());
                message.append("` failed");
                message
            },
            Error::WrongPackage { expected, found } => {
                let mut message = "the archive contains `".to_owned();
                message.append(found.as_str());
                message.append("`, not the requested `");
                message.append(expected.as_str());
                message.append("`");
                message
            },
            Error::InvalidArchive { name, reason } => {
                let mut message = "the archive for `".to_owned();
                message.append(name.as_str());
                message.append("` is unusable: ");
                message.append(reason.as_str());
                message
            },
            Error::Io { path, .. } => {
                let mut message = "I/O failed at ".to_owned();
                message.append(path.as_str());
                message
            },
            Error::Internal(reason) => {
                let mut message = "internal failure: ".to_owned();
                message.append(reason.as_str());
                message
            },
        }
    }

    /// The texts of this error and of what caused it, outermost first.
    #[must_use]
    pub fn chain(&self) -> (chain: Vec<String>)
        ensures
            text::views(chain@) == seq![self@.text()] + self@.causes(),
    {
        let mut chain = vec![self.message()];
        assert(text::views(chain@) =~= seq![self@.text()]);
        match self {
            Error::Download { source, .. } => {
                let more = source.chain();
                text::append_all(&mut chain, &more);
            },
            Error::Extract { source, .. } => {
                let more = source.chain();
                text::append_all(&mut chain, &more);
            },
            Error::Io { reason, .. } => {
                chain.push(reason.clone());
                assert(text::views(chain@) =~= seq![self@.text()] + seq![reason@]);
            },
            _ => {},
        }
        assert(text::views(chain@) =~= seq![self@.text()] + self@.causes());
        chain
    }
}

/// Everything needed to install one resolved package.
#[derive(Clone, Debug)]
pub struct Job {
    /// The package type being installed.
    pub kind: PackageType,
    /// The package slug; also its installation directory name.
    pub name: String,
    /// The version being installed (for filenames and reporting).
    pub version: String,
    /// The release zip URL: from the package manifest for free packages, a
    /// time-limited signed URL for protected ones.
    pub download_url: String,
    /// Whether the package is protected (signed URLs expire and must be
    /// re-requested when a download fails with an authorization error).
    pub protected: bool,
}

/// A job, as text.
pub struct JobView {
    /// The package type being installed.
    pub kind: PackageType,
    /// The package slug.
    pub name: Seq<char>,
    /// The version being installed.
    pub version: Seq<char>,
    /// The release zip URL.
    pub download_url: Seq<char>,
    /// Whether the package is protected.
    pub protected: bool,
}

impl View for Job {
    type V = JobView;

    open spec fn view(&self) -> JobView {
        JobView {
            kind: self.kind,
            name: self.name@,
            version: self.version@,
            download_url: self.download_url@,
            protected: self.protected,
        }
    }
}

/// The views of a list of jobs.
pub open spec fn job_views(jobs: Seq<Job>) -> Seq<JobView> {
    jobs.map_values(|job: Job| job@)
}

// ---------------------------------------------------------------------------
// Archives
// ---------------------------------------------------------------------------

/// Whether a character may stand in a file name as it is.
pub open spec fn is_harmless(c: char) -> bool {
    ||| 'a' <= c <= 'z'
    ||| 'A' <= c <= 'Z'
    ||| '0' <= c <= '9'
    ||| c == '.'
    ||| c == '-'
    ||| c == '_'
}

/// The text with path-hostile characters replaced.
pub open spec fn sanitized(part: Seq<char>) -> Seq<char> {
    part.map_values(
        |c: char|
            if is_harmless(c) {
                c
            } else {
                '-'
            },
    )
}

/// Replaces path-hostile characters in a filename component.
pub fn sanitize(part: &str) -> (clean: String)
    ensures
        clean@ == sanitized(part@),
{
    let chars = text::chars_of(part);
    let mut clean: Vec<char> = Vec::new();
    let mut i: usize = 0;
    while i < chars.len()
        invariant
            chars@ == part@,
            0 <= i <= chars@.len(),
            clean@ == sanitized(part@).take(i as int),
        decreases chars@.len() - i,
    {
        let c = chars[i];
        let harmless = ('a' <= c && c <= 'z') || ('A' <= c && c <= 'Z') || ('0' <= c && c <= '9')
            || c == '.' || c == '-' || c == '_';
        clean.push(
            if harmless {
                c
            } else {
                '-'
            },
        );
        assert(clean@ =~= sanitized(part@).take(i + 1));
        i = i + 1;
    }
    assert(sanitized(part@).take(i as int) =~= sanitized(part@));
    text::string_of(clean.as_slice())
}

impl JobView {
    /// The cache filename for this job's archive.
    pub open spec fn archive_name(self) -> Seq<char> {
        self.kind.api_text() + "-"@ + sanitized(self.name) + "-"@ + sanitized(self.version)
            + ".zip"@
    }
}

impl Job {
    /// The cache filename for this job's archive.
    #[must_use]
    pub fn archive_filename(&self) -> (name: String)
        ensures
            name@ == self@.archive_name(),
    {
        let mut name = self.kind.api_name().to_owned();
        name.append("-");
        let part = sanitize(self.name.as_str());
        name.append(part.as_str());
        name.append("-");
        let part = sanitize(self.version.as_str());
        name.append(part.as_str());
        name.append(".zip");
        name
    }
}

/// The archive of a job is a plain file inside the downloads directory,
/// whatever the package and its version are called.
pub proof fn archives_stay_in_the_downloads_directory(job: JobView, downloads_dir: Seq<char>)
    ensures
        paths::is_component(job.archive_name()),
        download::names_a_file(paths::under(downloads_dir, job.archive_name())),
{
    let name = job.archive_name();
    reveal_strlit("-");
    reveal_strlit(".zip");
    reveal_strlit("module");
    reveal_strlit("system");
    reveal_strlit(".");
    reveal_strlit("..");
    reveal_strlit("/");
    assert(forall|i: int| 0 <= i < name.len() ==> is_harmless(#[trigger] name[i]));
    assert(name.len() > 2);
    let path = paths::under(downloads_dir, name);
    let start = path.len() - name.len();
    assert(path.skip(start) =~= name);
}

/// Where the archive of a job is downloaded to.
pub fn archive_path(downloads_dir: &str, job: &Job) -> (dest: String)
    ensures
        dest@ == paths::under(downloads_dir@, job@.archive_name()),
        download::names_a_file(dest@),
{
    proof {
        archives_stay_in_the_downloads_directory(job@, downloads_dir@);
    }
    let name = job.archive_filename();
    paths::join(downloads_dir, name.as_str())
}

/// Accepts the outcome of downloading the job's archive to [`archive_path`].
///
/// # Errors
///
/// Returns an [`Error`] when the download ultimately failed.
pub fn download_archive(downloads_dir: &str, job: &Job, outcome: Result<(), download::Error>) -> (
archive: Result<String, Error>)
    ensures
        match outcome {
            Ok(()) => archive matches Ok(path) && path@ == paths::under(
                downloads_dir@,
                job@.archive_name(),
            ),
            Err(source) => archive matches Err(error) && error@ == (ErrorView::Download {
                name: job@.name,
                source,
            }),
        },
{
    match outcome {
        Ok(()) => Ok(archive_path(downloads_dir, job)),
        Err(source) => Err(Error::Download { name: job.name.clone(), source }),
    }
}

// ---------------------------------------------------------------------------
// Staged packages
// ---------------------------------------------------------------------------

/// An entry of a staging directory.
#[derive(Clone, Debug)]
pub struct StagedEntry {
    /// Where it is.
    pub path: String,
    /// Whether it is a directory that holds a manifest file.
    pub holds_manifest: bool,
}

/// What a staging directory looks like after the extraction.
#[derive(Debug)]
pub struct Layout {
    /// Whether the manifest file lies in the staging directory itself.
    pub at_root: bool,
    /// The entries of the staging directory, or why they cannot be listed.
    pub entries: Result<Vec<StagedEntry>, String>,
}

/// The directory that holds the package manifest: either the staging root
/// itself or a single wrapping top-level folder.
pub open spec fn package_root(
    staging: Seq<char>,
    kind: PackageType,
    name: Seq<char>,
    layout: Layout,
) -> Result<Seq<char>, ErrorView> {
    if layout.at_root {
        Ok(staging)
    } else {
        match layout.entries {
            Err(reason) => Err(ErrorView::Io { path: staging, reason: reason@ }),
            Ok(entries) => if entries@.len() == 1 && entries@[0].holds_manifest {
                Ok(entries@[0].path@)
            } else {
                Err(
                    ErrorView::InvalidArchive {
                        name,
                        reason: "no "@ + kind.manifest_text() + " at the archive root"@,
                    },
                )
            },
        }
    }
}

/// Finds the directory inside `staging` that holds the package manifest:
/// either the staging root itself or a single wrapping top-level folder
/// (a layout many archives use).
///
/// # Errors
///
/// Returns an [`Error`] when no manifest can be located.
pub fn locate_package_root(staging: &str, kind: PackageType, name: &str, layout: &Layout) -> (
root: Result<String, Error>)
    ensures
        match package_root(staging@, kind, name@, *layout) {
            Ok(path) => root matches Ok(found) && found@ == path,
            Err(problem) => root matches Err(error) && error@ == problem,
        },
{
    if layout.at_root {
        return Ok(staging.to_owned());
    }
    match &layout.entries {
        Err(reason) => Err(Error::Io { path: staging.to_owned(), reason: reason.clone() }),
        Ok(entries) => {
            if entries.len() == 1 && entries[0].holds_manifest {
                return Ok(entries[0].path.clone());
            }
            let mut reason = "no ".to_owned();
            reason.append(kind.manifest_filename());
            reason.append(" at the archive root");
            Err(Error::InvalidArchive { name: name.to_owned(), reason })
        },
    }
}

/// What is wrong with a staged package, if anything.
pub open spec fn staged_problem(kind: PackageType, name: Seq<char>, manifest: ManifestFile) -> Option<
    ErrorView,
> {
    match local::installed_from(kind, manifest) {
        Err(reason) => Some(ErrorView::InvalidArchive { name, reason }),
        Ok(staged) => if staged.id@ == name {
            None
        } else {
            Some(ErrorView::WrongPackage { expected: name, found: staged.id@ })
        },
    }
}

/// Checks that the staged directory really contains the requested package.
///
/// # Errors
///
/// Returns an [`Error`] when the staged manifest is unreadable or belongs to
/// a different package.
pub fn validate_staged(kind: PackageType, name: &str, manifest: ManifestFile) -> (result: Result<
    (),
    Error,
>)
    ensures
        match staged_problem(kind, name@, manifest) {
            None => result is Ok,
            Some(problem) => result matches Err(error) && error@ == problem,
        },
{
    match local::read_installed(kind, manifest) {
        Err(reason) => Err(Error::InvalidArchive { name: name.to_owned(), reason }),
        Ok(staged) => if text::same(staged.id.as_str(), name) {
            Ok(())
        } else {
            Err(Error::WrongPackage { expected: name.to_owned(), found: staged.id })
        },
    }
}

// ---------------------------------------------------------------------------
// The transaction
// ---------------------------------------------------------------------------

/// The places a transaction works on.
#[derive(Clone, Copy, Debug, Eq, PartialEq, Structural)]
pub enum Slot {
    /// The staging directory of the package.
    Staging,
    /// The directory inside it that holds the staged package.
    Root,
    /// The directory of the installed packages.
    Parent,
    /// The directory of the installed package.
    Target,
    /// The directory of the backups.
    BackupParent,
    /// The backup of the installed package.
    Backup,
    /// The directory of the removed packages.
    TrashParent,
    /// The removed package.
    Trash,
    /// The downloaded archive.
    Archive,
}

/// One thing to do to the disk.
#[derive(Clone, Copy, Debug, Eq, PartialEq, Structural)]
pub enum Task {
    /// Find out whether something is there.
    Exists(Slot),
    /// Remove a directory tree.
    RemoveTree(Slot),
    /// Create a directory, with all its parents.
    CreateDirs(Slot),
    /// Extract the archive into the staging directory.
    Unpack,
    /// Look at the layout of the staging directory.
    Look,
    /// Read the manifest in the root of the staged package.
    ReadManifest,
    /// Rename a directory.
    Rename(Slot, Slot),
    /// Remove a file.
    RemoveFile(Slot),
}

/// What came of a task.
#[derive(Debug)]
pub enum Event {
    /// It was done.
    Done,
    /// It failed, with the reason.
    Failed(String),
    /// Whether something is there.
    Found(bool),
    /// The archive could not be extracted.
    NotUnpacked(extract::Error),
    /// The extraction never came to an end.
    Aborted(String),
    /// The layout of the staging directory.
    Layout(Layout),
    /// The manifest of the staged package.
    Manifest(ManifestFile),
}

/// Whether an event can come of a task.
pub open spec fn fits(task: Task, event: Event) -> bool {
    match task {
        Task::Exists(_) => event is Found,
        Task::Unpack => event is Done || event is NotUnpacked || event is Aborted,
        Task::Look => event is Layout,
        Task::ReadManifest => event is Manifest,
        _ => event is Done || event is Failed,
    }
}

/// How far an installation has got: what it does next.
#[derive(Clone, Debug)]
pub enum Stage {
    /// Look for an old staging directory.
    CheckStaging,
    /// Remove it.
    ClearStaging,
    /// Create the staging directory.
    MakeStaging,
    /// Extract the archive.
    Unpack,
    /// Locate the package in the staging directory.
    Look,
    /// Validate the staged package.
    Validate,
    /// Create the packages directory.
    MakeParent,
    /// Create the backup directory.
    MakeBackupParent,
    /// Look for a previous version.
    CheckTarget,
    /// Move the previous version to the backup.
    MoveAway,
    /// Move the staged package into place.
    MoveIn {
        /// Whether there was a previous version.
        had_previous: bool,
    },
    /// Move the previous version back, because the swap failed.
    Restore {
        /// Why the swap failed.
        reason: String,
    },
    /// Drop the backup of the previous version.
    DropBackup,
    /// Remove the staging directory.
    DropStaging,
    /// Remove the archive.
    DropArchive,
}

/// An installation under way.
#[derive(Debug)]
pub struct Installing {
    /// The package type.
    kind: PackageType,
    /// The package name.
    name: String,
    /// The downloaded archive.
    archive: String,
    /// The staging directory of the package.
    staging: String,
    /// The directory inside it that holds the staged package.
    root: String,
    /// The directory of the installed packages.
    parent: String,
    /// The directory of the installed package.
    target: String,
    /// The directory of the backups.
    backup_parent: String,
    /// The backup of the installed package.
    backup: String,
    /// What is done next.
    stage: Stage,
}

/// An installation under way, as text.
#[verifier::ext_equal]
pub struct InstallingView {
    /// The package type.
    pub kind: PackageType,
    /// The package name.
    pub name: Seq<char>,
    /// The downloaded archive.
    pub archive: Seq<char>,
    /// The staging directory of the package.
    pub staging: Seq<char>,
    /// The directory inside it that holds the staged package.
    pub root: Seq<char>,
    /// The directory of the installed packages.
    pub parent: Seq<char>,
    /// The directory of the installed package.
    pub target: Seq<char>,
    /// The directory of the backups.
    pub backup_parent: Seq<char>,
    /// The backup of the installed package.
    pub backup: Seq<char>,
    /// What is done next.
    pub stage: Stage,
}

impl View for Installing {
    type V = InstallingView;

    closed spec fn view(&self) -> InstallingView {
        InstallingView {
            kind: self.kind,
            name: self.name@,
            archive: self.archive@,
            staging: self.staging@,
            root: self.root@,
            parent: self.parent@,
            target: self.target@,
            backup_parent: self.backup_parent@,
            backup: self.backup@,
            stage: self.stage,
        }
    }
}

/// The directory used for staging and backups, kept inside `Data` so renames
/// stay on one filesystem.
pub open spec fn work_text(installation: Installation) -> Seq<char> {
    paths::under(installation.data_text(), ".ufpm"@)
}

/// The directory for one purpose and one package type.
pub open spec fn area_text(installation: Installation, area: Seq<char>, kind: PackageType) -> Seq<
    char,
> {
    paths::under(paths::under(work_text(installation), area), kind.directory_text())
}

/// The directory `ufpm` uses for staging and backups, kept inside `Data`
/// so renames stay on one filesystem.
pub fn ufpm_dir(installation: &Installation) -> (dir: String)
    ensures
        dir@ == work_text(*installation),
{
    let data = installation.data_dir();
    paths::join(data.as_str(), ".ufpm")
}

/// The directory for one purpose and one package type.
fn area_dir(installation: &Installation, area: &str, kind: PackageType) -> (dir: String)
    ensures
        dir@ == area_text(*installation, area@, kind),
{
    let base = ufpm_dir(installation);
    let area = paths::join(base.as_str(), area);
    paths::join(area.as_str(), kind.directory())
}

/// The beginning of an installation.
pub open spec fn begun(installation: Installation, job: JobView, archive: Seq<char>) -> InstallingView {
    let staging = paths::under(area_text(installation, "staging"@, job.kind), job.name);
    let parent = installation.packages_text(job.kind);
    let backup_parent = area_text(installation, "backup"@, job.kind);
    InstallingView {
        kind: job.kind,
        name: job.name,
        archive,
        staging,
        root: staging,
        parent,
        target: paths::under(parent, job.name),
        backup_parent,
        backup: paths::under(backup_parent, job.name),
        stage: Stage::CheckStaging,
    }
}

/// Begins to extract, validate and atomically swap a downloaded archive into
/// place. On success the staging area and the archive are cleaned up; on
/// failure the previously installed state is left untouched.
pub fn apply(installation: &Installation, job: &Job, archive: String) -> (installing: Installing)
    ensures
        installing@ == begun(*installation, job@, archive@),
{
    let staging_parent = area_dir(installation, "staging", job.kind);
    let staging = paths::join(staging_parent.as_str(), job.name.as_str());
    let parent = installation.packages_dir(job.kind);
    let target = paths::join(parent.as_str(), job.name.as_str());
    let backup_parent = area_dir(installation, "backup", job.kind);
    let backup = paths::join(backup_parent.as_str(), job.name.as_str());
    Installing {
        kind: job.kind,
        name: job.name.clone(),
        archive,
        root: staging.clone(),
        staging,
        parent,
        target,
        backup_parent,
        backup,
        stage: Stage::CheckStaging,
    }
}

/// The task of a stage.
pub open spec fn task_of(stage: Stage) -> Task {
    match stage {
        Stage::CheckStaging => Task::Exists(Slot::Staging),
        Stage::ClearStaging => Task::RemoveTree(Slot::Staging),
        Stage::MakeStaging => Task::CreateDirs(Slot::Staging),
        Stage::Unpack => Task::Unpack,
        Stage::Look => Task::Look,
        Stage::Validate => Task::ReadManifest,
        Stage::MakeParent => Task::CreateDirs(Slot::Parent),
        Stage::MakeBackupParent => Task::CreateDirs(Slot::BackupParent),
        Stage::CheckTarget => Task::Exists(Slot::Target),
        Stage::MoveAway => Task::Rename(Slot::Target, Slot::Backup),
        Stage::MoveIn { .. } => Task::Rename(Slot::Root, Slot::Target),
        Stage::Restore { .. } => Task::Rename(Slot::Backup, Slot::Target),
        Stage::DropBackup => Task::RemoveTree(Slot::Backup),
        Stage::DropStaging => Task::RemoveTree(Slot::Staging),
        Stage::DropArchive => Task::RemoveFile(Slot::Archive),
    }
}

/// How an installation goes on.
#[derive(Debug)]
pub enum Step {
    /// With another task.
    Go(Installing),
    /// It is over.
    Finish(Result<(), Error>),
}

/// How an installation goes on, as text.
pub enum StepView {
    /// With another task.
    Go(InstallingView),
    /// It is over.
    Finish(Result<(), ErrorView>),
}

impl View for Step {
    type V = StepView;

    closed spec fn view(&self) -> StepView {
        match self {
            Step::Go(installing) => StepView::Go(installing@),
            Step::Finish(Ok(())) => StepView::Finish(Ok(())),
            Step::Finish(Err(error)) => StepView::Finish(Err(error@)),
        }
    }
}

impl InstallingView {
    /// This installation at another stage.
    pub open spec fn at(self, stage: Stage) -> StepView {
        StepView::Go(InstallingView { stage, ..self })
    }

    /// This installation at another stage after a task was done, or its
    /// failure at a path.
    pub open spec fn after(self, event: Event, stage: Stage, path: Seq<char>) -> StepView {
        match event {
            Event::Failed(reason) => StepView::Finish(Err(ErrorView::Io { path, reason: reason@ })),
            _ => self.at(stage),
        }
    }

    /// How this installation goes on after its task.
    pub open spec fn successor(self, event: Event) -> StepView {
        match self.stage {
            Stage::CheckStaging => match event {
                Event::Found(true) => self.at(Stage::ClearStaging),
                _ => self.at(Stage::MakeStaging),
            },
            Stage::ClearStaging => self.after(event, Stage::MakeStaging, self.staging),
            Stage::MakeStaging => self.after(event, Stage::Unpack, self.staging),
            Stage::Unpack => match event {
                Event::NotUnpacked(source) => StepView::Finish(
                    Err(ErrorView::Extract { name: self.name, source }),
                ),
                Event::Aborted(reason) => StepView::Finish(Err(ErrorView::Internal(reason@))),
                _ => self.at(Stage::Look),
            },
            Stage::Look => match package_root(self.staging, self.kind, self.name, event->Layout_0) {
                Ok(root) => StepView::Go(InstallingView { root, stage: Stage::Validate, ..self }),
                Err(problem) => StepView::Finish(Err(problem)),
            },
            Stage::Validate => match staged_problem(self.kind, self.name, event->Manifest_0) {
                None => self.at(Stage::MakeParent),
                Some(problem) => StepView::Finish(Err(problem)),
            },
            Stage::MakeParent => self.after(event, Stage::MakeBackupParent, self.parent),
            Stage::MakeBackupParent => self.after(event, Stage::CheckTarget, self.backup_parent),
            Stage::CheckTarget => match event {
                Event::Found(true) => self.at(Stage::MoveAway),
                _ => self.at(Stage::MoveIn { had_previous: false }),
            },
            Stage::MoveAway => self.after(
                event,
                Stage::MoveIn { had_previous: true },
                self.target,
            ),
            Stage::MoveIn { had_previous } => match event {
                Event::Failed(reason) => if had_previous {
                    self.at(Stage::Restore { reason })
                } else {
                    StepView::Finish(Err(ErrorView::Io { path: self.target, reason: reason@ }))
                },
                _ => if had_previous {
                    self.at(Stage::DropBackup)
                } else {
                    self.at(Stage::DropStaging)
                },
            },
            Stage::Restore { reason } => StepView::Finish(
                Err(ErrorView::Io { path: self.target, reason: reason@ }),
            ),
            Stage::DropBackup => self.at(Stage::DropStaging),
            Stage::DropStaging => self.at(Stage::DropArchive),
            Stage::DropArchive => StepView::Finish(Ok(())),
        }
    }

    /// Where a slot of this installation is.
    pub open spec fn place(self, slot: Slot) -> Option<Seq<char>> {
        match slot {
            Slot::Staging => Some(self.staging),
            Slot::Root => Some(self.root),
            Slot::Parent => Some(self.parent),
            Slot::Target => Some(self.target),
            Slot::BackupParent => Some(self.backup_parent),
            Slot::Backup => Some(self.backup),
            Slot::Archive => Some(self.archive),
            Slot::TrashParent => None,
            Slot::Trash => None,
        }
    }
}

impl Installing {
    /// What this installation does next.
    #[must_use]
    pub fn task(&self) -> (task: Task)
        ensures
            task == task_of(self@.stage),
    {
        match &self.stage {
            Stage::CheckStaging => Task::Exists(Slot::Staging),
            Stage::ClearStaging => Task::RemoveTree(Slot::Staging),
            Stage::MakeStaging => Task::CreateDirs(Slot::Staging),
            Stage::Unpack => Task::Unpack,
            Stage::Look => Task::Look,
            Stage::Validate => Task::ReadManifest,
            Stage::MakeParent => Task::CreateDirs(Slot::Parent),
            Stage::MakeBackupParent => Task::CreateDirs(Slot::BackupParent),
            Stage::CheckTarget => Task::Exists(Slot::Target),
            Stage::MoveAway => Task::Rename(Slot::Target, Slot::Backup),
            Stage::MoveIn { .. } => Task::Rename(Slot::Root, Slot::Target),
            Stage::Restore { .. } => Task::Rename(Slot::Backup, Slot::Target),
            Stage::DropBackup => Task::RemoveTree(Slot::Backup),
            Stage::DropStaging => Task::RemoveTree(Slot::Staging),
            Stage::DropArchive => Task::RemoveFile(Slot::Archive),
        }
    }

    /// Where a slot of this installation is; an installation does not use the
    /// trash.
    #[must_use]
    pub fn path(&self, slot: Slot) -> (path: Option<&str>)
        ensures
            match path {
                Some(path) => self@.place(slot) == Some(path@),
                None => self@.place(slot) is None,
            },
    {
        match slot {
            Slot::Staging => Some(self.staging.as_str()),
            Slot::Root => Some(self.root.as_str()),
            Slot::Parent => Some(self.parent.as_str()),
            Slot::Target => Some(self.target.as_str()),
            Slot::BackupParent => Some(self.backup_parent.as_str()),
            Slot::Backup => Some(self.backup.as_str()),
            Slot::Archive => Some(self.archive.as_str()),
            Slot::TrashParent => None,
            Slot::Trash => None,
        }
    }

    /// This installation at another stage.
    fn at(self, stage: Stage) -> (step: Step)
        ensures
            step@ == self@.at(stage),
    {
        Step::Go(Installing { stage, ..self })
    }

    /// This installation at another stage after a task was done, or its
    /// failure at a path.
    fn after(self, event: Event, stage: Stage, path: String) -> (step: Step)
        ensures
            step@ == self@.after(event, stage, path@),
    {
        match event {
            Event::Failed(reason) => Step::Finish(Err(Error::Io { path, reason })),
            _ => self.at(stage),
        }
    }

    /// Replaces `Data/<kind>/<name>` with the staged directory, restoring the
    /// previous directory if the swap fails partway.
    fn swap_in(self, event: Event) -> (step: Step)
        requires
            self@.stage is MakeParent || self@.stage is MakeBackupParent || self@.stage
                is CheckTarget || self@.stage is MoveAway || self@.stage is MoveIn || self@.stage
                is Restore || self@.stage is DropBackup,
        ensures
            step@ == self@.successor(event),
    {
        match &self.stage {
            Stage::MakeParent => {
                let path = self.parent.clone();
                self.after(event, Stage::MakeBackupParent, path)
            },
            Stage::MakeBackupParent => {
                let path = self.backup_parent.clone();
                self.after(event, Stage::CheckTarget, path)
            },
            Stage::CheckTarget => match event {
                Event::Found(true) => self.at(Stage::MoveAway),
                _ => self.at(Stage::MoveIn { had_previous: false }),
            },
            Stage::MoveAway => {
                let path = self.target.clone();
                self.after(event, Stage::MoveIn { had_previous: true }, path)
            },
            Stage::MoveIn { had_previous } => {
                let had_previous = *had_previous;
                match event {
                    Event::Failed(reason) => if had_previous {
                        self.at(Stage::Restore { reason })
                    } else {
                        Step::Finish(Err(Error::Io { path: self.target, reason }))
                    },
                    _ => if had_previous {
                        self.at(Stage::DropBackup)
                    } else {
                        self.at(Stage::DropStaging)
                    },
                }
            },
            Stage::Restore { reason } => {
                // Best-effort restore: the recovery sweep finishes the job next
                // run if this rename failed too.
                let reason = reason.clone();
                Step::Finish(Err(Error::Io { path: self.target, reason }))
            },
            // Non-fatal: a leftover backup is swept next run.
            _ => self.at(Stage::DropStaging),
        }
    }

    /// How this installation goes on after its task came to `event`.
    pub fn next(self, event: Event) -> (step: Step)
        requires
            fits(task_of(self@.stage), event),
        ensures
            step@ == self@.successor(event),
    {
        match &self.stage {
            Stage::CheckStaging => match event {
                Event::Found(true) => self.at(Stage::ClearStaging),
                _ => self.at(Stage::MakeStaging),
            },
            Stage::ClearStaging => {
                let path = self.staging.clone();
                self.after(event, Stage::MakeStaging, path)
            },
            Stage::MakeStaging => {
                let path = self.staging.clone();
                self.after(event, Stage::Unpack, path)
            },
            Stage::Unpack => match event {
                Event::NotUnpacked(source) => Step::Finish(
                    Err(Error::Extract { name: self.name, source }),
                ),
                Event::Aborted(reason) => Step::Finish(Err(Error::Internal(reason))),
                _ => self.at(Stage::Look),
            },
            Stage::Look => match event {
                Event::Layout(layout) => match locate_package_root(
                    self.staging.as_str(),
                    self.kind,
                    self.name.as_str(),
                    &layout,
                ) {
                    Ok(root) => Step::Go(Installing { root, stage: Stage::Validate, ..self }),
                    Err(error) => Step::Finish(Err(error)),
                },
                _ => Step::Go(self),
            },
            Stage::Validate => match event {
                Event::Manifest(manifest) => match validate_staged(
                    self.kind,
                    self.name.as_str(),
                    manifest,
                ) {
                    Ok(()) => self.at(Stage::MakeParent),
                    Err(error) => Step::Finish(Err(error)),
                },
                _ => Step::Go(self),
            },
            // Best-effort cleanup; leftovers are swept on the next run.
            Stage::DropStaging => self.at(Stage::DropArchive),
            Stage::DropArchive => Step::Finish(Ok(())),
            _ => self.swap_in(event),
        }
    }
}

// ---------------------------------------------------------------------------
// Removal
// ---------------------------------------------------------------------------

/// How far a removal has got: what it does next.
#[derive(Clone, Copy, Debug, Eq, PartialEq, Structural)]
pub enum RemovalStage {
    /// Create the trash directory.
    MakeTrashParent,
    /// Look for an older removal of the package.
    CheckTrash,
    /// Remove it.
    ClearTrash,
    /// Move the package into the trash.
    MoveAway,
    /// Remove the package from the trash.
    DropTrash,
}

/// A removal under way.
#[derive(Debug)]
pub struct Removing {
    /// The directory of the installed package.
    target: String,
    /// The directory of the removed packages.
    trash_parent: String,
    /// The removed package.
    trash: String,
    /// What is done next.
    stage: RemovalStage,
}

/// A removal under way, as text.
#[verifier::ext_equal]
pub struct RemovingView {
    /// The directory of the installed package.
    pub target: Seq<char>,
    /// The directory of the removed packages.
    pub trash_parent: Seq<char>,
    /// The removed package.
    pub trash: Seq<char>,
    /// What is done next.
    pub stage: RemovalStage,
}

impl View for Removing {
    type V = RemovingView;

    closed spec fn view(&self) -> RemovingView {
        RemovingView {
            target: self.target@,
            trash_parent: self.trash_parent@,
            trash: self.trash@,
            stage: self.stage,
        }
    }
}

/// The beginning of a removal.
pub open spec fn removal_begun(
    installation: Installation,
    kind: PackageType,
    name: Seq<char>,
) -> RemovingView {
    let trash_parent = area_text(installation, "trash"@, kind);
    RemovingView {
        target: paths::under(installation.packages_text(kind), name),
        trash_parent,
        trash: paths::under(trash_parent, name),
        stage: RemovalStage::MakeTrashParent,
    }
}

/// Begins to remove an installed package transactionally: the directory is
/// renamed into the trash area first (one atomic disappearance), then deleted
/// best-effort — a failed deletion is swept on the next run instead of leaving
/// a half-removed package in place.
pub fn remove(installation: &Installation, kind: PackageType, name: &str) -> (removing: Removing)
    ensures
        removing@ == removal_begun(*installation, kind, name@),
{
    let parent = installation.packages_dir(kind);
    let target = paths::join(parent.as_str(), name);
    let trash_parent = area_dir(installation, "trash", kind);
    let trash = paths::join(trash_parent.as_str(), name);
    Removing { target, trash_parent, trash, stage: RemovalStage::MakeTrashParent }
}

/// The task of a stage of a removal.
pub open spec fn removal_task(stage: RemovalStage) -> Task {
    match stage {
        RemovalStage::MakeTrashParent => Task::CreateDirs(Slot::TrashParent),
        RemovalStage::CheckTrash => Task::Exists(Slot::Trash),
        RemovalStage::ClearTrash => Task::RemoveTree(Slot::Trash),
        RemovalStage::MoveAway => Task::Rename(Slot::Target, Slot::Trash),
        RemovalStage::DropTrash => Task::RemoveTree(Slot::Trash),
    }
}

/// How a removal goes on.
#[derive(Debug)]
pub enum RemovalStep {
    /// With another task.
    Go(Removing),
    /// It is over.
    Finish(Result<(), Error>),
}

/// How a removal goes on, as text.
pub enum RemovalStepView {
    /// With another task.
    Go(RemovingView),
    /// It is over.
    Finish(Result<(), ErrorView>),
}

impl View for RemovalStep {
    type V = RemovalStepView;

    closed spec fn view(&self) -> RemovalStepView {
        match self {
            RemovalStep::Go(removing) => RemovalStepView::Go(removing@),
            RemovalStep::Finish(Ok(())) => RemovalStepView::Finish(Ok(())),
            RemovalStep::Finish(Err(error)) => RemovalStepView::Finish(Err(error@)),
        }
    }
}

impl RemovingView {
    /// This removal at another stage after a task was done, or its failure at
    /// a path.
    pub open spec fn after(self, event: Event, stage: RemovalStage, path: Seq<char>) -> RemovalStepView {
        match event {
            Event::Failed(reason) => RemovalStepView::Finish(
                Err(ErrorView::Io { path, reason: reason@ }),
            ),
            _ => RemovalStepView::Go(RemovingView { stage, ..self }),
        }
    }

    /// How this removal goes on after its task.
    pub open spec fn successor(self, event: Event) -> RemovalStepView {
        match self.stage {
            RemovalStage::MakeTrashParent => self.after(
                event,
                RemovalStage::CheckTrash,
                self.trash_parent,
            ),
            RemovalStage::CheckTrash => {
                let stage = match event {
                    Event::Found(true) => RemovalStage::ClearTrash,
                    _ => RemovalStage::MoveAway,
                };
                RemovalStepView::Go(RemovingView { stage, ..self })
            },
            RemovalStage::ClearTrash => self.after(event, RemovalStage::MoveAway, self.trash),
            RemovalStage::MoveAway => self.after(event, RemovalStage::DropTrash, self.target),
            RemovalStage::DropTrash => RemovalStepView::Finish(Ok(())),
        }
    }

    /// Where a slot of this removal is.
    pub open spec fn place(self, slot: Slot) -> Option<Seq<char>> {
        match slot {
            Slot::Target => Some(self.target),
            Slot::TrashParent => Some(self.trash_parent),
            Slot::Trash => Some(self.trash),
            _ => None,
        }
    }
}

impl Removing {
    /// What this removal does next.
    #[must_use]
    pub fn task(&self) -> (task: Task)
        ensures
            task == removal_task(self@.stage),
    {
        match self.stage {
            RemovalStage::MakeTrashParent => Task::CreateDirs(Slot::TrashParent),
            RemovalStage::CheckTrash => Task::Exists(Slot::Trash),
            RemovalStage::ClearTrash => Task::RemoveTree(Slot::Trash),
            RemovalStage::MoveAway => Task::Rename(Slot::Target, Slot::Trash),
            RemovalStage::DropTrash => Task::RemoveTree(Slot::Trash),
        }
    }

    /// Where a slot of this removal is; a removal only uses the package and
    /// the trash.
    #[must_use]
    pub fn path(&self, slot: Slot) -> (path: Option<&str>)
        ensures
            match path {
                Some(path) => self@.place(slot) == Some(path@),
                None => self@.place(slot) is None,
            },
    {
        match slot {
            Slot::Target => Some(self.target.as_str()),
            Slot::TrashParent => Some(self.trash_parent.as_str()),
            Slot::Trash => Some(self.trash.as_str()),
            _ => None,
        }
    }

    /// This removal at another stage after a task was done, or its failure at
    /// a path.
    fn after(self, event: Event, stage: RemovalStage, path: String) -> (step: RemovalStep)
        ensures
            step@ == self@.after(event, stage, path@),
    {
        match event {
            Event::Failed(reason) => RemovalStep::Finish(Err(Error::Io { path, reason })),
            _ => RemovalStep::Go(Removing { stage, ..self }),
        }
    }

    /// How this removal goes on after its task came to `event`.
    pub fn next(self, event: Event) -> (step: RemovalStep)
        requires
            fits(removal_task(self@.stage), event),
        ensures
            step@ == self@.successor(event),
    {
        match self.stage {
            RemovalStage::MakeTrashParent => {
                let path = self.trash_parent.clone();
                self.after(event, RemovalStage::CheckTrash, path)
            },
            RemovalStage::CheckTrash => match event {
                Event::Found(true) => RemovalStep::Go(
                    Removing { stage: RemovalStage::ClearTrash, ..self },
                ),
                _ => RemovalStep::Go(Removing { stage: RemovalStage::MoveAway, ..self }),
            },
            RemovalStage::ClearTrash => {
                let path = self.trash.clone();
                self.after(event, RemovalStage::MoveAway, path)
            },
            RemovalStage::MoveAway => {
                let path = self.target.clone();
                self.after(event, RemovalStage::DropTrash, path)
            },
            // Best-effort: leftovers in the trash are swept on the next run.
            RemovalStage::DropTrash => RemovalStep::Finish(Ok(())),
        }
    }
}

// ---------------------------------------------------------------------------
// Recovery
// ---------------------------------------------------------------------------

/// What to do about a backup left by an interrupted operation.
#[derive(Clone, Copy, Debug, Eq, PartialEq, Structural)]
pub enum Repair {
    /// The swap completed; the backup is a leftover to be dropped.
    Drop,
    /// The target vanished mid-swap: the backup is to be moved back.
    Restore,
}

/// What to do about a backup, by whether its target is there.
pub open spec fn repair_of(target_exists: bool) -> Repair {
    if target_exists {
        Repair::Drop
    } else {
        Repair::Restore
    }
}

/// Decides what to do about a backup, by whether its target is there.
#[must_use]
pub fn repair(target_exists: bool) -> (repair: Repair)
    ensures
        repair == repair_of(target_exists),
{
    if target_exists {
        Repair::Drop
    } else {
        Repair::Restore
    }
}

/// The directory of the backups of one package type.
#[must_use]
pub fn backup_dir(installation: &Installation, kind: PackageType) -> (dir: String)
    ensures
        dir@ == area_text(*installation, "backup"@, kind),
{
    area_dir(installation, "backup", kind)
}

/// The directories that only hold leftovers once nothing is under way.
#[must_use]
pub fn transient_dirs(installation: &Installation) -> (dirs: Vec<String>)
    ensures
        text::views(dirs@) == seq![
            paths::under(work_text(*installation), "staging"@),
            paths::under(work_text(*installation), "trash"@),
        ],
{
    let base = ufpm_dir(installation);
    let dirs = vec![paths::join(base.as_str(), "staging"), paths::join(base.as_str(), "trash")];
    assert(text::views(dirs@) =~= seq![
        paths::under(work_text(*installation), "staging"@),
        paths::under(work_text(*installation), "trash"@),
    ]);
    dirs
}

/// A backup that was dealt with.
#[derive(Debug)]
pub struct Repaired {
    /// The package.
    pub name: String,
    /// What was to be done.
    pub repair: Repair,
    /// What came of it.
    pub outcome: Result<(), String>,
}

/// What the recovery sweep found and did.
#[derive(Debug)]
pub struct Recovery {
    /// Packages restored from backups left by an interrupted operation.
    pub restored: Vec<String>,
    /// Packages whose backup could not be restored, with the reason.
    pub failed: Vec<(String, String)>,
}

/// The packages that were restored.
pub open spec fn restored_in(repaired: Seq<Repaired>) -> Seq<String>
    decreases repaired.len(),
{
    if repaired.len() == 0 {
        Seq::empty()
    } else {
        let init = restored_in(repaired.drop_last());
        match repaired.last() {
            Repaired { name, repair: Repair::Restore, outcome: Ok(()) } => init.push(name),
            _ => init,
        }
    }
}

/// The packages that could not be restored, with the reasons.
pub open spec fn failed_in(repaired: Seq<Repaired>) -> Seq<(String, String)>
    decreases repaired.len(),
{
    if repaired.len() == 0 {
        Seq::empty()
    } else {
        let init = failed_in(repaired.drop_last());
        match repaired.last() {
            Repaired { name, repair: Repair::Restore, outcome: Err(reason) } => init.push(
                (name, reason),
            ),
            _ => init,
        }
    }
}

/// Sums up a sweep over the leftovers of a previously interrupted run: backups
/// whose target vanished mid-swap were restored, backups of completed swaps
/// dropped. Everything is best-effort — failures are reported in the result,
/// never fatal.
#[must_use]
pub fn recover(repaired: Vec<Repaired>) -> (recovery: Recovery)
    ensures
        recovery.restored@ == restored_in(repaired@),
        recovery.failed@ == failed_in(repaired@),
{
    let ghost all = repaired@;
    let mut restored: Vec<String> = Vec::new();
    let mut failed: Vec<(String, String)> = Vec::new();
    let ghost mut seen: int = 0;
    assert(all.take(0) =~= Seq::empty());
    for backup in it: repaired
        invariant
            it.seq() == all,
            seen == it.index(),
            restored@ == restored_in(all.take(it.index() as int)),
            failed@ == failed_in(all.take(it.index() as int)),
    {
        proof {
            assert(all.take(seen + 1).drop_last() =~= all.take(seen));
            assert(all.take(seen + 1).last() == backup);
            seen = seen + 1;
        }
        let Repaired { name, repair, outcome } = backup;
        match repair {
            Repair::Drop => {},
            Repair::Restore => match outcome {
                Ok(()) => restored.push(name),
                Err(reason) => failed.push((name, reason)),
            },
        }
    }
    assert(all.take(seen) =~= all);
    Recovery { restored, failed }
}

// ---------------------------------------------------------------------------
// What holds of the steps
// ---------------------------------------------------------------------------

/// Whether a directory is the root of a staged package: the staging directory
/// when the manifest lies there; otherwise its only entry, when that holds the
/// manifest.
pub open spec fn is_root(staging: Seq<char>, layout: Layout, root: Seq<char>) -> bool {
    if layout.at_root {
        root == staging
    } else {
        layout.entries matches Ok(entries) && entries@.len() == 1 && entries@[0].holds_manifest
            && root == entries@[0].path@
    }
}

/// Modules and systems are located alike: the root of a staged package is the
/// staging directory when the manifest lies there; otherwise, when the staging
/// directory has exactly one entry and that one holds the manifest, it is that
/// entry; and in no other case is there a root.
pub proof fn packages_are_located_whatever_their_kind(
    staging: Seq<char>,
    kind: PackageType,
    name: Seq<char>,
    layout: Layout,
)
    ensures
        forall|root: Seq<char>|
            package_root(staging, kind, name, layout) == Ok::<Seq<char>, ErrorView>(root)
                <==> #[trigger] is_root(staging, layout, root),
        layout.at_root ==> package_root(staging, kind, name, layout) == Ok::<Seq<char>, ErrorView>(
            staging,
        ),
        !layout.at_root ==> (layout.entries matches Ok(entries) ==> (package_root(
            staging,
            kind,
            name,
            layout,
        ) is Ok <==> entries@.len() == 1 && entries@[0].holds_manifest)),
        !layout.at_root ==> (layout.entries matches Err(reason) ==> package_root(
            staging,
            kind,
            name,
            layout,
        ) == Err::<Seq<char>, ErrorView>(ErrorView::Io { path: staging, reason: reason@ })),
        package_root(staging, PackageType::Module, name, layout) is Ok <==> package_root(
            staging,
            PackageType::System,
            name,
            layout,
        ) is Ok,
{
}

/// An installation that has found the root of the staged package goes on to
/// validate it there, whatever its kind; one that has found none is over.
pub proof fn installations_validate_what_they_find(installing: InstallingView, layout: Layout)
    requires
        installing.stage is Look,
    ensures
        installing.successor(Event::Layout(layout)) matches StepView::Go(next) ==> is_root(
            installing.staging,
            layout,
            next.root,
        ) && next.stage is Validate && next == (InstallingView {
            root: next.root,
            stage: next.stage,
            ..installing
        }),
        (exists|root: Seq<char>| is_root(installing.staging, layout, root)) <==> installing.successor(
            Event::Layout(layout),
        ) is Go,
        installing.successor(Event::Layout(layout)) is Finish ==> installing.successor(
            Event::Layout(layout),
        )->Finish_0 is Err,
{
    if layout.at_root {
        assert(is_root(installing.staging, layout, installing.staging));
    } else if let Ok(entries) = layout.entries {
        if entries@.len() == 1 && entries@[0].holds_manifest {
            assert(is_root(installing.staging, layout, entries@[0].path@));
        }
    }
}

/// Whether a manifest is that of a package: it can be read, and its id, or its
/// legacy name where it declares no id, is the name of the package.
pub open spec fn is_manifest_of(manifest: ManifestFile, name: Seq<char>) -> bool {
    manifest matches ManifestFile::Parsed(manifest) && match manifest.id {
        Some(id) => id@ == name,
        None => manifest.name matches Some(legacy) && legacy@ == name,
    }
}

/// A staged package is accepted just when its manifest is that of the requested
/// package, whatever its kind; a manifest of another package is refused by name.
pub proof fn staged_packages_are_the_requested_ones(
    kind: PackageType,
    name: Seq<char>,
    manifest: ManifestFile,
    other: Seq<char>,
)
    ensures
        staged_problem(kind, name, manifest) is None <==> is_manifest_of(manifest, name),
        other != name && is_manifest_of(manifest, other) ==> staged_problem(kind, name, manifest)
            == Some(ErrorView::WrongPackage { expected: name, found: other }),
        manifest !is Parsed ==> (staged_problem(kind, name, manifest) matches Some(
            ErrorView::InvalidArchive { name: refused, .. },
        ) && refused == name),
{
}

/// Whether an event ends an installation as a failure.
pub open spec fn is_fatal(installing: InstallingView, event: Event) -> bool {
    match installing.stage {
        Stage::CheckStaging | Stage::CheckTarget => false,
        Stage::Unpack => event !is Done,
        Stage::Look => !exists|root: Seq<char>|
            is_root(installing.staging, event->Layout_0, root),
        Stage::Validate => !is_manifest_of(event->Manifest_0, installing.name),
        Stage::MoveIn { had_previous } => event is Failed && !had_previous,
        Stage::Restore { .. } => true,
        Stage::DropBackup | Stage::DropStaging | Stage::DropArchive => false,
        _ => event is Failed,
    }
}

/// An installation fails just when a task fails that it cannot do without, and
/// succeeds just when it has come to its end; it never changes what it works
/// on.
pub proof fn installations_fail_for_a_reason(installing: InstallingView, event: Event)
    requires
        fits(task_of(installing.stage), event),
    ensures
        (installing.successor(event) matches StepView::Finish(result) && result is Err) <==> is_fatal(
            installing,
            event,
        ),
        (installing.successor(event) matches StepView::Finish(result) && result is Ok)
            <==> installing.stage is DropArchive,
        installing.successor(event) matches StepView::Go(next) ==> next == (InstallingView {
            root: next.root,
            stage: next.stage,
            ..installing
        }) && (installing.stage !is Look ==> next.root == installing.root),
        installing.stage !is Restore ==> (event matches Event::Failed(reason) ==> (
        installing.successor(event) matches StepView::Finish(Err(problem)) ==> (problem matches ErrorView::Io {
            path,
            reason: told,
        } && told == reason@ && match task_of(installing.stage) {
            Task::Rename(_, _) => path == installing.target,
            Task::RemoveTree(slot) | Task::CreateDirs(slot) => Some(path) == installing.place(slot),
            _ => true,
        }))),
        event matches Event::NotUnpacked(source) ==> installing.successor(event)
            == StepView::Finish(Err(ErrorView::Extract { name: installing.name, source })),
{
    if installing.stage is Look {
        installations_validate_what_they_find(installing, event->Layout_0);
    }
}

/// How far a stage is from the beginning of an installation.
pub open spec fn distance(stage: Stage) -> nat {
    match stage {
        Stage::CheckStaging => 0,
        Stage::ClearStaging => 1,
        Stage::MakeStaging => 2,
        Stage::Unpack => 3,
        Stage::Look => 4,
        Stage::Validate => 5,
        Stage::MakeParent => 6,
        Stage::MakeBackupParent => 7,
        Stage::CheckTarget => 8,
        Stage::MoveAway => 9,
        Stage::MoveIn { .. } => 10,
        Stage::Restore { .. } => 11,
        Stage::DropBackup => 12,
        Stage::DropStaging => 13,
        Stage::DropArchive => 14,
    }
}

/// An installation goes forward stage by stage: the only stages that it ever
/// leaves out are the removal of an old staging directory when there is none,
/// the treatment of a previous version when there is none, and the restoring
/// when nothing has failed.
pub proof fn installations_go_forward(installing: InstallingView, event: Event)
    requires
        fits(task_of(installing.stage), event),
    ensures
        installing.successor(event) matches StepView::Go(next) ==> {
            &&& distance(next.stage) > distance(installing.stage)
            &&& distance(next.stage) > distance(installing.stage) + 1 ==> match installing.stage {
                Stage::CheckStaging => event == Event::Found(false) && next.stage is MakeStaging,
                Stage::CheckTarget => event == Event::Found(false) && next.stage == (
                Stage::MoveIn { had_previous: false }),
                Stage::MoveIn { had_previous: true } => event is Done && next.stage is DropBackup,
                Stage::MoveIn { had_previous: false } => event is Done && next.stage is DropStaging,
                _ => false,
            }
            &&& installing.stage is CheckStaging && event == Event::Found(true)
                ==> next.stage is ClearStaging
            &&& installing.stage is CheckTarget && event == Event::Found(true)
                ==> next.stage is MoveAway
            &&& installing.stage is MoveAway ==> next.stage == (Stage::MoveIn { had_previous: true })
            &&& next.stage matches Stage::Restore { reason } ==> event == Event::Failed(reason)
        },
{
}

/// Everything that an installation works on lies in places of its own, by type
/// and name: the package in the packages directory, the rest below `.ufpm`.
pub proof fn installations_work_in_their_own_places(
    installation: Installation,
    job: JobView,
    archive: Seq<char>,
)
    ensures
        ({
            let begun = begun(installation, job, archive);
            let work = paths::under(installation.data_text(), ".ufpm"@);
            &&& begun.kind == job.kind && begun.name == job.name && begun.archive == archive
            &&& begun.stage is CheckStaging
            &&& begun.target == paths::under(installation.packages_text(job.kind), job.name)
            &&& begun.parent == installation.packages_text(job.kind)
            &&& begun.staging == paths::under(
                paths::under(paths::under(work, "staging"@), job.kind.directory_text()),
                job.name,
            )
            &&& begun.backup == paths::under(
                paths::under(paths::under(work, "backup"@), job.kind.directory_text()),
                job.name,
            )
            &&& begun.backup == paths::under(begun.backup_parent, job.name)
        }),
{
}

/// A removal fails just when a task other than the final deletion fails, with
/// the path it failed on, and never changes what it works on.
pub proof fn removals_fail_for_a_reason(removing: RemovingView, event: Event)
    requires
        fits(removal_task(removing.stage), event),
    ensures
        removing.successor(event) matches RemovalStepView::Finish(result) ==> (result is Ok
            <==> removing.stage is DropTrash),
        removing.stage is DropTrash ==> removing.successor(event) is Finish,
        removing.stage !is DropTrash ==> (event matches Event::Failed(reason)
            ==> removing.successor(event) == RemovalStepView::Finish(
            Err(
                ErrorView::Io {
                    path: match removing.stage {
                        RemovalStage::MakeTrashParent => removing.trash_parent,
                        RemovalStage::ClearTrash => removing.trash,
                        _ => removing.target,
                    },
                    reason: reason@,
                },
            ),
        )),
        removing.stage !is DropTrash && event !is Failed ==> removing.successor(event) is Go,
        removing.successor(event) matches RemovalStepView::Go(next) ==> next == (RemovingView {
            stage: next.stage,
            ..removing
        }) && match removing.stage {
            RemovalStage::MakeTrashParent => next.stage is CheckTrash,
            RemovalStage::CheckTrash => if event == Event::Found(true) {
                next.stage is ClearTrash
            } else {
                next.stage is MoveAway
            },
            RemovalStage::ClearTrash => next.stage is MoveAway,
            _ => next.stage is DropTrash,
        },
{
}

/// The test for backups that were moved back.
pub open spec fn was_restored() -> spec_fn(Repaired) -> bool {
    |repaired: Repaired| repaired.repair == Repair::Restore && repaired.outcome is Ok
}

/// The test for backups that could not be moved back.
pub open spec fn was_lost() -> spec_fn(Repaired) -> bool {
    |repaired: Repaired| repaired.repair == Repair::Restore && repaired.outcome is Err
}

/// A sweep reports every backup that was to be moved back, in order: as
/// restored when that succeeded, as failed with the reason when it did not; and
/// it reports no other.
pub proof fn every_restored_backup_is_reported(repaired: Seq<Repaired>)
    ensures
        restored_in(repaired) == repaired.filter(was_restored()).map_values(
            |repaired: Repaired| repaired.name,
        ),
        failed_in(repaired) == repaired.filter(was_lost()).map_values(
            |repaired: Repaired| (repaired.name, repaired.outcome->Err_0),
        ),
    decreases repaired.len(),
{
    reveal(Seq::filter);
    if repaired.len() > 0 {
        every_restored_backup_is_reported(repaired.drop_last());
    }
    assert(restored_in(repaired) =~= repaired.filter(was_restored()).map_values(
        |repaired: Repaired| repaired.name,
    ));
    assert(failed_in(repaired) =~= repaired.filter(was_lost()).map_values(
        |repaired: Repaired| (repaired.name, repaired.outcome->Err_0),
    ));
}

/// A backup is moved back just when its target is gone, and dropped otherwise.
pub proof fn backups_are_restored_when_the_target_is_gone(target_exists: bool)
    ensures
        repair_of(target_exists) is Restore <==> !target_exists,
        repair_of(target_exists) is Drop <==> target_exists,
{
}

/// A cache filename keeps letters, digits, dots, hyphens and underscores as
/// they are, and replaces every other character by a hyphen.
pub proof fn hostile_characters_are_replaced(part: Seq<char>, at: int)
    requires
        0 <= at < part.len(),
    ensures
        sanitized(part).len() == part.len(),
        ('a' <= part[at] <= 'z') || ('A' <= part[at] <= 'Z') || ('0' <= part[at] <= '9') || part[at]
            == '.' || part[at] == '-' || part[at] == '_' ==> sanitized(part)[at] == part[at],
        !(('a' <= part[at] <= 'z') || ('A' <= part[at] <= 'Z') || ('0' <= part[at] <= '9')
            || part[at] == '.' || part[at] == '-' || part[at] == '_') ==> sanitized(part)[at]
            == '-',
{
}

/// Errors name the package or the path they are about, and are followed by what
/// caused them.
pub proof fn errors_name_their_subject(error: ErrorView)
    ensures
        error matches ErrorView::Download { name, source } ==> text::contains_text(
            error.text(),
            name,
        ) && error.causes() == seq![source.text()] + source.causes(),
        error matches ErrorView::Extract { name, source } ==> text::contains_text(
            error.text(),
            name,
        ) && error.causes() == seq![source.text()] + source.causes(),
        error matches ErrorView::WrongPackage { expected, found } ==> text::contains_text(
            error.text(),
            expected,
        ) && text::contains_text(error.text(), found) && error.causes().len() == 0,
        error matches ErrorView::InvalidArchive { name, reason } ==> text::contains_text(
            error.text(),
            name,
        ) && text::contains_text(error.text(), reason) && error.causes().len() == 0,
        error matches ErrorView::Io { path, reason } ==> text::contains_text(error.text(), path)
            && error.causes() == seq![reason],
        error matches ErrorView::Internal(reason) ==> text::contains_text(error.text(), reason)
            && error.causes().len() == 0,
{
    match error {
        ErrorView::Download { name, source } => {
            text::texts_contain_their_middle("downloading `"@, name, "` failed"@);
        },
        ErrorView::Extract { name, source } => {
            text::texts_contain_their_middle("extracting `"@, name, "` failed"@);
        },
        ErrorView::WrongPackage { expected, found } => {
            let start = "the archive contains `"@;
            let middle = "`, not the requested `"@;
            text::texts_contain_their_middle(start + found + middle, expected, "`"@);
            text::texts_contain_their_middle(start, found, middle + expected + "`"@);
            assert(error.text() =~= start + found + (middle + expected + "`"@));
        },
        ErrorView::InvalidArchive { name, reason } => {
            let start = "the archive for `"@;
            let middle = "` is unusable: "@;
            text::texts_contain_their_middle(start + name + middle, reason, Seq::empty());
            text::texts_contain_their_middle(start, name, middle + reason);
            assert(error.text() =~= start + name + (middle + reason));
        },
        ErrorView::Io { path, reason } => {
            text::texts_contain_their_middle("I/O failed at "@, path, Seq::empty());
        },
        ErrorView::Internal(reason) => {
            text::texts_contain_their_middle("internal failure: "@, reason, Seq::empty());
        },
    }
}

/// A removal begins with the trash directory, and moves the package from the
/// packages directory to a place of its own there, by type and name.
pub proof fn removals_work_in_their_own_places(
    installation: Installation,
    kind: PackageType,
    name: Seq<char>,
)
    ensures
        ({
            let removing = removal_begun(installation, kind, name);
            let work = paths::under(installation.data_text(), ".ufpm"@);
            &&& removing.stage is MakeTrashParent
            &&& removing.target == paths::under(installation.packages_text(kind), name)
            &&& removing.trash_parent == paths::under(
                paths::under(work, "trash"@),
                kind.directory_text(),
            )
            &&& removing.trash == paths::under(removing.trash_parent, name)
        }),
{
}

/// The archives of different types, and of packages or versions whose harmless
/// names differ, are kept apart; an archive is called after its type, package
/// and version.
pub proof fn archives_are_called_after_their_package(job: JobView)
    ensures
        job.archive_name() == job.kind.api_text() + "-"@ + sanitized(job.name) + "-"@ + sanitized(
            job.version,
        ) + ".zip"@,
        text::contains_text(job.archive_name(), sanitized(job.name)),
        text::contains_text(job.archive_name(), sanitized(job.version)),
{
    let front = job.kind.api_text() + "-"@;
    let name = sanitized(job.name);
    let version = sanitized(job.version);
    text::texts_contain_their_middle(front, name, "-"@ + version + ".zip"@);
    text::texts_contain_their_middle(front + name + "-"@, version, ".zip"@);
    assert(job.archive_name() =~= front + name + ("-"@ + version + ".zip"@));
}

} // verus!
