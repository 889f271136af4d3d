//! Transaction tests: happy installs, failure rollback, removal and crash
//! recovery, all against a Foundry root held in memory.

use std::collections::BTreeMap;
use std::io::{Cursor, Write};
use ufpm::foundry::local::{Manifest, ManifestFile, VersionField};
use ufpm::foundry::{Installation, PackageType, RootSource};
use ufpm::install::extract::{extract, place, Archive, Place};
use ufpm::install::{
    apply, archive_path, backup_dir, download, download_archive, extract as extraction, recover,
    remove, repair, sanitize, transient_dirs, ufpm_dir, Error, Event, Installing, Job, Layout,
    RemovalStep, Repair, Repaired, Slot, StagedEntry, Step, Task,
};
use zip::write::SimpleFileOptions;
use zip::ZipWriter;

/// A file system held in memory: files with their contents, and directories.
#[derive(Clone, Debug, Default, PartialEq)]
struct Disk {
    entries: BTreeMap<String, Option<Vec<u8>>>,
    /// Tasks that fail.
    broken: Vec<Task>,
}

impl Disk {
    fn holds(&self, path: &str) -> bool {
        self.entries.contains_key(path)
    }

    fn is_file(&self, path: &str) -> bool {
        matches!(self.entries.get(path), Some(Some(_)))
    }

    fn read(&self, path: &str) -> Result<Vec<u8>, String> {
        match self.entries.get(path) {
            Some(Some(contents)) => Ok(contents.clone()),
            _ => Err(format!("no such file: {path}")),
        }
    }

    fn text(&self, path: &str) -> String {
        String::from_utf8(self.read(path).unwrap()).unwrap()
    }

    fn create_dirs(&mut self, path: &str) {
        let mut at = String::new();
        for part in path.split('/').skip(1) {
            at.push('/');
            at.push_str(part);
            self.entries.entry(at.clone()).or_insert(None);
        }
    }

    fn write(&mut self, path: &str, contents: &[u8]) {
        let (dir, _) = path.rsplit_once('/').unwrap();
        self.create_dirs(dir);
        self.entries.insert(path.to_owned(), Some(contents.to_vec()));
    }

    fn tree(&self, path: &str) -> Vec<String> {
        let inside = format!("{path}/");
        self.entries
            .keys()
            .filter(|key| *key == path || key.starts_with(&inside))
            .cloned()
            .collect()
    }

    fn remove_tree(&mut self, path: &str) -> Result<(), String> {
        if !self.holds(path) {
            return Err("no such directory".to_owned());
        }
        for key in self.tree(path) {
            self.entries.remove(&key);
        }
        Ok(())
    }

    fn rename(&mut self, from: &str, to: &str) -> Result<(), String> {
        if !self.holds(from) {
            return Err("no such directory".to_owned());
        }
        if self.holds(to) {
            return Err("directory not empty".to_owned());
        }
        for key in self.tree(from) {
            let entry = self.entries.remove(&key).unwrap();
            self.entries.insert(format!("{to}{}", &key[from.len()..]), entry);
        }
        Ok(())
    }

    fn children(&self, path: &str) -> Vec<String> {
        let inside = format!("{path}/");
        self.entries
            .keys()
            .filter(|key| key.starts_with(&inside) && !key[inside.len()..].contains('/'))
            .cloned()
            .collect()
    }

    /// Performs a task that both installations and removals have.
    fn plain(&mut self, task: Task, path: &dyn Fn(Slot) -> String) -> Event {
        if self.broken.contains(&task) {
            return Event::Failed("injected".to_owned());
        }
        let outcome = match task {
            Task::Exists(slot) => return Event::Found(self.holds(&path(slot))),
            Task::RemoveTree(slot) => self.remove_tree(&path(slot)),
            Task::CreateDirs(slot) => {
                self.create_dirs(&path(slot));
                Ok(())
            }
            Task::Rename(from, to) => self.rename(&path(from), &path(to)),
            Task::RemoveFile(slot) => self.remove_tree(&path(slot)),
            _ => unreachable!(),
        };
        match outcome {
            Ok(()) => Event::Done,
            Err(reason) => Event::Failed(reason),
        }
    }

    /// Extracts an archive.
    fn unpack(&mut self, archive: &str, dest: &str) -> Result<(), extraction::Error> {
        let mut zip = Archive::open(archive.to_owned(), self.read(archive))?;
        for (position, place) in extract(&mut zip, dest)?.iter().enumerate() {
            match place {
                Place::Directory(path) => self.create_dirs(path),
                Place::File { parent, path } => {
                    assert!(path.starts_with(parent));
                    self.write(path, &zip.contents(position, path)?);
                }
            }
        }
        Ok(())
    }

    /// Performs the next task of an installation.
    fn perform(&mut self, installing: &Installing) -> Event {
        let path = |slot: Slot| installing.path(slot).unwrap().to_owned();
        match installing.task() {
            Task::Unpack => match self.unpack(&path(Slot::Archive), &path(Slot::Staging)) {
                Ok(()) => Event::Done,
                Err(error) => Event::NotUnpacked(error),
            },
            Task::Look => {
                let staging = path(Slot::Staging);
                let entries = self
                    .children(&staging)
                    .into_iter()
                    .map(|child| StagedEntry {
                        holds_manifest: self.is_file(&format!("{child}/module.json")),
                        path: child,
                    })
                    .collect();
                Event::Layout(Layout {
                    at_root: self.is_file(&format!("{staging}/module.json")),
                    entries: Ok(entries),
                })
            }
            Task::ReadManifest => {
                Event::Manifest(manifest(self.read(&format!("{}/module.json", path(Slot::Root)))))
            }
            task => self.plain(task, &path),
        }
    }

    /// Runs an installation, stopping before the task number `stop`.
    fn install_until(
        &mut self,
        installation: &Installation,
        archive: &str,
        stop: usize,
    ) -> Option<Result<(), Error>> {
        let mut installing = apply(installation, &job(), archive.to_owned());
        for _ in 0..stop {
            let event = self.perform(&installing);
            match installing.next(event) {
                Step::Go(next) => installing = next,
                Step::Finish(result) => return Some(result),
            }
        }
        None
    }

    /// Runs an installation.
    fn install(&mut self, archive: &str) -> Result<(), Error> {
        self.install_until(&foundry(), archive, 100).unwrap()
    }

    /// Runs a removal.
    fn remove(&mut self, name: &str) -> Result<(), Error> {
        let mut removing = remove(&foundry(), PackageType::Module, name);
        loop {
            let event =
                self.plain(removing.task(), &|slot| removing.path(slot).unwrap().to_owned());
            match removing.next(event) {
                RemovalStep::Go(next) => removing = next,
                RemovalStep::Finish(result) => return result,
            }
        }
    }

    /// Runs the recovery sweep over the modules; returns what was restored.
    fn recover(&mut self) -> Vec<String> {
        let installation = foundry();
        let packages = installation.packages_dir(PackageType::Module);
        let mut repaired = Vec::new();
        for backup in self.children(&backup_dir(&installation, PackageType::Module)) {
            let name = backup.rsplit_once('/').unwrap().1.to_owned();
            let target = format!("{packages}/{name}");
            let decision = repair(self.holds(&target));
            let outcome = match decision {
                Repair::Drop => self.remove_tree(&backup),
                Repair::Restore => {
                    self.create_dirs(&packages);
                    self.rename(&backup, &target)
                }
            };
            repaired.push(Repaired { name, repair: decision, outcome });
        }
        for dir in transient_dirs(&installation) {
            if self.holds(&dir) {
                self.remove_tree(&dir).unwrap();
            }
        }
        let recovery = recover(repaired);
        assert!(recovery.failed.is_empty());
        recovery.restored
    }
}

/// Reads a manifest the way the program does.
fn manifest(read: Result<Vec<u8>, String>) -> ManifestFile {
    let raw = match read {
        Ok(raw) => raw,
        Err(reason) => return ManifestFile::Unreadable(reason),
    };
    let value: serde_json::Value = match serde_json::from_slice(&raw) {
        Ok(value) => value,
        Err(error) => return ManifestFile::Invalid(error.to_string()),
    };
    let text = |name: &str| value.get(name).and_then(|member| member.as_str()).map(str::to_owned);
    ManifestFile::Parsed(Manifest {
        id: text("id"),
        name: text("name"),
        title: text("title"),
        version: text("version").map(VersionField::Text),
    })
}

/// A resolved installation.
fn foundry() -> Installation {
    Installation::new("/foundry".to_owned(), RootSource::Explicit)
}

/// Builds a zip archive from `(name, contents)` entries.
fn build_zip(entries: &[(&str, &str)]) -> Vec<u8> {
    let mut writer = ZipWriter::new(Cursor::new(Vec::new()));
    for (name, contents) in entries {
        writer.start_file(*name, SimpleFileOptions::default()).unwrap();
        writer.write_all(contents.as_bytes()).unwrap();
    }
    writer.finish().unwrap().into_inner()
}

/// A disk with an archive of the given entries.
fn disk_with(entries: &[(&str, &str)]) -> Disk {
    let mut disk = Disk::default();
    disk.create_dirs("/foundry/Config");
    disk.create_dirs("/foundry/Data");
    disk.write("/tmp/pkg.zip", &build_zip(entries));
    disk
}

/// A disk with an archive and a previous version of the package.
fn disk_with_previous(entries: &[(&str, &str)]) -> Disk {
    let mut disk = disk_with(entries);
    disk.write(TARGET_MANIFEST, PREVIOUS.as_bytes());
    disk
}

/// The manifest of the installed package.
const TARGET_MANIFEST: &str = "/foundry/Data/modules/pkg/module.json";

/// Its previous contents.
const PREVIOUS: &str = r#"{ "id": "pkg", "version": "1.0.0" }"#;

/// Its new contents.
const NEW: &str = r#"{ "id": "pkg", "version": "2.0.0" }"#;

/// A job for the `pkg` test module.
fn job() -> Job {
    Job {
        kind: PackageType::Module,
        name: "pkg".to_owned(),
        version: "2.0.0".to_owned(),
        download_url: String::new(),
        protected: false,
    }
}

/// Removing a package moves it out atomically and leaves nothing behind.
#[test]
fn remove_deletes_the_package() {
    let mut disk = disk_with_previous(&[]);

    disk.remove("pkg").unwrap();

    assert!(!disk.holds("/foundry/Data/modules/pkg"));
    assert!(!disk.holds("/foundry/Data/.ufpm/trash/modules/pkg"));
}

/// Removing something that is not installed fails cleanly.
#[test]
fn remove_missing_package_errors() {
    let mut disk = disk_with(&[]);
    let error = disk.remove("ghost").unwrap_err();
    assert_eq!(error.message(), "I/O failed at /foundry/Data/modules/ghost");
}

/// A removal that cannot move the package away leaves it whole; an older
/// removal is cleared out of the way.
#[test]
fn failed_removals_keep_the_package() {
    let mut disk = disk_with_previous(&[]);
    disk.write("/foundry/Data/.ufpm/trash/modules/pkg/old", b"x");
    disk.broken = vec![Task::Rename(Slot::Target, Slot::Trash)];
    assert!(disk.remove("pkg").is_err());
    assert_eq!(disk.text(TARGET_MANIFEST), PREVIOUS);
    assert!(!disk.holds("/foundry/Data/.ufpm/trash/modules/pkg"));

    disk.broken = vec![Task::RemoveTree(Slot::Trash)];
    disk.write("/foundry/Data/.ufpm/trash/modules/pkg/old", b"x");
    let error = disk.remove("pkg").unwrap_err();
    assert_eq!(error.chain(), ["I/O failed at /foundry/Data/.ufpm/trash/modules/pkg", "injected"]);
    assert_eq!(disk.text(TARGET_MANIFEST), PREVIOUS);
}

/// A removal whose deletion failed is finished by the recovery sweep.
#[test]
fn recovery_empties_the_trash() {
    let mut disk = disk_with_previous(&[]);
    disk.broken = vec![Task::RemoveTree(Slot::Trash)];
    disk.remove("pkg").unwrap();
    assert!(disk.holds("/foundry/Data/.ufpm/trash/modules/pkg"));
    assert!(disk.recover().is_empty());
    assert!(!disk.holds("/foundry/Data/.ufpm/trash"));
    assert!(!disk.holds("/foundry/Data/modules/pkg"));
}

/// Installing into an empty slot lands the package and cleans up.
#[test]
fn installs_a_new_package() {
    let mut disk = disk_with(&[("module.json", NEW)]);

    disk.install("/tmp/pkg.zip").unwrap();

    assert!(disk.is_file(TARGET_MANIFEST));
    assert!(!disk.holds("/tmp/pkg.zip"), "archive should be cleaned up");
    assert!(!disk.holds("/foundry/Data/.ufpm/staging/modules/pkg"));
}

/// Archives wrapped in a single top-level folder are lifted.
#[test]
fn lifts_single_top_level_folders() {
    let mut disk = disk_with(&[("pkg-release/module.json", r#"{ "id": "pkg" }"#)]);

    disk.install("/tmp/pkg.zip").unwrap();

    assert!(disk.is_file(TARGET_MANIFEST));
}

/// Updating replaces the previous version and drops the backup.
#[test]
fn updates_replace_the_previous_version() {
    let mut disk = disk_with_previous(&[("module.json", NEW)]);

    disk.install("/tmp/pkg.zip").unwrap();

    assert!(disk.text(TARGET_MANIFEST).contains("2.0.0"));
    assert!(!disk.holds("/foundry/Data/.ufpm/backup/modules/pkg"));
}

/// An archive containing the wrong package never touches the previous
/// installation.
#[test]
fn wrong_package_leaves_previous_state_untouched() {
    let mut disk = disk_with_previous(&[("module.json", r#"{ "id": "imposter" }"#)]);

    let error = disk.install("/tmp/pkg.zip").unwrap_err();

    assert_eq!(
        error.message(),
        "the archive contains `imposter`, not the requested `pkg`"
    );
    assert!(matches!(error, Error::WrongPackage { .. }));
    assert_eq!(disk.text(TARGET_MANIFEST), PREVIOUS);
}

/// An unusable archive (no manifest anywhere) is rejected.
#[test]
fn manifestless_archives_are_rejected() {
    let mut disk = disk_with(&[("readme.txt", "no manifest here")]);

    let error = disk.install("/tmp/pkg.zip").unwrap_err();

    assert_eq!(
        error.message(),
        "the archive for `pkg` is unusable: no module.json at the archive root"
    );
    assert!(matches!(error, Error::InvalidArchive { .. }));
}

/// A manifest that is none makes the archive unusable too.
#[test]
fn broken_manifests_are_rejected() {
    let mut disk = disk_with_previous(&[("module.json", "not json")]);
    let error = disk.install("/tmp/pkg.zip").unwrap_err();
    assert!(matches!(error, Error::InvalidArchive { reason, .. } if reason.starts_with("invalid module.json: ")));
    assert_eq!(disk.text(TARGET_MANIFEST), PREVIOUS);
}

/// A backup without its target (crash mid-swap) is restored by the
/// recovery sweep; staging leftovers are cleared.
#[test]
fn recovery_restores_orphaned_backups() {
    let mut disk = disk_with(&[]);
    disk.write("/foundry/Data/.ufpm/backup/modules/pkg/module.json", br#"{ "id": "pkg" }"#);
    disk.create_dirs("/foundry/Data/.ufpm/staging/modules/junk");

    assert_eq!(disk.recover(), ["pkg"]);

    assert!(disk.is_file(TARGET_MANIFEST));
    assert!(!disk.holds("/foundry/Data/.ufpm/staging"));
}

/// A backup whose target exists (crash after the swap) is dropped, and
/// the installed target wins.
#[test]
fn recovery_completes_finished_swaps() {
    let mut disk = disk_with(&[]);
    disk.write(TARGET_MANIFEST, NEW.as_bytes());
    disk.write("/foundry/Data/.ufpm/backup/modules/pkg/module.json", PREVIOUS.as_bytes());

    assert!(disk.recover().is_empty());

    assert!(!disk.holds("/foundry/Data/.ufpm/backup/modules/pkg"));
    assert!(disk.text(TARGET_MANIFEST).contains("2.0.0"));
}

/// A backup that cannot be restored is reported.
#[test]
fn recovery_reports_failures() {
    let recovery = recover(vec![
        Repaired { name: "a".to_owned(), repair: Repair::Restore, outcome: Ok(()) },
        Repaired { name: "b".to_owned(), repair: Repair::Restore, outcome: Err("denied".to_owned()) },
        Repaired { name: "c".to_owned(), repair: Repair::Drop, outcome: Err("busy".to_owned()) },
    ]);
    assert_eq!(recovery.restored, ["a"]);
    assert_eq!(recovery.failed, [("b".to_owned(), "denied".to_owned())]);
}

/// Whichever task fails, the previous package survives or the new one is in
/// place; and a failed restore is finished by the recovery sweep.
#[test]
fn every_failure_keeps_the_previous_package() {
    let failures = [
        Task::CreateDirs(Slot::Staging),
        Task::CreateDirs(Slot::Parent),
        Task::CreateDirs(Slot::BackupParent),
        Task::Rename(Slot::Target, Slot::Backup),
        Task::Rename(Slot::Root, Slot::Target),
    ];
    for task in failures {
        let mut disk = disk_with_previous(&[("module.json", NEW)]);
        disk.broken = vec![task];
        let error = disk.install("/tmp/pkg.zip").unwrap_err();
        assert!(matches!(error, Error::Io { reason, .. } if reason == "injected"));
        assert_eq!(disk.text(TARGET_MANIFEST), PREVIOUS);
    }
    for task in [Task::RemoveTree(Slot::Backup), Task::RemoveFile(Slot::Archive)] {
        let mut disk = disk_with_previous(&[("module.json", NEW)]);
        disk.broken = vec![task];
        disk.install("/tmp/pkg.zip").unwrap();
        assert_eq!(disk.text(TARGET_MANIFEST), NEW);
    }
    let mut disk = disk_with_previous(&[("module.json", NEW)]);
    disk.broken =
        vec![Task::Rename(Slot::Root, Slot::Target), Task::Rename(Slot::Backup, Slot::Target)];
    disk.install("/tmp/pkg.zip").unwrap_err();
    assert!(!disk.holds(TARGET_MANIFEST));
    assert_eq!(disk.recover(), ["pkg"]);
    assert_eq!(disk.text(TARGET_MANIFEST), PREVIOUS);
}

/// A crash before any task of an update is healed by the recovery sweep.
#[test]
fn every_crash_is_healed() {
    for stop in 0..100 {
        let mut disk = disk_with_previous(&[("module.json", NEW)]);
        let finished = disk.install_until(&foundry(), "/tmp/pkg.zip", stop).is_some();
        disk.recover();
        let now = disk.text(TARGET_MANIFEST);
        assert!(now == PREVIOUS || now == NEW, "after {stop} tasks: {now}");
        assert!(disk.tree("/foundry/Data/.ufpm/backup/modules").len() <= 1);
        assert!(!disk.holds("/foundry/Data/.ufpm/staging"));
        if finished {
            assert_eq!(now, NEW);
            return;
        }
    }
    panic!("the installation never ended");
}

/// Leftovers of an earlier staging are cleared before the extraction.
#[test]
fn old_staging_is_cleared() {
    let mut disk = disk_with(&[("module.json", NEW)]);
    disk.write("/foundry/Data/.ufpm/staging/modules/pkg/junk.txt", b"junk");
    disk.install("/tmp/pkg.zip").unwrap();
    assert!(!disk.holds("/foundry/Data/modules/pkg/junk.txt"));
}

/// Regular archives extract with their directory structure intact.
#[test]
fn extracts_nested_entries() {
    let mut disk = disk_with(&[
        ("module.json", r#"{ "id": "pkg" }"#),
        ("scripts/main.js", "console.log('hi')"),
    ]);

    disk.unpack("/tmp/pkg.zip", "/out").unwrap();

    assert!(disk.is_file("/out/module.json"));
    assert_eq!(disk.text("/out/scripts/main.js"), "console.log('hi')");
}

/// Entries that try to escape the destination are rejected.
#[test]
fn rejects_path_traversal() {
    let mut disk = disk_with(&[("../evil.txt", "gotcha")]);

    let error = disk.unpack("/tmp/pkg.zip", "/tmp/out").unwrap_err();

    assert_eq!(
        error.message(),
        "the archive entry `../evil.txt` has an unsafe path; refusing to extract"
    );
    assert!(matches!(error, extraction::Error::UnsafePath(_)));
    assert!(!disk.holds("/tmp/evil.txt"));
}

/// An archive with an unsafe entry is refused as a whole: not even the entries
/// in front of it are written, and the first unsafe one is named.
#[test]
fn nothing_is_written_before_everything_is_checked() {
    let mut disk =
        disk_with(&[("ok.txt", "x"), ("../evil.txt", "gotcha"), ("/worse.txt", "gotcha")]);

    let error = disk.unpack("/tmp/pkg.zip", "/tmp/out").unwrap_err();

    assert!(matches!(error, extraction::Error::UnsafePath(name) if name == "../evil.txt"));
    assert!(!disk.holds("/tmp/evil.txt"));
    assert!(!disk.holds("/tmp/out"));
}

/// Garbage files are reported as archive errors.
#[test]
fn rejects_non_zip_files() {
    let mut disk = disk_with(&[]);
    disk.write("/tmp/not.zip", b"definitely not a zip");

    let error = disk.unpack("/tmp/not.zip", "/out").unwrap_err();

    assert_eq!(error.message(), "could not read the archive at /tmp/not.zip");
    assert_eq!(error.chain().len(), 2);
    assert!(matches!(error, extraction::Error::Archive { .. }));
}

/// A file that cannot be read is an I/O error, and so are the contents of an
/// entry that cannot be.
#[test]
fn unreadable_archives_are_errors() {
    let mut disk = disk_with(&[("a", "b")]);
    let error = disk.unpack("/tmp/gone.zip", "/out").unwrap_err();
    assert_eq!(error.chain(), ["I/O failed at /tmp/gone.zip", "no such file: /tmp/gone.zip"]);

    let mut zip = Archive::open("a.zip".to_owned(), disk.read("/tmp/pkg.zip")).unwrap();
    assert_eq!(zip.entries(), 1);
    assert_eq!(extract(&mut zip, "/out").unwrap().len(), 1);
    assert_eq!(zip.contents(0, "/out/a").unwrap(), b"b");
    let error = zip.contents(9, "/out/z").unwrap_err();
    assert_eq!(error.message(), "I/O failed at /out/z");
}

/// Absolute paths and `..` are refused outright, wherever they are, though the
/// path they enclose would be inside.
#[test]
fn absolute_and_parent_paths_are_refused() {
    for name in ["/abs.txt", "\\abs.txt", "C:\\abs.txt", "a/../b.txt", "a/..", "..\\b"] {
        let mut disk = disk_with(&[(name, "x")]);
        let error = disk.unpack("/tmp/pkg.zip", "/out").unwrap_err();
        assert!(matches!(error, extraction::Error::UnsafePath(_)), "{name}");
    }
    let refused = place("/out", "a".to_owned(), None);
    assert!(matches!(refused, Err(extraction::Error::UnsafePath(name)) if name == "a"));
    let refused = place("/out", "a".to_owned(), Some("b/../../c".to_owned()));
    assert!(refused.is_err());
}

/// Entries go below the destination; those that end in a separator are
/// directories.
#[test]
fn entries_go_below_the_destination() {
    let placed = |name: &str, path: &str| place("/out", name.to_owned(), Some(path.to_owned())).unwrap();
    assert!(matches!(placed("a/b/", "a/b"), Place::Directory(path) if path == "/out/a/b"));
    assert!(matches!(
        placed("a//./b.js", "a/b.js"),
        Place::File { parent, path } if parent == "/out/a" && path == "/out/a/b.js"
    ));
    assert!(matches!(
        placed("x", "x"),
        Place::File { parent, path } if parent == "/out" && path == "/out/x"
    ));
}

/// Whatever separates the parts of an entry's name, they become directories.
#[test]
fn separators_become_directories() {
    let mut disk = disk_with(&[("a\\b.txt", "x"), ("c/./d//e.txt", "y")]);

    disk.unpack("/tmp/pkg.zip", "/out").unwrap();

    assert_eq!(disk.text("/out/a/b.txt"), "x");
    assert_eq!(disk.text("/out/c/d/e.txt"), "y");
}

/// An entry without a component of its own is the extraction directory itself.
#[test]
fn entries_may_have_no_component() {
    let placed = |name: &str| place("/tmp/out", name.to_owned(), Some(String::new())).unwrap();
    assert!(matches!(placed("./"), Place::Directory(path) if path == "/tmp/out/"));
    assert!(matches!(
        placed("."),
        Place::File { parent, path } if parent == "/tmp" && path == "/tmp/out/"
    ));
}

/// A colon in a name is a character like any other, except behind the letter of
/// a drive, which does not count.
#[test]
fn names_may_hold_colons() {
    let mut disk = disk_with(&[("at 12:00.txt", "x"), ("d/e:", "y"), ("c:drive.txt", "z")]);
    let mut zip = Archive::open("a.zip".to_owned(), disk.read("/tmp/pkg.zip")).unwrap();
    let files: Vec<String> = extract(&mut zip, "/out")
        .unwrap()
        .into_iter()
        .map(|place| match place {
            Place::Directory(path) => path,
            Place::File { path, .. } => path,
        })
        .collect();
    assert_eq!(files[0], "/out/at 12:00.txt");
    assert_eq!(files[2], "/out/drive.txt");
    disk.unpack("/tmp/pkg.zip", "/out").unwrap();
    assert_eq!(disk.text("/out/at 12:00.txt"), "x");
    assert_eq!(disk.text("/out/drive.txt"), "z");
}

/// Archive names are plain file names, whatever the package is called.
#[test]
fn archives_have_plain_names() {
    assert_eq!(sanitize("a/b c\u{e9}.Z_1-"), "a-b-c-.Z_1-");
    let odd = Job { name: "../x".to_owned(), version: "1/2".to_owned(), ..job() };
    assert_eq!(odd.archive_filename(), "module-..-x-1-2.zip");
    assert_eq!(archive_path("/downloads", &odd), "/downloads/module-..-x-1-2.zip");
    assert_eq!(
        download_archive("/downloads", &job(), Ok(())).unwrap(),
        "/downloads/module-pkg-2.0.0.zip"
    );
    let failed = download_archive("/d", &job(), Err(download::Error::Http { status: 404 }));
    assert_eq!(
        failed.unwrap_err().chain(),
        ["downloading `pkg` failed", "the download host answered HTTP 404 Not Found"]
    );
    assert_eq!(ufpm_dir(&foundry()), "/foundry/Data/.ufpm");
}

/// An extraction that fails or never ends fails the installation.
#[test]
fn failed_extractions_fail_the_installation() {
    let mut disk = disk_with_previous(&[("../evil.txt", "gotcha")]);
    let error = disk.install("/tmp/pkg.zip").unwrap_err();
    assert_eq!(
        error.chain(),
        [
            "extracting `pkg` failed",
            "the archive entry `../evil.txt` has an unsafe path; refusing to extract"
        ]
    );
    assert_eq!(disk.text(TARGET_MANIFEST), PREVIOUS);

    let mut installing = apply(&foundry(), &job(), "/tmp/pkg.zip".to_owned());
    let error = loop {
        let event = match installing.task() {
            Task::Unpack => Event::Aborted("cancelled".to_owned()),
            _ => disk.perform(&installing),
        };
        match installing.next(event) {
            Step::Go(next) => installing = next,
            Step::Finish(result) => break result.unwrap_err(),
        }
    };
    assert_eq!(error.chain(), ["internal failure: cancelled"]);
    assert_eq!(disk.text(TARGET_MANIFEST), PREVIOUS);
}

/// A staging directory that cannot be listed is an I/O error.
#[test]
fn unlistable_staging_is_an_error() {
    let mut disk = disk_with(&[("module.json", NEW)]);
    let mut installing = apply(&foundry(), &job(), "/tmp/pkg.zip".to_owned());
    let error = loop {
        let event = match installing.task() {
            Task::Look => {
                Event::Layout(Layout { at_root: false, entries: Err("denied".to_owned()) })
            }
            _ => disk.perform(&installing),
        };
        match installing.next(event) {
            Step::Go(next) => installing = next,
            Step::Finish(result) => break result.unwrap_err(),
        }
    };
    assert_eq!(
        error.chain(),
        ["I/O failed at /foundry/Data/.ufpm/staging/modules/pkg", "denied"]
    );
}
