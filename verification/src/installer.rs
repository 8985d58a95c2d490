//! Installing a version from an archive, and removing it again.
//!
//! An installation prepares a fresh directory for the version, tells the
//! kind of archive by the name of its file, looks at the file before it
//! trusts it, and then says for every entry of the archive where it goes.
//! Whoever reads the archive and writes the files asks entry by entry. No
//! failure is mended: a directory that was prepared stays, and counts as
//! installed for whoever asks only whether it is there.

use vstd::prelude::*;
use crate::config::option_view;
use crate::error::SdkError;
use crate::paths::{
    file_name,
    file_name_of,
    lemma_relocated_stays_below,
    relocate,
    relocated,
    stays_below,
};
use crate::store::{
    is_valid_version,
    valid_version,
    version_dir,
    version_dir_of,
    ActiveLink,
    CandidateDir,
    Contents,
    DirView,
    FsAction,
    LinkView,
    PathKind,
};
use crate::text::{chars_of, ends_with, ends_with_text};

verus! {

/// A tar archive reports after this many entries.
pub const TAR_PROGRESS_STEP: usize = 100;

/// A ZIP archive reports at every entry whose index is a multiple of this.
pub const ZIP_PROGRESS_STEP: usize = 10;

/// The installation of a version has ended.
#[derive(Clone, Debug)]
pub struct InstallComplete {
    pub candidate: String,
    pub version: String,
    /// The directory of the version.
    pub path: String,
    pub success: bool,
    pub message: Option<String>,
}

/// How far an installation is.
#[derive(Clone, Debug)]
pub struct InstallProgress {
    pub candidate: String,
    pub version: String,
    /// Entries handled so far.
    pub current: usize,
    /// Entries in all, 0 where that is not known.
    pub total: usize,
}

/// The removal of a version has ended.
#[derive(Clone, Debug)]
pub struct UninstallComplete {
    pub candidate: String,
    pub version: String,
    pub success: bool,
    pub message: Option<String>,
}

/// The formats that can be installed from.
#[derive(Clone, Copy, Debug, PartialEq, Eq, Structural)]
pub enum ArchiveKind {
    /// A tar archive, compressed with gzip.
    TarGz,
    Zip,
}

/// What is known of the file of an archive before it is unpacked.
pub struct ArchiveFile {
    /// Where the file is.
    pub path: String,
    pub exists: bool,
    /// Its size in bytes.
    pub size: u64,
    /// Its first bytes, two of them or as many as it has.
    pub head: Vec<u8>,
    /// The number of entries that its table of contents announces, where the
    /// file can be opened as a ZIP archive.
    pub zip_entries: Option<usize>,
}

/// One entry of an archive.
pub struct ArchiveEntry {
    /// The path that the entry is stored under. For a ZIP archive this is the
    /// path as far as it is safe to resolve below a directory, and is missing
    /// where it is not: such an entry is never written.
    pub path: Option<String>,
    /// The entry is a directory. This counts for ZIP archives only.
    pub is_dir: bool,
}

/// What to do with one entry.
#[derive(Clone, Debug)]
pub enum EntryPlan {
    /// Nothing: the entry is left out.
    Skip,
    /// Create this directory, and those above it.
    CreateDir(String),
    /// Write the entry's content to this file, in a directory that may have
    /// to be created first.
    WriteFile(String),
    /// Unpack the entry here, as the directory, file or link that it is.
    Unpack(String),
}

/// What to do with one entry, over plain values.
pub enum PlanView {
    Skip,
    CreateDir(Seq<char>),
    WriteFile(Seq<char>),
    Unpack(Seq<char>),
}

impl PlanView {
    /// The place below the directory of the version that the entry goes to,
    /// if it goes anywhere.
    pub open spec fn target(self) -> Option<Seq<char>> {
        match self {
            PlanView::Skip => None,
            PlanView::CreateDir(path) => Some(path),
            PlanView::WriteFile(path) => Some(path),
            PlanView::Unpack(path) => Some(path),
        }
    }
}

/// What to do with one entry, and whether to tell the user.
pub struct EntryStep {
    pub plan: EntryPlan,
    pub progress: Option<InstallProgress>,
}

/// How an installation begins.
pub struct InstallStart {
    /// What to do on disk, whatever `outcome` is.
    pub actions: Vec<FsAction>,
    /// The extraction to go on with, or why there is none.
    pub outcome: Result<Extraction, SdkError>,
}

/// How an installation ends.
pub struct InstallFinish {
    pub actions: Vec<FsAction>,
    pub complete: InstallComplete,
}

/// How a removal ends.
pub struct Uninstalled {
    pub actions: Vec<FsAction>,
    pub complete: UninstallComplete,
}

/// An extraction that is under way.
pub struct Extraction {
    candidate: String,
    version: String,
    kind: ArchiveKind,
    total: usize,
    seen: usize,
    extracted: usize,
}

impl EntryPlan {
    pub open spec fn view(&self) -> PlanView {
        match *self {
            EntryPlan::Skip => PlanView::Skip,
            EntryPlan::CreateDir(path) => PlanView::CreateDir(path@),
            EntryPlan::WriteFile(path) => PlanView::WriteFile(path@),
            EntryPlan::Unpack(path) => PlanView::Unpack(path@),
        }
    }
}

/// The kind of an archive, by the end of its file's name.
pub open spec fn archive_kind_of(name: Seq<char>) -> Option<ArchiveKind> {
    if ends_with_text(name, ".tar.gz"@) || ends_with_text(name, ".tgz"@) {
        Some(ArchiveKind::TarGz)
    } else if ends_with_text(name, ".zip"@) {
        Some(ArchiveKind::Zip)
    } else {
        None
    }
}

/// The name of the file at `path`; empty where the path ends in none.
pub open spec fn archive_name_of(path: Seq<char>) -> Seq<char> {
    match file_name(path) {
        Some(name) => name,
        None => Seq::empty(),
    }
}

/// The bytes begin with the magic number of gzip.
pub open spec fn gzip_magic(head: Seq<u8>) -> bool {
    head.len() >= 2 && head[0] == 0x1f && head[1] == 0x8b
}

/// Whether the file of an archive can be unpacked, and if so, how many
/// entries it announces (0 for a tar archive, which announces none). The file
/// must be there and hold bytes. A gzip file must begin with the magic
/// number, which is looked at before anything is decoded. A ZIP file must
/// have a table of contents that can be read.
pub open spec fn archive_check(
    kind: ArchiveKind,
    exists: bool,
    size: u64,
    head: Seq<u8>,
    zip_entries: Option<usize>,
) -> Result<usize, SdkError> {
    if !exists {
        Err(SdkError::ArchiveMissing)
    } else if size == 0 {
        Err(SdkError::ArchiveEmpty)
    } else {
        match kind {
            ArchiveKind::TarGz => if head.len() < 2 {
                Err(SdkError::ArchiveUnreadable)
            } else if !gzip_magic(head) {
                Err(SdkError::NotGzip { first: head[0], second: head[1] })
            } else {
                Ok(0)
            },
            ArchiveKind::Zip => match zip_entries {
                Some(n) => Ok(n),
                None => Err(SdkError::ArchiveUnreadable),
            },
        }
    }
}

/// Whether an archive can be installed from: its kind and the number of
/// entries that it announces, or why not.
pub open spec fn install_outcome(archive: ArchiveFile) -> Result<(ArchiveKind, usize), SdkError> {
    match archive_kind_of(archive_name_of(archive.path@)) {
        None => Err(SdkError::UnsupportedFormat),
        Some(kind) => match archive_check(
            kind,
            archive.exists,
            archive.size,
            archive.head@,
            archive.zip_entries,
        ) {
            Ok(total) => Ok((kind, total)),
            Err(e) => Err(e),
        },
    }
}

/// What it takes to prepare the directory of a version: one that is there
/// goes first, with all that it holds.
pub open spec fn prepare_actions(d: DirView, version: Seq<char>) -> Seq<FsAction> {
    if d.installed(version) {
        seq![FsAction::RemoveVersionDir, FsAction::CreateVersionDir]
    } else {
        seq![FsAction::CreateVersionDir]
    }
}

/// The picture once the directory of a version is prepared: it is there and
/// holds nothing.
pub open spec fn after_prepare(d: DirView, version: Seq<char>) -> DirView {
    d.with_version(version, Contents::Empty)
}

/// The picture once a version is installed.
pub open spec fn after_install(d: DirView, version: Seq<char>, contents: Contents) -> DirView {
    after_prepare(d, version).with_version(version, contents)
}

/// Where an entry goes below the directory of the version, if anywhere.
pub open spec fn target_of(entry: ArchiveEntry) -> Option<Seq<char>> {
    match entry.path {
        Some(path) => relocated(path@),
        None => None,
    }
}

/// What to do with an entry.
pub open spec fn planned(kind: ArchiveKind, entry: ArchiveEntry) -> PlanView {
    match target_of(entry) {
        None => PlanView::Skip,
        Some(target) => match kind {
            ArchiveKind::TarGz => PlanView::Unpack(target),
            ArchiveKind::Zip => if entry.is_dir {
                PlanView::CreateDir(target)
            } else {
                PlanView::WriteFile(target)
            },
        },
    }
}

/// Whether to tell the user after an entry. `index` is the entry's place in
/// the archive, from 0; `written` says that the entry was not left out, and
/// `extracted` is the number of such entries so far, this one included. A
/// ZIP archive reports by the index, at every tenth entry and at its last,
/// whether the entry was written or not. A tar archive, which does not say
/// how many entries it has, reports at every hundredth entry that it writes.
pub open spec fn progress_due(
    kind: ArchiveKind,
    total: usize,
    index: usize,
    written: bool,
    extracted: usize,
) -> bool {
    match kind {
        ArchiveKind::TarGz => written && extracted % TAR_PROGRESS_STEP == 0,
        ArchiveKind::Zip => index % ZIP_PROGRESS_STEP == 0 || index + 1 == total,
    }
}

/// The number that an event carries: for a ZIP archive the entries seen, for
/// a tar archive the entries written.
pub open spec fn progress_count(kind: ArchiveKind, index: usize, extracted: usize) -> int {
    match kind {
        ArchiveKind::TarGz => extracted as int,
        ArchiveKind::Zip => index + 1,
    }
}

/// Whether the link goes with the version: it points at the version's
/// directory, or it leads nowhere.
pub open spec fn link_goes(d: DirView, version: Seq<char>) -> bool {
    d.link matches LinkView::To { kind, .. } && (d.link.selects(version) || kind
        == PathKind::Missing)
}

/// What it takes to remove a version.
pub open spec fn uninstall_actions(d: DirView, version: Seq<char>) -> Seq<FsAction> {
    if link_goes(d, version) {
        seq![FsAction::RemoveVersionDir, FsAction::RemoveLink]
    } else {
        seq![FsAction::RemoveVersionDir]
    }
}

/// The picture once a version is removed.
pub open spec fn after_uninstall(d: DirView, version: Seq<char>) -> DirView {
    if !d.installed(version) {
        d
    } else if link_goes(d, version) {
        d.without_version(version).unlinked()
    } else {
        d.without_version(version)
    }
}

/// How an installation begins. A version whose name cannot be that of a
/// directory is refused, and nothing changes. For every other version the
/// directory is prepared; then the archive decides whether an extraction
/// follows, which starts before the first entry.
pub open spec fn begins(
    before: DirView,
    after: DirView,
    archive: ArchiveFile,
    version: Seq<char>,
    start: InstallStart,
) -> bool {
    if !valid_version(version) {
        &&& after == before
        &&& start.actions@.len() == 0
        &&& start.outcome matches Err(e) && e == SdkError::InvalidVersion
    } else {
        &&& after == after_prepare(before, version)
        &&& start.actions@ == prepare_actions(before, version)
        &&& match start.outcome {
            Ok(extraction) => {
                &&& install_outcome(archive) == Ok::<(ArchiveKind, usize), SdkError>(
                    (extraction.kind(), extraction.total()),
                )
                &&& extraction.wf()
                &&& extraction.candidate() == before.name
                &&& extraction.version() == version
                &&& extraction.seen() == 0
                &&& extraction.extracted() == 0
            },
            Err(e) => install_outcome(archive) == Err::<(ArchiveKind, usize), SdkError>(e),
        }
    }
}

/// Installs and removes versions.
pub struct Installer;

impl Installer {
    /// The kind of an archive, by the end of its file's name.
    pub fn archive_kind(name: &str) -> (kind: Result<ArchiveKind, SdkError>)
        ensures
            match kind {
                Ok(kind) => archive_kind_of(name@) == Some(kind),
                Err(e) => archive_kind_of(name@) is None && e == SdkError::UnsupportedFormat,
            },
    {
        let chars = chars_of(name);
        if ends_with(&chars, &chars_of(".tar.gz")) || ends_with(&chars, &chars_of(".tgz")) {
            Ok(ArchiveKind::TarGz)
        } else if ends_with(&chars, &chars_of(".zip")) {
            Ok(ArchiveKind::Zip)
        } else {
            Err(SdkError::UnsupportedFormat)
        }
    }

    /// Whether the file of an archive can be unpacked, and if so, how many
    /// entries it announces.
    pub fn check_archive(kind: ArchiveKind, archive: &ArchiveFile) -> (total: Result<
        usize,
        SdkError,
    >)
        ensures
            total == archive_check(
                kind,
                archive.exists,
                archive.size,
                archive.head@,
                archive.zip_entries,
            ),
    {
        if !archive.exists {
            return Err(SdkError::ArchiveMissing);
        }
        if archive.size == 0 {
            return Err(SdkError::ArchiveEmpty);
        }
        match kind {
            ArchiveKind::TarGz => {
                if archive.head.len() < 2 {
                    return Err(SdkError::ArchiveUnreadable);
                }
                let first: u8 = archive.head[0];
                let second: u8 = archive.head[1];
                if first != 0x1f || second != 0x8b {
                    return Err(SdkError::NotGzip { first, second });
                }
                Ok(0)
            },
            ArchiveKind::Zip => match archive.zip_entries {
                Some(n) => Ok(n),
                None => Err(SdkError::ArchiveUnreadable),
            },
        }
    }

    /// Begins the installation of `version` from an archive. The directory of
    /// the version is prepared first, fresh and empty; what was there before
    /// is removed. Then the archive is judged: by the name of its file, and
    /// by what is known of the file. Where it cannot be installed from, the
    /// prepared directory stays. A version whose name cannot be that of a
    /// directory is refused before anything is done.
    pub fn install_from_archive(dir: &mut CandidateDir, archive: &ArchiveFile, version: &str) -> (start:
        InstallStart)
        requires
            old(dir).wf(),
        ensures
            final(dir).wf(),
            begins(old(dir)@, final(dir)@, *archive, version@, start),
    {
        if !is_valid_version(version) {
            return InstallStart { actions: Vec::new(), outcome: Err(SdkError::InvalidVersion) };
        }
        let mut actions: Vec<FsAction> = Vec::new();
        if dir.contents_of(version).is_some() {
            actions.push(FsAction::RemoveVersionDir);
        }
        actions.push(FsAction::CreateVersionDir);
        assert(actions@ =~= prepare_actions(dir@, version@));
        dir.put_version(version, Contents::Empty);
        let name = match file_name_of(archive.path.as_str()) {
            Some(name) => name,
            None => String::new(),
        };
        let kind = match Installer::archive_kind(name.as_str()) {
            Ok(kind) => kind,
            Err(e) => {
                return InstallStart { actions, outcome: Err(e) };
            },
        };
        let total = match Installer::check_archive(kind, archive) {
            Ok(total) => total,
            Err(e) => {
                return InstallStart { actions, outcome: Err(e) };
            },
        };
        let extraction = Extraction {
            candidate: dir.name(),
            version: String::from_str(version),
            kind,
            total,
            seen: 0,
            extracted: 0,
        };
        InstallStart { actions, outcome: Ok(extraction) }
    }

    /// Begins the installation of `version` from an archive, as
    /// `install_from_archive` does: the name is kept for those who installed
    /// from ZIP archives only.
    pub fn install_from_zip(dir: &mut CandidateDir, archive: &ArchiveFile, version: &str) -> (start:
        InstallStart)
        requires
            old(dir).wf(),
        ensures
            final(dir).wf(),
            begins(old(dir)@, final(dir)@, *archive, version@, start),
    {
        Installer::install_from_archive(dir, archive, version)
    }

    /// Removes `version`. It must be installed; else nothing changes. The
    /// link goes with it where it points at the version, and also where it
    /// leads nowhere, whatever it pointed at.
    pub fn uninstall_sdk(dir: &mut CandidateDir, version: &str) -> (done: Result<
        Uninstalled,
        SdkError,
    >)
        requires
            old(dir).wf(),
        ensures
            final(dir).wf(),
            final(dir)@ == after_uninstall(old(dir)@, version@),
            match done {
                Ok(report) => {
                    &&& old(dir)@.installed(version@)
                    &&& report.actions@ == uninstall_actions(old(dir)@, version@)
                    &&& report.complete.candidate@ == old(dir)@.name
                    &&& report.complete.version@ == version@
                    &&& report.complete.success
                    &&& option_view(report.complete.message) == Some(
                        "Uninstallation completed successfully"@,
                    )
                },
                Err(e) => !old(dir)@.installed(version@) && e == SdkError::NotInstalled,
            },
    {
        if dir.contents_of(version).is_none() {
            return Err(SdkError::NotInstalled);
        }
        let mut actions: Vec<FsAction> = Vec::new();
        actions.push(FsAction::RemoveVersionDir);
        dir.remove_version(version);
        let goes = match dir.link() {
            ActiveLink::To { kind, .. } => match kind {
                PathKind::Missing => true,
                _ => false,
            },
            _ => false,
        };
        proof {
            old(dir).lemma_wf();
        }
        if goes {
            actions.push(FsAction::RemoveLink);
            dir.clear_link();
        }
        Ok(
            Uninstalled {
                actions,
                complete: UninstallComplete {
                    candidate: dir.name(),
                    version: String::from_str(version),
                    success: true,
                    message: Some(String::from_str("Uninstallation completed successfully")),
                },
            },
        )
    }

    /// Whether `version` is installed and its directory holds something.
    pub fn verify_installation(dir: &CandidateDir, version: &str) -> (valid: Result<bool, SdkError>)
        requires
            dir.wf(),
        ensures
            valid == Ok::<bool, SdkError>(
                dir@.installed(version@) && dir@.versions[version@] == Contents::Filled,
            ),
    {
        match dir.contents_of(version) {
            Some(Contents::Filled) => Ok(true),
            _ => Ok(false),
        }
    }
}

impl Extraction {
    /// The version has a name that a directory can have, and a ZIP archive
    /// has not shown more entries than it announced.
    pub open spec fn wf(&self) -> bool {
        &&& valid_version(self.version())
        &&& self.extracted() <= self.seen()
        &&& self.kind() == ArchiveKind::Zip ==> self.seen() <= self.total()
    }

    pub closed spec fn candidate(&self) -> Seq<char> {
        self.candidate@
    }

    pub closed spec fn version(&self) -> Seq<char> {
        self.version@
    }

    pub closed spec fn kind(&self) -> ArchiveKind {
        self.kind
    }

    /// Entries that the archive announced, 0 for a tar archive.
    pub closed spec fn total(&self) -> usize {
        self.total
    }

    /// Entries shown so far.
    pub closed spec fn seen(&self) -> usize {
        self.seen
    }

    /// Entries shown so far that were not left out.
    pub closed spec fn extracted(&self) -> usize {
        self.extracted
    }

    /// The kind of the archive.
    pub fn archive_kind(&self) -> (kind: ArchiveKind)
        ensures
            kind == self.kind(),
    {
        self.kind
    }

    /// Entries that the archive announced, 0 for a tar archive.
    pub fn entries(&self) -> (total: usize)
        ensures
            total == self.total(),
    {
        self.total
    }

    /// Entries shown so far.
    pub fn entries_seen(&self) -> (seen: usize)
        ensures
            seen == self.seen(),
    {
        self.seen
    }

    /// Whether another entry can be taken: a ZIP archive has shown fewer
    /// entries than it announced, a tar archive fewer than can be counted.
    pub fn accepts_entry(&self) -> (open: bool)
        ensures
            open == self.open(),
    {
        match self.kind {
            ArchiveKind::Zip => self.seen < self.total,
            ArchiveKind::TarGz => self.seen < usize::MAX,
        }
    }

    /// Another entry can be taken.
    pub open spec fn open(&self) -> bool {
        match self.kind() {
            ArchiveKind::Zip => self.seen() < self.total(),
            ArchiveKind::TarGz => self.seen() < usize::MAX,
        }
    }

    /// Says what to do with the next entry of the archive, and whether to
    /// tell the user. An entry without a path, with a path of one component,
    /// or with a path that climbs behind its first component is left out.
    /// Every other entry goes below the directory of the version, to its path
    /// without the first component.
    pub fn next_entry(&mut self, entry: &ArchiveEntry) -> (step: EntryStep)
        requires
            old(self).wf(),
            old(self).open(),
        ensures
            final(self).wf(),
            final(self).candidate() == old(self).candidate(),
            final(self).version() == old(self).version(),
            final(self).kind() == old(self).kind(),
            final(self).total() == old(self).total(),
            final(self).seen() == old(self).seen() + 1,
            step.plan@ == planned(old(self).kind(), *entry),
            step.plan@.target() matches Some(target) ==> stays_below(target),
            final(self).extracted() == old(self).extracted() + if step.plan@ is Skip {
                0int
            } else {
                1int
            },
            step.progress is Some <==> progress_due(
                old(self).kind(),
                old(self).total(),
                old(self).seen(),
                !(step.plan@ is Skip),
                final(self).extracted(),
            ),
            step.progress matches Some(progress) ==> {
                &&& progress.candidate@ == old(self).candidate()
                &&& progress.version@ == old(self).version()
                &&& progress.current == progress_count(
                    old(self).kind(),
                    old(self).seen(),
                    final(self).extracted(),
                )
                &&& progress.total == old(self).total()
            },
    {
        let index: usize = self.seen;
        self.seen = index + 1;
        let target = match &entry.path {
            Some(path) => {
                proof {
                    lemma_relocated_stays_below(path@);
                }
                relocate(path.as_str())
            },
            None => None,
        };
        let (plan, written) = match target {
            None => (EntryPlan::Skip, false),
            Some(target) => {
                self.extracted = self.extracted + 1;
                match self.kind {
                    ArchiveKind::TarGz => (EntryPlan::Unpack(target), true),
                    ArchiveKind::Zip => if entry.is_dir {
                        (EntryPlan::CreateDir(target), true)
                    } else {
                        (EntryPlan::WriteFile(target), true)
                    },
                }
            },
        };
        let (due, current) = match self.kind {
            ArchiveKind::TarGz => (written && self.extracted % TAR_PROGRESS_STEP == 0, self.extracted),
            ArchiveKind::Zip => (
                index % ZIP_PROGRESS_STEP == 0 || index + 1 == self.total,
                index + 1,
            ),
        };
        let progress = if due {
            Some(
                InstallProgress {
                    candidate: self.candidate.clone(),
                    version: self.version.clone(),
                    current,
                    total: self.total,
                },
            )
        } else {
            None
        };
        EntryStep { plan, progress }
    }

    /// Ends the installation after the last entry: the directory of the
    /// version holds what was written to it. Where the platform has
    /// permission bits (`posix`), the files in the version's `bin` directory
    /// are made executable. `home` is the user's home directory.
    pub fn finish(self, dir: &mut CandidateDir, home: &str, posix: bool) -> (end: InstallFinish)
        requires
            self.wf(),
            old(dir).wf(),
        ensures
            final(dir).wf(),
            final(dir)@ == old(dir)@.with_version(
                self.version(),
                if self.extracted() > 0 {
                    Contents::Filled
                } else {
                    Contents::Empty
                },
            ),
            end.actions@ == if posix {
                seq![FsAction::MakeBinExecutable]
            } else {
                Seq::<FsAction>::empty()
            },
            end.complete.candidate@ == self.candidate(),
            end.complete.version@ == self.version(),
            end.complete.path@ == version_dir_of(home@, self.candidate(), self.version()),
            end.complete.success,
            option_view(end.complete.message) == Some("Installation completed successfully"@),
    {
        let contents = if self.extracted > 0 {
            Contents::Filled
        } else {
            Contents::Empty
        };
        dir.put_version(self.version.as_str(), contents);
        let mut actions: Vec<FsAction> = Vec::new();
        if posix {
            actions.push(FsAction::MakeBinExecutable);
        }
        let path = version_dir(home, self.candidate.as_str(), self.version.as_str());
        InstallFinish {
            actions,
            complete: InstallComplete {
                candidate: self.candidate,
                version: self.version,
                path,
                success: true,
                message: Some(String::from_str("Installation completed successfully")),
            },
        }
    }
}

} // verus!
