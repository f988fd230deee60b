//! The installer's per-package decisions. Each job moves through
//! `Queued → Resolving → Downloading → Extracting → CopyingToTarget →
//! LockfileUpdate → Done`, with `NpmFallback` reachable on any failure of the
//! registry path and ending in `LockfileUpdate` too. The driver performs each
//! returned action and hands back what happened as the next event; the
//! lockfile is touched only inside these steps, never across the driver's I/O.

use vstd::prelude::*;
use crate::cache::{
    cache_entry_name, cache_scratch_name, cache_tarball_name, entry_name, is_sole_directory,
    package_root, scratch_name, tarball_name, unquote_range, unquoted,
};
use crate::lockfile::{key_of, package_key, EntryView, LockFile, LockFileView};
use crate::resolver::ResolveError;
use crate::registry::{
    encoded_name, reads_metadata, registry_url, resolve_from_metadata, FetchError, Resolution, REGISTRY_BASE,
};

verus! {

/// One declared dependency to install.
pub struct Job {
    pub name: String,
    /// The requested range, without surrounding quote marks.
    pub range: String,
    pub is_dev: bool,
}

impl Job {
    /// A job for a manifest entry; quote marks around the range are dropped.
    pub fn new(name: &str, raw_range: &str, is_dev: bool) -> (r: Job)
        ensures
            r.name@ == name@,
            r.range@ == unquoted(raw_range@),
            r.is_dev == is_dev,
    {
        Job { name: String::from_str(name), range: String::from_str(unquote_range(raw_range)), is_dev }
    }
}

/// The command line that installs one package with the external npm client.
pub open spec fn npm_command(name: Seq<char>, range: Seq<char>, is_dev: bool) -> Seq<char> {
    if is_dev {
        "npm install "@ + "--save-dev "@ + key_of(name, range)
    } else {
        "npm install "@ + key_of(name, range)
    }
}

pub fn npm_install_command(job: &Job) -> (r: String)
    ensures
        r@ == npm_command(job.name@, job.range@, job.is_dev),
{
    let mut cmd = String::from_str("npm install ");
    if job.is_dev {
        cmd.append("--save-dev ");
    }
    let spec = package_key(job.name.as_str(), job.range.as_str());
    cmd.append(spec.as_str());
    cmd
}

/// The record of a package handed to the external installer: no tarball, and
/// the requested range stands in for the resolved version.
pub open spec fn fallback_entry(name: Seq<char>, range: Seq<char>) -> EntryView {
    EntryView {
        name,
        version: range,
        tarball_url: None,
        use_npm_fallback: true,
        resolved_version: range,
    }
}

/// The record of a package installed from the registry.
pub open spec fn registry_entry(name: Seq<char>, range: Seq<char>, resolved: Seq<char>, url: Seq<char>) -> EntryView {
    EntryView {
        name,
        version: range,
        tarball_url: Some(url),
        use_npm_fallback: false,
        resolved_version: resolved,
    }
}

/// Whether the lockfile already sends this package to the external installer.
pub open spec fn recorded_fallback(lock: LockFileView, name: Seq<char>, range: Seq<char>) -> bool {
    lock.packages.contains_key(key_of(name, range)) && lock.packages[key_of(name, range)].use_npm_fallback
}

/// Where a job stands; the downloading and extracting stages carry the
/// resolution they work on.
pub enum Stage {
    Queued,
    Resolving,
    Downloading { resolution: Resolution },
    Extracting { resolution: Resolution },
    CopyingToTarget,
    NpmFallback,
    LockfileUpdate,
    Done,
}

/// What the driver observed after performing the last action.
pub enum Event {
    Started,
    /// The metadata document, or `None` where the request failed.
    MetadataFetched(Option<String>),
    /// The top-level entries of the unpacked archive as (name, is directory),
    /// or `None` where downloading or unpacking failed.
    Unpacked(Option<Vec<(String, bool)>>),
    /// Whether the package directory's contents were moved into the cache entry.
    Promoted(bool),
    /// Whether the cache entry was copied into the dependency directory.
    Copied(bool),
    /// Whether the external installer succeeded.
    NpmFinished(bool),
    /// Whether the lockfile was written.
    Saved(bool),
}

/// What the driver is to do next. Names of cache files are relative to the
/// cache directory.
pub enum Action {
    FetchMetadata { url: String },
    /// Remove `entry`, `tarball` and `scratch` if present, download `tarball_url`
    /// to `tarball`, unpack it into `scratch`, and list what it holds.
    Download { tarball_url: String, entry: String, tarball: String, scratch: String },
    /// Move the children of `root` inside `scratch` into `entry`, replacing
    /// children of the same name, then remove `scratch` and `tarball`.
    Promote { scratch: String, root: String, entry: String, tarball: String },
    /// Replace the dependency directory's `package` with a copy of `entry`.
    CopyToTarget { entry: String, package: String },
    /// Run the external installer; `reason` is the registry path's failure, if any.
    RunNpm { command: String, reason: Option<FetchError> },
    SaveLockfile,
    Finish,
    Nothing,
}

/// The action runs the external installer, giving `reason` as the cause.
pub open spec fn runs_npm_because(a: Action, reason: Option<FetchError>) -> bool {
    a matches Action::RunNpm { reason: q, .. } && q == reason
}

/// A job and its stage.
pub struct JobRun {
    pub job: Job,
    pub stage: Stage,
}

/// The job was handed to the external installer: the lockfile records the
/// fallback and the command is the npm install of the exact requested range.
pub open spec fn fell_back(job: Job, before: LockFileView, after: LockFileView, next: JobRun, a: Action) -> bool {
    &&& next.stage is NpmFallback
    &&& a matches Action::RunNpm { command, .. } && command@ == npm_command(job.name@, job.range@, job.is_dev)
    &&& after.version == before.version
    &&& after.packages == before.packages.insert(key_of(job.name@, job.range@), fallback_entry(job.name@, job.range@))
}

/// The registry path goes on to the download of the selected version, and
/// the lockfile is not touched.
pub open spec fn goes_to_download(job: Job, res: Resolution, before: LockFileView, after: LockFileView, next: JobRun, a: Action) -> bool {
    let entry = entry_name(job.name@, job.range@);
    &&& next.stage matches Stage::Downloading { resolution } && resolution.version@ == res.version@
        && resolution.tarball_url@ == res.tarball_url@
    &&& a matches Action::Download { tarball_url, entry: e, tarball, scratch }
        && tarball_url@ == res.tarball_url@ && e@ == entry && tarball@ == tarball_name(entry)
        && scratch@ == scratch_name(entry)
    &&& after == before
}

/// What acting on a resolution outcome does.
pub open spec fn settle_post(job: Job, outcome: Result<Resolution, FetchError>, before: LockFileView, after: LockFileView, next: JobRun, a: Action) -> bool {
    match outcome {
        Ok(res) => goes_to_download(job, res, before, after, next, a),
        Err(e) => fell_back(job, before, after, next, a) && runs_npm_because(a, Some(e)),
    }
}

/// What one step does: the next stage, the action, and the lockfile after it,
/// for each stage and event.
pub open spec fn step_post(run: JobRun, event: Event, force: bool, before: LockFileView, after: LockFileView, next: JobRun, a: Action) -> bool {
    let job = run.job;
    let entry = entry_name(job.name@, job.range@);
    match (run.stage, event) {
        (Stage::Queued, Event::Started) =>
            if recorded_fallback(before, job.name@, job.range@) {
                fell_back(job, before, after, next, a)
            } else {
                &&& next.stage is Resolving
                &&& a matches Action::FetchMetadata { url } && url@ == REGISTRY_BASE@ + encoded_name(job.name@)
                &&& after == before
            },
        (Stage::Resolving, Event::MetadataFetched(None)) =>
            fell_back(job, before, after, next, a)
                && runs_npm_because(a, Some(FetchError::RegistryUnavailable)),
        (Stage::Resolving, Event::MetadataFetched(Some(body))) =>
            exists|outcome: Result<Resolution, FetchError>|
                reads_metadata(body@, job.range@, force, outcome) && settle_post(job, outcome, before, after, next, a),
        (Stage::Downloading { resolution }, Event::Unpacked(Some(listing))) =>
            if exists|i: int| is_sole_directory(listing@, i) {
                &&& next.stage matches Stage::Extracting { resolution: kept } && kept == resolution
                &&& a matches Action::Promote { scratch, root, entry: e, tarball }
                    && scratch@ == scratch_name(entry) && e@ == entry && tarball@ == tarball_name(entry)
                    && exists|i: int| is_sole_directory(listing@, i) && root@ == listing@[i].0@
                &&& after == before
            } else {
                fell_back(job, before, after, next, a)
                    && runs_npm_because(a, Some(FetchError::ArchiveLayout))
            },
        (Stage::Downloading { .. }, Event::Unpacked(None)) =>
            fell_back(job, before, after, next, a)
                && runs_npm_because(a, Some(FetchError::TransferFailed)),
        (Stage::Extracting { resolution }, Event::Promoted(true)) => {
            &&& next.stage is CopyingToTarget
            &&& a matches Action::CopyToTarget { entry: e, package } && e@ == entry && package@ == job.name@
            &&& after.version == before.version
            &&& after.packages == before.packages.insert(
                key_of(job.name@, job.range@),
                registry_entry(job.name@, job.range@, resolution.version@, resolution.tarball_url@),
            )
        },
        (Stage::Extracting { .. }, Event::Promoted(false)) =>
            fell_back(job, before, after, next, a)
                && runs_npm_because(a, Some(FetchError::TransferFailed)),
        (Stage::CopyingToTarget, Event::Copied(_)) =>
            next.stage is LockfileUpdate && a is SaveLockfile && after == before,
        (Stage::NpmFallback, Event::NpmFinished(_)) =>
            next.stage is LockfileUpdate && a is SaveLockfile && after == before,
        (Stage::LockfileUpdate, Event::Saved(_)) =>
            next.stage is Done && a is Finish && after == before,
        _ => next.stage == run.stage && a is Nothing && after == before,
    }
}

impl JobRun {
    pub fn new(job: Job) -> (r: JobRun)
        ensures
            r.job == job,
            r.stage is Queued,
    {
        JobRun { job, stage: Stage::Queued }
    }

    fn fall_back(self, lock: &mut LockFile, reason: Option<FetchError>) -> (r: (JobRun, Action))
        requires
            old(lock).wf(),
        ensures
            final(lock).wf(),
            r.0.job == self.job,
            fell_back(self.job, old(lock)@, final(lock)@, r.0, r.1),
            runs_npm_because(r.1, reason),
    {
        let job = self.job;
        lock.add_package(job.name.clone(), job.range.clone(), None, true, job.range.clone());
        let command = npm_install_command(&job);
        (JobRun { job, stage: Stage::NpmFallback }, Action::RunNpm { command, reason })
    }

    /// Acts on the outcome of resolution: a selected version is downloaded into
    /// a clean cache entry, any failure goes to the external installer.
    pub fn settle_resolution(self, lock: &mut LockFile, outcome: Result<Resolution, FetchError>) -> (r: (JobRun, Action))
        requires
            old(lock).wf(),
        ensures
            final(lock).wf(),
            r.0.job == self.job,
            settle_post(self.job, outcome, old(lock)@, final(lock)@, r.0, r.1),
    {
        match outcome {
            Ok(res) => {
                let entry = cache_entry_name(self.job.name.as_str(), self.job.range.as_str());
                let tarball = cache_tarball_name(entry.as_str());
                let scratch = cache_scratch_name(entry.as_str());
                let url = res.tarball_url.clone();
                (
                    JobRun { job: self.job, stage: Stage::Downloading { resolution: res } },
                    Action::Download { tarball_url: url, entry, tarball, scratch },
                )
            },
            Err(e) => self.fall_back(lock, Some(e)),
        }
    }

    /// Advances the job by one event. An event that does not fit the stage
    /// changes nothing.
    pub fn step(self, lock: &mut LockFile, event: Event, force: bool) -> (r: (JobRun, Action))
        requires
            old(lock).wf(),
        ensures
            final(lock).wf(),
            r.0.job == self.job,
            step_post(self, event, force, old(lock)@, final(lock)@, r.0, r.1),
    {
        let ghost stage0 = self.stage;
        match (self.stage, event) {
            (Stage::Queued, Event::Started) => {
                if lock.should_use_npm(self.job.name.as_str(), self.job.range.as_str()) {
                    JobRun { job: self.job, stage: Stage::Queued }.fall_back(lock, None)
                } else {
                    let url = registry_url(self.job.name.as_str());
                    (JobRun { job: self.job, stage: Stage::Resolving }, Action::FetchMetadata { url })
                }
            },
            (Stage::Resolving, Event::MetadataFetched(None)) => {
                JobRun { job: self.job, stage: Stage::Resolving }.fall_back(lock, Some(FetchError::RegistryUnavailable))
            },
            (Stage::Resolving, Event::MetadataFetched(Some(body))) => {
                let outcome = resolve_from_metadata(body.as_str(), self.job.range.as_str(), force);
                JobRun { job: self.job, stage: Stage::Resolving }.settle_resolution(lock, outcome)
            },
            (Stage::Downloading { resolution }, Event::Unpacked(Some(listing))) => {
                match package_root(&listing) {
                    Some(i) => {
                        let entry = cache_entry_name(self.job.name.as_str(), self.job.range.as_str());
                        let tarball = cache_tarball_name(entry.as_str());
                        let scratch = cache_scratch_name(entry.as_str());
                        let root = listing[i].0.clone();
                        (
                            JobRun { job: self.job, stage: Stage::Extracting { resolution } },
                            Action::Promote { scratch, root, entry, tarball },
                        )
                    },
                    None => {
                        JobRun { job: self.job, stage: Stage::Queued }.fall_back(lock, Some(FetchError::ArchiveLayout))
                    },
                }
            },
            (Stage::Downloading { .. }, Event::Unpacked(None)) => {
                JobRun { job: self.job, stage: Stage::Queued }.fall_back(lock, Some(FetchError::TransferFailed))
            },
            (Stage::Extracting { resolution }, Event::Promoted(true)) => {
                lock.add_package(
                    self.job.name.clone(),
                    self.job.range.clone(),
                    Some(resolution.tarball_url),
                    false,
                    resolution.version,
                );
                let entry = cache_entry_name(self.job.name.as_str(), self.job.range.as_str());
                let package = self.job.name.clone();
                (JobRun { job: self.job, stage: Stage::CopyingToTarget }, Action::CopyToTarget { entry, package })
            },
            (Stage::Extracting { .. }, Event::Promoted(false)) => {
                JobRun { job: self.job, stage: Stage::Queued }.fall_back(lock, Some(FetchError::TransferFailed))
            },
            (Stage::CopyingToTarget, Event::Copied(_)) => {
                (JobRun { job: self.job, stage: Stage::LockfileUpdate }, Action::SaveLockfile)
            },
            (Stage::NpmFallback, Event::NpmFinished(_)) => {
                (JobRun { job: self.job, stage: Stage::LockfileUpdate }, Action::SaveLockfile)
            },
            (Stage::LockfileUpdate, Event::Saved(_)) => {
                (JobRun { job: self.job, stage: Stage::Done }, Action::Finish)
            },
            (stage, _) => (JobRun { job: self.job, stage }, Action::Nothing),
        }
    }
}

/// A package whose recorded outcome is the external installer is not fetched
/// from the registry again: its job goes straight to the fallback, and the
/// fallback stays recorded.
pub proof fn lemma_recorded_fallback_skips_registry(
    run: JobRun,
    force: bool,
    before: LockFileView,
    after: LockFileView,
    next: JobRun,
    a: Action,
)
    requires
        run.stage is Queued,
        recorded_fallback(before, run.job.name@, run.job.range@),
        step_post(run, Event::Started, force, before, after, next, a),
    ensures
        next.stage is NpmFallback,
        a is RunNpm,
        recorded_fallback(after, run.job.name@, run.job.range@),
{
}

/// Whenever a job falls back, the lockfile records the fallback for its name and range.
pub proof fn lemma_fallback_is_recorded(job: Job, before: LockFileView, after: LockFileView, next: JobRun, a: Action)
    requires
        fell_back(job, before, after, next, a),
    ensures
        recorded_fallback(after, job.name@, job.range@),
        after.packages[key_of(job.name@, job.range@)].resolved_version == job.range@,
        after.packages[key_of(job.name@, job.range@)].tarball_url is None,
{
}

/// A range that no published version satisfies, outside forced mode, sends the
/// job to the external installer: nothing is downloaded and no cache entry is touched.
pub proof fn lemma_unsatisfied_range_downloads_nothing(
    job: Job,
    before: LockFileView,
    after: LockFileView,
    next: JobRun,
    a: Action,
)
    requires
        settle_post(job, Err(FetchError::Resolve(ResolveError::VersionNotFound)), before, after, next, a),
    ensures
        !(a is Download),
        !(a is Promote),
        next.stage is NpmFallback,
{
}

/// The cache entry, archive and scratch directory that a download action names.
pub open spec fn download_paths(a: Action) -> Option<(Seq<char>, Seq<char>, Seq<char>)> {
    match a {
        Action::Download { entry, tarball, scratch, .. } => Some((entry@, tarball@, scratch@)),
        _ => None,
    }
}

/// The archive and scratch names are the entry's `.tgz` and `.tmp` siblings.
pub open spec fn siblings_of_entry(p: Option<(Seq<char>, Seq<char>, Seq<char>)>) -> bool {
    match p {
        Some((entry, tarball, scratch)) => tarball == tarball_name(entry) && scratch == scratch_name(entry),
        None => false,
    }
}

/// Two installs of the same `name@range` download into the same cache entry,
/// and each names for clearing that entry with its `.tgz` and `.tmp` siblings,
/// whatever version either resolved to.
pub proof fn lemma_same_request_same_cache_paths(
    j1: Job,
    res1: Resolution,
    before1: LockFileView,
    after1: LockFileView,
    next1: JobRun,
    a1: Action,
    j2: Job,
    res2: Resolution,
    before2: LockFileView,
    after2: LockFileView,
    next2: JobRun,
    a2: Action,
)
    requires
        j1.name@ == j2.name@,
        j1.range@ == j2.range@,
        goes_to_download(j1, res1, before1, after1, next1, a1),
        goes_to_download(j2, res2, before2, after2, next2, a2),
    ensures
        download_paths(a1) is Some,
        download_paths(a1) == download_paths(a2),
        siblings_of_entry(download_paths(a1)),
{
}

/// Two jobs with different `name@range` keys record their outcomes independently:
/// in either order of completion the records are the same, and a lockfile that
/// started empty holds exactly those two.
pub proof fn lemma_completion_order_irrelevant(
    before: Map<Seq<char>, EntryView>,
    k1: Seq<char>,
    e1: EntryView,
    k2: Seq<char>,
    e2: EntryView,
)
    requires
        k1 != k2,
    ensures
        before.insert(k1, e1).insert(k2, e2) == before.insert(k2, e2).insert(k1, e1),
        before.insert(k1, e1).insert(k2, e2)[k1] == e1,
        before.insert(k1, e1).insert(k2, e2)[k2] == e2,
        before == Map::<Seq<char>, EntryView>::empty() ==> before.insert(k1, e1).insert(k2, e2).dom() == set![k1, k2],
{
    assert(before.insert(k1, e1).insert(k2, e2) =~= before.insert(k2, e2).insert(k1, e1));
    if before == Map::<Seq<char>, EntryView>::empty() {
        assert(before.insert(k1, e1).insert(k2, e2).dom() =~= set![k1, k2]);
    }
}

/// A package name has no `@` past its first character (a scope's mark).
pub open spec fn plain_name(n: Seq<char>) -> bool {
    n.len() > 0 && forall|i: int| 1 <= i < n.len() ==> n[i] != '@'
}

/// Two different package names give different lockfile keys, whatever their
/// ranges, so their jobs never share a record.
pub proof fn lemma_different_names_different_keys(n1: Seq<char>, r1: Seq<char>, n2: Seq<char>, r2: Seq<char>)
    requires
        n1 != n2,
        plain_name(n1),
        plain_name(n2),
    ensures
        key_of(n1, r1) != key_of(n2, r2),
{
    reveal_strlit("@");
    let k1 = key_of(n1, r1);
    let k2 = key_of(n2, r2);
    if k1 == k2 {
        assert(k1[n1.len() as int] == '@');
        assert(k2[n2.len() as int] == '@');
        if n1.len() < n2.len() {
            assert(k2[n1.len() as int] == n2[n1.len() as int]);
        } else if n2.len() < n1.len() {
            assert(k1[n2.len() as int] == n1[n2.len() as int]);
        } else {
            assert forall|i: int| 0 <= i < n1.len() implies n1[i] == n2[i] by {
                assert(k1[i] == n1[i]);
                assert(k2[i] == n2[i]);
            }
            assert(n1 =~= n2);
        }
    }
}

} // verus!
