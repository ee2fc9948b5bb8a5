//! Download tasks and the phase rules that every attempt follows.
use crate::download_options::DownloadOption;
use crate::media::clone_opt_string;
use crate::assets::{file_name_of, parent_of, plain_name, plain_parent, plain_path};
use crate::directory::{join_path, joined};
use crate::sys::{new_uuid, unix_time_millis, windows_host};
use crate::text::{str_eq, str_trim, trim};
use vstd::prelude::*;

verus! {

/// Which browser's sign-in cookies a download uses.
#[derive(Clone, Copy, Debug, PartialEq, Eq, Structural)]
pub enum DownloadAuth {
    Public,
    Chrome,
    Edge,
    Firefox,
}

impl DownloadAuth {
    pub open spec fn browser_spec(self) -> Option<Seq<char>> {
        match self {
            DownloadAuth::Public => None,
            DownloadAuth::Chrome => Some("chrome"@),
            DownloadAuth::Edge => Some("edge"@),
            DownloadAuth::Firefox => Some("firefox"@),
        }
    }

    /// The browser name handed to the downloader, if any.
    pub fn browser(self) -> (r: Option<&'static str>)
        ensures
            match r {
                Some(s) => self.browser_spec() == Some(s@),
                None => self.browser_spec() is None,
            },
    {
        proof {
            reveal_strlit("chrome");
            reveal_strlit("edge");
            reveal_strlit("firefox");
        }
        match self {
            DownloadAuth::Public => None,
            DownloadAuth::Chrome => Some("chrome"),
            DownloadAuth::Edge => Some("edge"),
            DownloadAuth::Firefox => Some("firefox"),
        }
    }
}

/// One file of a download's publication journal.
#[derive(Debug)]
pub struct DownloadFile {
    pub source_name: String,
    pub output_name: String,
    pub stamp: String,
}

impl Clone for DownloadFile {
    fn clone(&self) -> (r: Self)
        ensures
            r == *self,
    {
        DownloadFile {
            source_name: self.source_name.clone(),
            output_name: self.output_name.clone(),
            stamp: self.stamp.clone(),
        }
    }
}

fn clone_files(v: &Vec<DownloadFile>) -> (r: Vec<DownloadFile>)
    ensures
        r@ == v@,
{
    let mut r: Vec<DownloadFile> = Vec::new();
    let mut i: usize = 0;
    while i < v.len()
        invariant
            i <= v.len(),
            r@ == v@.take(i as int),
        decreases v.len() - i,
    {
        r.push(v[i].clone());
        i += 1;
        assert(r@ =~= v@.take(i as int));
    }
    assert(v@.take(v.len() as int) =~= v@);
    r
}

fn clone_options(v: &Vec<DownloadOption>) -> (r: Vec<DownloadOption>)
    ensures
        r@ == v@,
{
    let mut r: Vec<DownloadOption> = Vec::new();
    let mut i: usize = 0;
    while i < v.len()
        invariant
            i <= v.len(),
            r@ == v@.take(i as int),
        decreases v.len() - i,
    {
        r.push(v[i].clone());
        i += 1;
        assert(r@ =~= v@.take(i as int));
    }
    assert(v@.take(v.len() as int) =~= v@);
    r
}

/// How far a running attempt has come; figures are binary64 bit patterns.
#[derive(Clone, Copy, Debug, PartialEq, Eq, Structural)]
pub struct DownloadProgress {
    pub percent: Option<u64>,
    pub speed: Option<u64>,
    pub eta: Option<u64>,
}

/// What the user asks a download task to do next.
#[derive(Debug)]
pub enum DownloadAction {
    Resolve(DownloadAuth),
    Select { option_id: String, attempt: u64 },
    Retry,
}

#[derive(Clone, Copy, Debug, PartialEq, Eq, Structural)]
pub enum DownloadPhase {
    Resolving,
    AwaitingSelection,
    Downloading,
    Verifying,
    Publishing,
    Completed,
    Failed,
    Canceled,
    Interrupted,
    RecoveryRequired,
}

impl DownloadPhase {
    /// A worker may still be running in this phase.
    pub open spec fn active(self) -> bool {
        self == DownloadPhase::Resolving || self == DownloadPhase::Downloading || self
            == DownloadPhase::Verifying || self == DownloadPhase::Publishing
    }

    pub fn is_active(self) -> (r: bool)
        ensures
            r == self.active(),
    {
        match self {
            DownloadPhase::Resolving
            | DownloadPhase::Downloading
            | DownloadPhase::Verifying
            | DownloadPhase::Publishing => true,
            _ => false,
        }
    }
}

/// The bookkeeping of a download task that its phase rules read and write.
/// Paths are held as text.
#[derive(Debug)]
pub struct DownloadJob {
    pub id: String,
    pub url: String,
    pub title: String,
    pub media_id: Option<String>,
    pub attempt: u64,
    pub phase: DownloadPhase,
    /// The directory of the last attempt; history only.
    pub directory: Option<String>,
    pub output_path: Option<String>,
    /// The publication journal, written before any file moves.
    pub publication: Vec<DownloadFile>,
    pub error: Option<String>,
    pub interrupt_reason: Option<String>,
    pub created_at: u64,
    pub auth: DownloadAuth,
    pub options: Vec<DownloadOption>,
    pub selection: Option<String>,
    /// Seconds, as binary64 bits.
    pub expected_duration: Option<u64>,
    pub progress: Option<DownloadProgress>,
}

impl DownloadJob {
    /// The fields that no phase rule touches are the same in both jobs.
    pub open spec fn same_identity(self, other: Self) -> bool {
        &&& self.id == other.id
        &&& self.url == other.url
        &&& self.title == other.title
        &&& self.media_id == other.media_id
        &&& self.created_at == other.created_at
        &&& self.auth == other.auth
        &&& self.selection == other.selection
        &&& self.publication@ == other.publication@
        &&& self.options@ == other.options@
        &&& self.expected_duration == other.expected_duration
        &&& self.progress == other.progress
    }

    /// A new task for `url` with a fresh random identity, created now.
    pub fn new(url: String) -> (r: Result<Self, String>)
        ensures
            match r {
                Ok(job) => {
                    &&& crate::download::is_uuid(job.id@)
                    &&& job.url == url
                    &&& job.title == url
                    &&& job.media_id is None
                    &&& job.attempt == 0
                    &&& job.phase == DownloadPhase::Interrupted
                    &&& job.directory is None
                    &&& job.output_path is None
                    &&& job.error is None
                    &&& job.interrupt_reason is None
                    &&& job.auth == DownloadAuth::Public
                    &&& job.selection is None
                    &&& job.publication@.len() == 0
                    &&& job.options@.len() == 0
                    &&& job.expected_duration is None
                    &&& job.progress is None
                },
                Err(e) => e@ == "Download timestamp overflow"@ || crate::text::starts_with(
                    e@,
                    "无法读取下载任务时间："@,
                ),
            },
    {
        let millis = match unix_time_millis() {
            Ok(m) => m,
            Err(e) => {
                let mut message = String::from_str("无法读取下载任务时间：");
                message.append(e.as_str());
                proof {
                    reveal_strlit("无法读取下载任务时间：");
                    let prefix = "无法读取下载任务时间："@;
                    assert(message@.take(prefix.len() as int) =~= prefix);
                }
                return Err(message);
            },
        };
        if millis > u64::MAX as u128 {
            return Err(String::from_str("Download timestamp overflow"));
        }
        Ok(Self::with_identity(new_uuid(), url, millis as u64))
    }

    /// A task for `url`, not yet started, titled by its URL.
    pub fn with_identity(id: String, url: String, created_at: u64) -> (r: Self)
        ensures
            r.id == id,
            r.url == url,
            r.title == url,
            r.media_id is None,
            r.attempt == 0,
            r.phase == DownloadPhase::Interrupted,
            r.directory is None,
            r.output_path is None,
            r.error is None,
            r.interrupt_reason is None,
            r.created_at == created_at,
            r.auth == DownloadAuth::Public,
            r.selection is None,
            r.publication@.len() == 0,
            r.options@.len() == 0,
            r.expected_duration is None,
            r.progress is None,
    {
        DownloadJob {
            id,
            title: url.clone(),
            url,
            media_id: None,
            attempt: 0,
            phase: DownloadPhase::Interrupted,
            directory: None,
            output_path: None,
            error: None,
            interrupt_reason: None,
            publication: Vec::new(),
            created_at,
            auth: DownloadAuth::Public,
            options: Vec::new(),
            selection: None,
            expected_duration: None,
            progress: None,
        }
    }

    /// A copy of the job with the given phase-rule fields.
    fn with(
        &self,
        attempt: u64,
        phase: DownloadPhase,
        directory: Option<String>,
        output_path: Option<String>,
        error: Option<String>,
        interrupt_reason: Option<String>,
    ) -> (r: Self)
        ensures
            r.same_identity(*self),
            r.attempt == attempt,
            r.phase == phase,
            r.directory == directory,
            r.output_path == output_path,
            r.error == error,
            r.interrupt_reason == interrupt_reason,
    {
        DownloadJob {
            id: self.id.clone(),
            url: self.url.clone(),
            title: self.title.clone(),
            media_id: clone_opt_string(&self.media_id),
            attempt,
            phase,
            directory,
            output_path,
            error,
            interrupt_reason,
            publication: clone_files(&self.publication),
            created_at: self.created_at,
            auth: self.auth,
            options: clone_options(&self.options),
            selection: clone_opt_string(&self.selection),
            expected_duration: self.expected_duration,
            progress: self.progress,
        }
    }

    /// Both jobs hold the same data (their lists compared by view).
    pub open spec fn same_job(self, other: Self) -> bool {
        &&& self.same_identity(other)
        &&& self.attempt == other.attempt
        &&& self.phase == other.phase
        &&& self.directory == other.directory
        &&& self.output_path == other.output_path
        &&& self.error == other.error
        &&& self.interrupt_reason == other.interrupt_reason
    }

    /// A phase from which a new attempt may start.
    pub open spec fn can_start(self) -> bool {
        !self.phase.active() && self.phase != DownloadPhase::Completed && self.phase
            != DownloadPhase::RecoveryRequired
    }

    /// Starts a new attempt in `directory`, the current download directory.
    pub fn start_attempt(&self, directory: String) -> (r: Result<Self, String>)
        ensures
            match r {
                Ok(job) => {
                    &&& self.can_start()
                    &&& self.attempt < u64::MAX
                    &&& job.same_identity(*self)
                    &&& job.attempt == self.attempt + 1
                    &&& job.phase == DownloadPhase::Resolving
                    &&& job.directory == Some(directory)
                    &&& job.output_path is None
                    &&& job.error is None
                    &&& job.interrupt_reason is None
                },
                Err(e) => if !self.can_start() {
                    e@ == "当前任务状态不能重新开始下载"@
                } else {
                    self.attempt == u64::MAX && e@ == "Download attempt overflow"@
                },
            },
    {
        proof {
            reveal_strlit("当前任务状态不能重新开始下载");
            reveal_strlit("Download attempt overflow");
        }
        if self.phase.is_active() || self.phase == DownloadPhase::Completed || self.phase
            == DownloadPhase::RecoveryRequired {
            return Err(String::from_str("当前任务状态不能重新开始下载"));
        }
        if self.attempt == u64::MAX {
            return Err(String::from_str("Download attempt overflow"));
        }
        Ok(self.with(self.attempt + 1, DownloadPhase::Resolving, Some(directory), None, None, None))
    }

    /// Ends attempt `attempt` in `phase`, if that attempt is still the
    /// current one and still active; returns whether it did.
    pub fn finish_attempt(
        &self,
        attempt: u64,
        phase: DownloadPhase,
        error: Option<String>,
        reason: Option<String>,
    ) -> (r: (Self, bool))
        ensures
            r.1 == (self.attempt == attempt && self.phase.active()),
            r.1 ==> {
                &&& r.0.same_identity(*self)
                &&& r.0.attempt == self.attempt
                &&& r.0.phase == phase
                &&& r.0.error == error
                &&& r.0.interrupt_reason == reason
                &&& r.0.directory == self.directory
                &&& r.0.output_path == self.output_path
            },
            !r.1 ==> r.0.same_job(*self),
    {
        if self.attempt != attempt || !self.phase.is_active() {
            return (self.with(
                self.attempt,
                self.phase,
                clone_opt_string(&self.directory),
                clone_opt_string(&self.output_path),
                clone_opt_string(&self.error),
                clone_opt_string(&self.interrupt_reason),
            ), false);
        }
        (self.with(
            self.attempt,
            phase,
            clone_opt_string(&self.directory),
            clone_opt_string(&self.output_path),
            error,
            reason,
        ), true)
    }

    /// A publication that was being committed, or that needs recovery,
    /// must have its journal restored before anything else.
    pub open spec fn needs_restore(self) -> bool {
        self.phase == DownloadPhase::Publishing || self.phase == DownloadPhase::RecoveryRequired
    }

    pub fn publication_pending(&self) -> (r: bool)
        ensures
            r == self.needs_restore(),
    {
        self.phase == DownloadPhase::Publishing || self.phase == DownloadPhase::RecoveryRequired
    }

    /// `r` is what startup recovery makes of this job: a job that was
    /// running or awaited recovery becomes interrupted because the
    /// application closed (`Some`); others are kept (`None`).
    pub open spec fn recovery_of(self, r: Option<Self>) -> bool {
        match r {
            Some(job) => {
                &&& (self.phase.active() || self.phase == DownloadPhase::RecoveryRequired)
                &&& job.same_identity(self)
                &&& job.attempt == self.attempt
                &&& job.phase == DownloadPhase::Interrupted
                &&& job.interrupt_reason matches Some(s) && s@ == "app_closed"@
                &&& job.output_path is None
                &&& job.error is None
                &&& job.directory == self.directory
            },
            None => !(self.phase.active() || self.phase == DownloadPhase::RecoveryRequired),
        }
    }

    /// What startup recovery makes of a job, once any pending publication
    /// was restored; see [`DownloadJob::recovery_of`].
    pub fn recovered(&self) -> (r: Option<Self>)
        ensures
            self.recovery_of(r),
    {
        proof {
            reveal_strlit("app_closed");
        }
        if self.phase.is_active() || self.phase == DownloadPhase::RecoveryRequired {
            Some(self.with(
                self.attempt,
                DownloadPhase::Interrupted,
                clone_opt_string(&self.directory),
                None,
                None,
                Some(String::from_str("app_closed")),
            ))
        } else {
            None
        }
    }

    /// After a restored publication outside startup: the job waits, interrupted,
    /// with no output; its error and reason are kept.
    pub fn publication_restored(&self) -> (r: Self)
        ensures
            r.same_identity(*self),
            r.attempt == self.attempt,
            r.phase == DownloadPhase::Interrupted,
            r.output_path is None,
            r.error == self.error,
            r.interrupt_reason == self.interrupt_reason,
            r.directory == self.directory,
    {
        self.with(
            self.attempt,
            DownloadPhase::Interrupted,
            clone_opt_string(&self.directory),
            None,
            clone_opt_string(&self.error),
            clone_opt_string(&self.interrupt_reason),
        )
    }
}

/// The progress that a running attempt reported; figures are held as
/// binary64 bit patterns.
#[derive(Debug)]
pub struct RuntimeTask {
    pub attempt: u64,
    pub progress: Option<DownloadProgress>,
    pub error: Option<String>,
}

impl DownloadJob {
    /// The job once attempt `attempt` has resolved its media: it records the
    /// media and its title and starts downloading, unless the attempt is no
    /// longer current and active, or another running task holds that media.
    pub fn media_resolved(&self, attempt: u64, media_id: String, title: String, other_running: bool) -> (r: Result<Self, String>)
        ensures
            !(self.attempt == attempt && self.phase.active()) ==> (r matches Err(e) && e@
                == "下载任务已停止或已开始新的尝试"@),
            (self.attempt == attempt && self.phase.active()) && other_running ==> (r matches Err(e)
                && e@ == "该媒体已有正在进行的下载任务"@),
            (self.attempt == attempt && self.phase.active()) && !other_running ==> (r matches Ok(job)
                && {
                &&& job.id == self.id
                &&& job.url == self.url
                &&& job.title == title
                &&& job.media_id == Some(media_id)
                &&& job.created_at == self.created_at
                &&& job.auth == self.auth
                &&& job.selection == self.selection
                &&& job.publication@ == self.publication@
                &&& job.options@ == self.options@
                &&& job.expected_duration == self.expected_duration
                &&& job.progress == self.progress
                &&& job.attempt == self.attempt
                &&& job.phase == DownloadPhase::Downloading
                &&& job.directory == self.directory
                &&& job.output_path == self.output_path
                &&& job.error == self.error
                &&& job.interrupt_reason == self.interrupt_reason
            }),
    {
        if self.attempt != attempt || !self.phase.is_active() {
            return Err(String::from_str("下载任务已停止或已开始新的尝试"));
        }
        if other_running {
            return Err(String::from_str("该媒体已有正在进行的下载任务"));
        }
        Ok(DownloadJob {
            id: self.id.clone(),
            url: self.url.clone(),
            title,
            media_id: Some(media_id),
            attempt: self.attempt,
            phase: DownloadPhase::Downloading,
            directory: clone_opt_string(&self.directory),
            output_path: clone_opt_string(&self.output_path),
            publication: clone_files(&self.publication),
            error: clone_opt_string(&self.error),
            interrupt_reason: clone_opt_string(&self.interrupt_reason),
            created_at: self.created_at,
            auth: self.auth,
            options: clone_options(&self.options),
            selection: clone_opt_string(&self.selection),
            expected_duration: self.expected_duration,
            progress: self.progress,
        })
    }

    /// The job as its publication begins: attempt `attempt` must still be
    /// downloading; the output path is recorded for recovery.
    pub fn publishing(&self, attempt: u64, output_path: Option<String>) -> (r: Result<Self, String>)
        ensures
            !(self.attempt == attempt && self.phase == DownloadPhase::Downloading) ==> (r matches Err(e)
                && e@ == "下载任务已停止"@),
            (self.attempt == attempt && self.phase == DownloadPhase::Downloading) ==> (r matches Ok(job)
                && {
                &&& job.same_identity(*self)
                &&& job.attempt == self.attempt
                &&& job.phase == DownloadPhase::Publishing
                &&& job.output_path == output_path
                &&& job.directory == self.directory
                &&& job.error == self.error
                &&& job.interrupt_reason == self.interrupt_reason
            }),
    {
        if self.attempt != attempt || self.phase != DownloadPhase::Downloading {
            return Err(String::from_str("下载任务已停止"));
        }
        Ok(self.with(
            self.attempt,
            DownloadPhase::Publishing,
            clone_opt_string(&self.directory),
            output_path,
            clone_opt_string(&self.error),
            clone_opt_string(&self.interrupt_reason),
        ))
    }

    /// The job after its publication failed with `error`, given whether the
    /// files could be moved back: if so the attempt failed and has no output;
    /// otherwise it needs recovery and the error names both failures.
    pub fn publication_failed(&self, error: String, rollback: Result<(), String>) -> (r: (Self, String))
        ensures
            r.0.same_identity(*self),
            r.0.attempt == self.attempt,
            r.0.directory == self.directory,
            r.0.interrupt_reason == self.interrupt_reason,
            r.0.error == Some(r.1),
            match rollback {
                Ok(()) => {
                    &&& r.0.phase == DownloadPhase::Failed
                    &&& r.0.output_path is None
                    &&& r.1 == error
                },
                Err(recovery) => {
                    &&& r.0.phase == DownloadPhase::RecoveryRequired
                    &&& r.0.output_path == self.output_path
                    &&& r.1@ == error@ + "; "@ + recovery@
                },
            },
    {
        match rollback {
            Ok(()) => {
                let job = self.with(
                    self.attempt,
                    DownloadPhase::Failed,
                    clone_opt_string(&self.directory),
                    None,
                    Some(error.clone()),
                    clone_opt_string(&self.interrupt_reason),
                );
                (job, error)
            },
            Err(recovery) => {
                let mut message = error;
                message.append("; ");
                message.append(recovery.as_str());
                proof {
                    reveal_strlit("; ");
                }
                let job = self.with(
                    self.attempt,
                    DownloadPhase::RecoveryRequired,
                    clone_opt_string(&self.directory),
                    clone_opt_string(&self.output_path),
                    Some(message.clone()),
                    clone_opt_string(&self.interrupt_reason),
                );
                (job, message)
            },
        }
    }
}

/// How a worker's failed attempt ends, given the stored job: nothing changes
/// unless that attempt is still current and active; a failure while
/// publishing fails cleanly when the files could be restored and otherwise
/// needs recovery, with both errors named.
pub fn attempt_failure(
    current: &DownloadJob,
    attempt: u64,
    error: String,
    restore: Option<Result<(), String>>,
) -> (r: Option<(DownloadPhase, String)>)
    requires
        current.phase == DownloadPhase::Publishing ==> restore is Some,
    ensures
        !(current.attempt == attempt && current.phase.active()) ==> r is None,
        (current.attempt == attempt && current.phase.active()) ==> match r {
            Some((phase, message)) => if current.phase == DownloadPhase::Publishing {
                match restore {
                    Some(Ok(())) => phase == DownloadPhase::Failed && message == error,
                    Some(Err(recovery)) => phase == DownloadPhase::RecoveryRequired && message@
                        == error@ + "; "@ + recovery@,
                    None => false,
                }
            } else {
                phase == DownloadPhase::Failed && message == error
            },
            None => false,
        },
{
    if current.attempt != attempt || !current.phase.is_active() {
        return None;
    }
    if current.phase == DownloadPhase::Publishing {
        match restore {
            Some(Ok(())) => Some((DownloadPhase::Failed, error)),
            Some(Err(recovery)) => {
                let mut message = error;
                message.append("; ");
                message.append(recovery.as_str());
                proof {
                    reveal_strlit("; ");
                }
                Some((DownloadPhase::RecoveryRequired, message))
            },
            None => None,
        }
    } else {
        Some((DownloadPhase::Failed, error))
    }
}

/// What restoring an uncommitted publication does, given whether its bundle
/// directory and its staging directory exist: move the bundle back to
/// staging (`true`), nothing when only staging is left (`false`), or fail
/// when both or neither exist.
pub fn restore_step(destination_exists: bool, staging_exists: bool) -> (r: Result<bool, String>)
    ensures
        destination_exists && staging_exists ==> (r matches Err(e) && e@
            == "下载恢复失败：临时目录和目标目录同时存在"@),
        destination_exists && !staging_exists ==> r == Ok::<bool, String>(true),
        !destination_exists && staging_exists ==> r == Ok::<bool, String>(false),
        !destination_exists && !staging_exists ==> (r matches Err(e) && e@
            == "下载恢复失败：临时文件和目标文件均不存在"@),
{
    if destination_exists {
        if staging_exists {
            Err(String::from_str("下载恢复失败：临时目录和目标目录同时存在"))
        } else {
            Ok(true)
        }
    } else if !staging_exists {
        Err(String::from_str("下载恢复失败：临时文件和目标文件均不存在"))
    } else {
        Ok(false)
    }
}

/// Index of the first job still working on `url`.
pub open spec fn active_job_for(jobs: Seq<DownloadJob>, url: Seq<char>) -> Option<int>
    decreases jobs.len(),
{
    if jobs.len() == 0 {
        None
    } else {
        match active_job_for(jobs.drop_last(), url) {
            Some(i) => Some(i),
            None => if jobs.last().url@ == url && jobs.last().phase.active() {
                Some(jobs.len() - 1)
            } else {
                None
            },
        }
    }
}

/// What submitting `url` leads to: the trimmed address, which must name a
/// media page, and the task already downloading it, if any, which is reused
/// instead of starting another.
pub fn submit_target(jobs: &Vec<DownloadJob>, url: &str) -> (r: Result<(String, Option<String>), String>)
    ensures
        match (r, crate::media::provider_key(trim(url@))) {
            (Ok((u, existing)), Ok(_)) => {
                &&& u@ == trim(url@)
                &&& match active_job_for(jobs@, trim(url@)) {
                    Some(i) => existing == Some(jobs@[i].id),
                    None => existing is None,
                }
            },
            (Err(e), Err(m)) => e@ == m,
            _ => false,
        },
{
    let u = str_trim(url);
    match crate::media::provider_key_for_url(u.as_str()) {
        Ok(_) => {},
        Err(e) => return Err(e),
    }
    let mut i: usize = 0;
    while i < jobs.len()
        invariant
            i <= jobs.len(),
            u@ == trim(url@),
            crate::media::provider_key(trim(url@)) is Ok,
            active_job_for(jobs@.take(i as int), u@) is None,
        decreases jobs.len() - i,
    {
        let ghost t = jobs@.take(i + 1);
        proof {
            assert(t.drop_last() =~= jobs@.take(i as int));
        }
        if str_eq(jobs[i].url.as_str(), u.as_str()) && jobs[i].phase.is_active() {
            proof {
                assert(t.last() == jobs@[i as int]);
                assert(active_job_for(t, u@) == Some(i as int));
                lemma_active_job_prefix(jobs@, u@, i as int + 1);
            }
            return Ok((u, Some(jobs[i].id.clone())));
        }
        i += 1;
    }
    assert(jobs@.take(jobs.len() as int) =~= jobs@);
    Ok((u, None))
}

proof fn lemma_active_job_prefix(jobs: Seq<DownloadJob>, url: Seq<char>, n: int)
    requires
        0 <= n <= jobs.len(),
        active_job_for(jobs.take(n), url) is Some,
    ensures
        active_job_for(jobs, url) == active_job_for(jobs.take(n), url),
    decreases jobs.len() - n,
{
    if n == jobs.len() {
        assert(jobs.take(n) =~= jobs);
    } else {
        let t = jobs.take(n + 1);
        assert(t.drop_last() =~= jobs.take(n));
        lemma_active_job_prefix(jobs, url, n + 1);
    }
}

/// A hexadecimal digit, in either case.
pub open spec fn hex_char(c: char) -> bool {
    ('0' <= c && c <= '9') || ('a' <= c && c <= 'f') || ('A' <= c && c <= 'F')
}

/// The hyphenated form: 36 characters, hyphens at 8, 13, 18 and 23, and
/// hexadecimal digits elsewhere.
pub open spec fn hyphenated_uuid(s: Seq<char>) -> bool {
    &&& s.len() == 36
    &&& forall|i: int|
        0 <= i < 36 ==> if i == 8 || i == 13 || i == 18 || i == 23 {
            #[trigger] s[i] == '-'
        } else {
            hex_char(s[i])
        }
}

/// Whether `s` is a UUID in a form `uuid::Uuid::parse_str` reads: 32
/// hexadecimal digits; the hyphenated form; the hyphenated form in braces;
/// or the hyphenated form after "urn:uuid:" in any letter case.
pub open spec fn is_uuid(s: Seq<char>) -> bool {
    ||| (s.len() == 32 && forall|i: int| 0 <= i < 32 ==> hex_char(#[trigger] s[i]))
    ||| hyphenated_uuid(s)
    ||| (s.len() == 38 && s[0] == '{' && s[37] == '}' && hyphenated_uuid(s.subrange(1, 37)))
    ||| (s.len() == 45 && s.take(9).map_values(|c: char| crate::text::ascii_lower(c))
        == "urn:uuid:"@ && hyphenated_uuid(s.skip(9)))
}

/// `uuid::Uuid::parse_str(s)` succeeds exactly on the forms of [`is_uuid`].
#[verifier::external_body]
fn parses_as_uuid(s: &str) -> (r: bool)
    ensures
        r == is_uuid(s@),
{
    uuid::Uuid::parse_str(s).is_ok()
}

/// Where an attempt's files live: the staging directory the downloader
/// writes into, and the bundle directory they are published to; both under
/// the job's directory and named by its identity and its media's.
pub open spec fn bundle_paths_spec(job: DownloadJob, windows: bool) -> Result<(Seq<char>, Seq<char>), Seq<char>> {
    if !is_uuid(job.id@) {
        Err("Invalid download identity"@)
    } else {
        match job.media_id {
            None => Err("Download media is unresolved"@),
            Some(m) => if !is_uuid(m@) {
                Err("Invalid media identity"@)
            } else {
                match job.directory {
                    None => Err("Download directory is missing"@),
                    Some(root) => Ok(
                        (
                            joined(joined(root@, "downloading"@, windows), job.id@, windows),
                            joined(
                                joined(joined(root@, "media"@, windows), m@, windows),
                                job.id@,
                                windows,
                            ),
                        ),
                    ),
                }
            },
        }
    }
}

/// The staging and bundle directories of `job` under the given path rules.
pub fn bundle_paths_on(job: &DownloadJob, windows: bool) -> (r: Result<(String, String), String>)
    ensures
        match (r, bundle_paths_spec(*job, windows)) {
            (Ok((a, b)), Ok((x, y))) => a@ == x && b@ == y,
            (Err(e), Err(m)) => e@ == m,
            _ => false,
        },
{
    if !parses_as_uuid(job.id.as_str()) {
        return Err(String::from_str("Invalid download identity"));
    }
    let media_id = match &job.media_id {
        Some(m) => m,
        None => return Err(String::from_str("Download media is unresolved")),
    };
    if !parses_as_uuid(media_id.as_str()) {
        return Err(String::from_str("Invalid media identity"));
    }
    let root = match &job.directory {
        Some(d) => d,
        None => return Err(String::from_str("Download directory is missing")),
    };
    proof {
        reveal_strlit("downloading");
        reveal_strlit("media");
    }
    let staging_root = join_path(root.as_str(), "downloading", windows);
    let staging = join_path(staging_root.as_str(), job.id.as_str(), windows);
    let media_root = join_path(root.as_str(), "media", windows);
    let media_dir = join_path(media_root.as_str(), media_id.as_str(), windows);
    let bundle = join_path(media_dir.as_str(), job.id.as_str(), windows);
    Ok((staging, bundle))
}

/// The staging and bundle directories of `job` under this host's path rules.
pub fn bundle_paths(job: &DownloadJob) -> (r: Result<(String, String), String>)
    ensures
        exists|windows: bool|
            match (r, #[trigger] bundle_paths_spec(*job, windows)) {
                (Ok((a, b)), Ok((x, y))) => a@ == x && b@ == y,
                (Err(e), Err(m)) => e@ == m,
                _ => false,
            },
{
    let windows = windows_host();
    bundle_paths_on(job, windows)
}

/// Index of the first option whose identifier is `id`.
pub open spec fn option_index(options: Seq<DownloadOption>, id: Seq<char>) -> Option<int>
    decreases options.len(),
{
    if options.len() == 0 {
        None
    } else if options[0].id@ == id {
        Some(0)
    } else {
        match option_index(options.drop_first(), id) {
            Some(i) => Some(i + 1),
            None => None,
        }
    }
}

/// Index of the first playback file among assets.
pub open spec fn playback_index(assets: Seq<crate::media::MediaAsset>) -> Option<int>
    decreases assets.len(),
{
    if assets.len() == 0 {
        None
    } else if assets[0].kind == crate::media::AssetKind::Playback {
        Some(0)
    } else {
        match playback_index(assets.drop_first()) {
            Some(i) => Some(i + 1),
            None => None,
        }
    }
}

impl DownloadJob {
    /// The job once its published files are committed: attempt `attempt`
    /// must be publishing media `media_id` into `directory`, with a verified
    /// format choice; the job completes with the playback file as output and
    /// its journal cleared. Also gives the media type of the chosen format.
    /// `inside` tells whether every published file lies in the directory.
    pub fn completed(&self, attempt: u64, media_id: &str, directory: &str, assets: &Vec<crate::media::MediaAsset>, inside: bool) -> (r: Result<(Self, crate::media::MediaType), String>)
        ensures
            !(self.attempt == attempt && self.phase.active()) ==> (r matches Err(e) && e@
                == "下载任务已停止或已开始新的尝试"@),
            (self.attempt == attempt && self.phase.active()) ==> if self.phase != DownloadPhase::Publishing {
                r matches Err(e) && e@ == "下载文件尚未通过校验并进入发布阶段"@
            } else if crate::playback::opt_view(self.media_id) != Some(media_id@) || crate::playback::opt_view(
                self.directory,
            ) != Some(directory@) {
                r matches Err(e) && e@ == "下载任务与文件目录不一致"@
            } else if !inside {
                r matches Err(e) && e@ == "下载文件不在当前保存目录中"@
            } else {
                match self.selection {
                    None => r matches Err(e) && e@ == "下载任务缺少已校验的格式选择"@,
                    Some(sel) => match option_index(self.options@, sel@) {
                        None => r matches Err(e) && e@ == "下载任务缺少已校验的格式选择"@,
                        Some(k) => match playback_index(assets@) {
                            None => r matches Err(e) && e@ == "Download has no playback file"@,
                            Some(p) => r matches Ok((job, kind)) && {
                                &&& kind == self.options@[k].media_type
                                &&& job.same_identity_except_journal(*self)
                                &&& job.publication@.len() == 0
                                &&& job.attempt == self.attempt
                                &&& job.phase == DownloadPhase::Completed
                                &&& job.output_path == Some(assets@[p].path)
                                &&& job.error is None
                                &&& job.directory == self.directory
                                &&& job.interrupt_reason == self.interrupt_reason
                            },
                        },
                    },
                }
            },
    {
        if self.attempt != attempt || !self.phase.is_active() {
            return Err(String::from_str("下载任务已停止或已开始新的尝试"));
        }
        if self.phase != DownloadPhase::Publishing {
            return Err(String::from_str("下载文件尚未通过校验并进入发布阶段"));
        }
        let same_media = match &self.media_id {
            Some(m) => crate::text::str_eq(m.as_str(), media_id),
            None => false,
        };
        let same_directory = match &self.directory {
            Some(d) => crate::text::str_eq(d.as_str(), directory),
            None => false,
        };
        if !same_media || !same_directory {
            return Err(String::from_str("下载任务与文件目录不一致"));
        }
        if !inside {
            return Err(String::from_str("下载文件不在当前保存目录中"));
        }
        let sel = match &self.selection {
            Some(s) => s,
            None => return Err(String::from_str("下载任务缺少已校验的格式选择")),
        };
        let mut k: usize = 0;
        let ghost opts = self.options@;
        assert(opts.skip(0) =~= opts);
        while k < self.options.len()
            invariant
                k <= self.options.len(),
                opts == self.options@,
                option_index(opts, sel@) == match option_index(opts.skip(k as int), sel@) {
                    Some(i) => Some(i + k),
                    None => None::<int>,
                },
            ensures
                k <= self.options.len(),
                option_index(opts, sel@) == match option_index(opts.skip(k as int), sel@) {
                    Some(i) => Some(i + k),
                    None => None::<int>,
                },
                k < self.options.len() ==> opts[k as int].id@ == sel@,
            decreases self.options.len() - k,
        {
            assert(opts.skip(k as int)[0] == opts[k as int]);
            assert(opts.skip(k as int).drop_first() =~= opts.skip(k + 1));
            if crate::text::str_eq(self.options[k].id.as_str(), sel.as_str()) {
                break;
            }
            k += 1;
        }
        if k == self.options.len() {
            assert(opts.skip(k as int) =~= Seq::<DownloadOption>::empty());
            return Err(String::from_str("下载任务缺少已校验的格式选择"));
        }
        assert(opts.skip(k as int)[0] == opts[k as int]);
        assert(option_index(opts, sel@) == Some(k as int));
        let kind = self.options[k].media_type;
        let mut p: usize = 0;
        let ghost av = assets@;
        assert(av.skip(0) =~= av);
        while p < assets.len()
            invariant
                p <= assets.len(),
                av == assets@,
                playback_index(av) == match playback_index(av.skip(p as int)) {
                    Some(i) => Some(i + p),
                    None => None::<int>,
                },
            ensures
                p <= assets.len(),
                playback_index(av) == match playback_index(av.skip(p as int)) {
                    Some(i) => Some(i + p),
                    None => None::<int>,
                },
                p < assets.len() ==> av[p as int].kind == crate::media::AssetKind::Playback,
            decreases assets.len() - p,
        {
            assert(av.skip(p as int)[0] == av[p as int]);
            assert(av.skip(p as int).drop_first() =~= av.skip(p + 1));
            if assets[p].kind == crate::media::AssetKind::Playback {
                break;
            }
            p += 1;
        }
        if p == assets.len() {
            assert(av.skip(p as int) =~= Seq::<crate::media::MediaAsset>::empty());
            return Err(String::from_str("Download has no playback file"));
        }
        assert(av.skip(p as int)[0] == av[p as int]);
        assert(playback_index(av) == Some(p as int));
        let job = DownloadJob {
            id: self.id.clone(),
            url: self.url.clone(),
            title: self.title.clone(),
            media_id: clone_opt_string(&self.media_id),
            attempt: self.attempt,
            phase: DownloadPhase::Completed,
            directory: clone_opt_string(&self.directory),
            output_path: Some(assets[p].path.clone()),
            publication: Vec::new(),
            error: None,
            interrupt_reason: clone_opt_string(&self.interrupt_reason),
            created_at: self.created_at,
            auth: self.auth,
            options: clone_options(&self.options),
            selection: clone_opt_string(&self.selection),
            expected_duration: self.expected_duration,
            progress: self.progress,
        };
        Ok((job, kind))
    }

    /// The jobs agree on every field no phase rule touches, the publication
    /// journal aside.
    pub open spec fn same_identity_except_journal(self, other: Self) -> bool {
        &&& self.id == other.id
        &&& self.url == other.url
        &&& self.title == other.title
        &&& self.media_id == other.media_id
        &&& self.created_at == other.created_at
        &&& self.auth == other.auth
        &&& self.selection == other.selection
        &&& self.options@ == other.options@
        &&& self.expected_duration == other.expected_duration
        &&& self.progress == other.progress
    }
}

/// The download tasks as shown, with the number of the snapshot.
#[derive(Debug)]
pub struct DownloadSnapshot {
    pub revision: u64,
    pub jobs: Vec<DownloadJob>,
}

impl DownloadJob {
    /// The job as shown, given what its worker reported at run time: an
    /// active job of the reported attempt shows its progress, and a reported
    /// finalization error shows as that error, awaiting recovery.
    pub fn shown(&self, runtime: Option<&RuntimeTask>) -> (r: Self)
        ensures
            r.id == self.id,
            r.url == self.url,
            r.title == self.title,
            r.media_id == self.media_id,
            r.attempt == self.attempt,
            r.directory == self.directory,
            r.output_path == self.output_path,
            r.publication@ == self.publication@,
            r.interrupt_reason == self.interrupt_reason,
            r.created_at == self.created_at,
            r.auth == self.auth,
            r.options@ == self.options@,
            r.selection == self.selection,
            r.expected_duration == self.expected_duration,
            match runtime {
                Some(t) if t.attempt == self.attempt => {
                    &&& r.progress == (if self.phase.active() {
                        t.progress
                    } else {
                        self.progress
                    })
                    &&& match t.error {
                        Some(e) => r.error == Some(e) && r.phase == DownloadPhase::RecoveryRequired,
                        None => r.error == self.error && r.phase == self.phase,
                    }
                },
                _ => r.progress == self.progress && r.error == self.error && r.phase == self.phase,
            },
    {
        let (progress, error, phase) = match runtime {
            Some(t) if t.attempt == self.attempt => {
                let progress = if self.phase.is_active() {
                    t.progress
                } else {
                    self.progress
                };
                match &t.error {
                    Some(e) => (progress, Some(e.clone()), DownloadPhase::RecoveryRequired),
                    None => (progress, clone_opt_string(&self.error), self.phase),
                }
            },
            _ => (self.progress, clone_opt_string(&self.error), self.phase),
        };
        DownloadJob {
            id: self.id.clone(),
            url: self.url.clone(),
            title: self.title.clone(),
            media_id: clone_opt_string(&self.media_id),
            attempt: self.attempt,
            phase,
            directory: clone_opt_string(&self.directory),
            output_path: clone_opt_string(&self.output_path),
            publication: clone_files(&self.publication),
            error,
            interrupt_reason: clone_opt_string(&self.interrupt_reason),
            created_at: self.created_at,
            auth: self.auth,
            options: clone_options(&self.options),
            selection: clone_opt_string(&self.selection),
            expected_duration: self.expected_duration,
            progress,
        }
    }
}


/// The asset at position `i` of a bundle: the subtitles, then the playback
/// file.
pub open spec fn bundle_source(
    subtitles: Seq<crate::media::MediaAsset>,
    playback: crate::media::MediaAsset,
    i: int,
) -> crate::media::MediaAsset {
    if i < subtitles.len() {
        subtitles[i]
    } else {
        playback
    }
}

/// `after` is `before` moved into `destination` under its file name.
pub open spec fn rebased(
    before: crate::media::MediaAsset,
    after: crate::media::MediaAsset,
    destination: Seq<char>,
    windows: bool,
) -> bool {
    &&& after.id == before.id
    &&& after.media_id == before.media_id
    &&& after.kind == before.kind
    &&& after.language == before.language
    &&& after.source == before.source
    &&& plain_path(before.path@) ==> after.path@ == joined(destination, plain_name(before.path@), windows)
}

/// The assets of a download once its files are published into the bundle
/// directory `destination`: the subtitles, then the playback file, each
/// under its own file name there; and the playback file's new path. A
/// path without a file name is refused.
pub fn bundle_assets(
    subtitles: &Vec<crate::media::MediaAsset>,
    playback: crate::media::MediaAsset,
    destination: &str,
    windows: bool,
) -> (r: Result<(Vec<crate::media::MediaAsset>, String), String>)
    requires
        subtitles@.len() < usize::MAX,
    ensures
        match r {
            Ok((v, p)) => {
                &&& v@.len() == subtitles@.len() + 1
                &&& forall|i: int|
                    0 <= i < v@.len() ==> rebased(
                        bundle_source(subtitles@, playback, i),
                        #[trigger] v@[i],
                        destination@,
                        windows,
                    )
                &&& p == v@[subtitles@.len() as int].path
            },
            Err(e) => e@ == "Missing download filename"@ && exists|i: int|
                0 <= i <= subtitles@.len() && !plain_path(
                    (#[trigger] bundle_source(subtitles@, playback, i)).path@,
                ),
        },
{
    let ghost n = subtitles@.len();
    let mut out: Vec<crate::media::MediaAsset> = Vec::new();
    let mut i: usize = 0;
    while i <= subtitles.len()
        invariant
            i <= subtitles.len() + 1,
            subtitles@.len() == n,
            n < usize::MAX,
            out@.len() == i,
            forall|k: int|
                0 <= k < i ==> rebased(
                    bundle_source(subtitles@, playback, k),
                    #[trigger] out@[k],
                    destination@,
                    windows,
                ),
        decreases subtitles.len() + 1 - i,
    {
        let source = if i < subtitles.len() {
            subtitles[i].clone()
        } else {
            playback.clone()
        };
        assert(source == bundle_source(subtitles@, playback, i as int));
        let name = match file_name_of(source.path.as_str()) {
            Some(name) => name,
            None => {
                proof {
                    reveal_strlit("Missing download filename");
                }
                return Err(String::from_str("Missing download filename"));
            },
        };
        let path = join_path(destination, name.as_str(), windows);
        let moved = crate::media::MediaAsset {
            id: source.id,
            media_id: source.media_id,
            kind: source.kind,
            path,
            language: source.language,
            source: source.source,
        };
        out.push(moved);
        i += 1;
    }
    let p = out[subtitles.len()].path.clone();
    Ok((out, p))
}


/// `std::path::Path::new(a) == std::path::Path::new(b)`: paths compare by
/// their components, so two equal texts are equal paths. When texts that
/// differ name equal paths (a repeated or trailing separator, a `.`
/// component) is left to the platform's rules and not stated.
#[verifier::external_body]
fn same_path(a: &str, b: &str) -> (r: bool)
    ensures
        a@ == b@ ==> r,
{
    std::path::Path::new(a) == std::path::Path::new(b)
}

/// Whether a downloaded file lies directly in the attempt's staging
/// directory: the parent of the file (without a Windows verbatim prefix) is
/// that directory.
pub fn in_staging(path: &str, staging: &str) -> (r: bool)
    ensures
        plain_path(path@) && plain_parent(path@) == staging@ ==> r,
{
    let simple = crate::directory::simplified_path(path);
    proof {
        if plain_path(path@) && simple@ != path@ {
            reveal_strlit("\\\\?\\");
            reveal_strlit("/");
            assert(path@.take(4)[0] == path@[0]);
            assert(path@[0] == '\\');
            let d = crate::assets::plain_dir(path@);
            assert(path@ == d + "/"@ + crate::assets::plain_name(path@));
            if d.len() > 0 {
                assert(path@[0] == d[0]);
            } else {
                assert(path@[0] == '/');
            }
        }
    }
    match parent_of(simple.as_str()) {
        Some(d) => same_path(d.as_str(), staging),
        None => false,
    }
}


/// Where the worker of a download attempt stands.
#[derive(Clone, Copy, Debug, PartialEq, Eq, Structural)]
pub enum DownloadStage {
    Idle,
    Resolving,
    Registering,
    Staging,
    Downloading,
    PublishingCached,
    Publishing,
    Done,
    Failed,
}

/// What the worker's last outside step found.
#[derive(Debug)]
pub enum DownloadEvent {
    Started,
    MetadataResolved,
    /// The media is registered; `cached` is the canonical path of a finished
    /// file it already has, if that is still a file, and `inside` whether
    /// that path lies in the current download directory.
    MediaRegistered { cached: Option<String>, inside: bool },
    /// The staging directory exists; `remote` whether the media is an
    /// online one.
    StagingReady { remote: bool },
    /// The downloader finished with this file.
    Downloaded { path: String },
    Published,
    Failed { error: String },
}

/// What the worker does next.
#[derive(Debug)]
pub enum WorkerAction {
    Wait,
    ResolveMetadata,
    RegisterMedia,
    /// Complete the attempt with the file already downloaded.
    PublishCached { path: String },
    PrepareStaging,
    RunDownloader,
    PublishBundle { path: String },
    Finish,
    Fail { error: String },
}

pub open spec fn stage_finished(stage: DownloadStage) -> bool {
    stage == DownloadStage::Done || stage == DownloadStage::Failed
}

/// One step of a download attempt's worker: metadata, then the media's
/// record; a finished file that lies in the current directory is reused,
/// otherwise the staging directory is made, the downloader runs (online
/// media only) and its file is published. A failure ends the attempt; an
/// event that does not fit the stage changes nothing.
pub fn download_step(stage: DownloadStage, event: DownloadEvent) -> (r: (DownloadStage, WorkerAction))
    ensures
        ({
            let unchanged = r.0 == stage && r.1 is Wait;
            match event {
                DownloadEvent::Started => if stage == DownloadStage::Idle {
                    r.0 == DownloadStage::Resolving && r.1 is ResolveMetadata
                } else {
                    unchanged
                },
                DownloadEvent::MetadataResolved => if stage == DownloadStage::Resolving {
                    r.0 == DownloadStage::Registering && r.1 is RegisterMedia
                } else {
                    unchanged
                },
                DownloadEvent::MediaRegistered { cached, inside } => if stage
                    == DownloadStage::Registering {
                    match cached {
                        Some(p) => if inside {
                            r.0 == DownloadStage::PublishingCached && (r.1 matches WorkerAction::PublishCached {
                                path,
                            } && path == p)
                        } else {
                            r.0 == DownloadStage::Staging && r.1 is PrepareStaging
                        },
                        None => r.0 == DownloadStage::Staging && r.1 is PrepareStaging,
                    }
                } else {
                    unchanged
                },
                DownloadEvent::StagingReady { remote } => if stage == DownloadStage::Staging {
                    if remote {
                        r.0 == DownloadStage::Downloading && r.1 is RunDownloader
                    } else {
                        r.0 == DownloadStage::Failed && (r.1 matches WorkerAction::Fail { error }
                            && error@ == "Expected remote media"@)
                    }
                } else {
                    unchanged
                },
                DownloadEvent::Downloaded { path } => if stage == DownloadStage::Downloading {
                    r.0 == DownloadStage::Publishing && (r.1 matches WorkerAction::PublishBundle {
                        path: p,
                    } && p == path)
                } else {
                    unchanged
                },
                DownloadEvent::Published => if stage == DownloadStage::Publishing || stage
                    == DownloadStage::PublishingCached {
                    r.0 == DownloadStage::Done && r.1 is Finish
                } else {
                    unchanged
                },
                DownloadEvent::Failed { error } => if !stage_finished(stage) {
                    r.0 == DownloadStage::Failed && (r.1 matches WorkerAction::Fail { error: e } && e
                        == error)
                } else {
                    unchanged
                },
            }
        }),
{
    match event {
        DownloadEvent::Started => if stage == DownloadStage::Idle {
            (DownloadStage::Resolving, WorkerAction::ResolveMetadata)
        } else {
            (stage, WorkerAction::Wait)
        },
        DownloadEvent::MetadataResolved => if stage == DownloadStage::Resolving {
            (DownloadStage::Registering, WorkerAction::RegisterMedia)
        } else {
            (stage, WorkerAction::Wait)
        },
        DownloadEvent::MediaRegistered { cached, inside } => if stage == DownloadStage::Registering {
            match cached {
                Some(p) => if inside {
                    (DownloadStage::PublishingCached, WorkerAction::PublishCached { path: p })
                } else {
                    (DownloadStage::Staging, WorkerAction::PrepareStaging)
                },
                None => (DownloadStage::Staging, WorkerAction::PrepareStaging),
            }
        } else {
            (stage, WorkerAction::Wait)
        },
        DownloadEvent::StagingReady { remote } => if stage == DownloadStage::Staging {
            if remote {
                (DownloadStage::Downloading, WorkerAction::RunDownloader)
            } else {
                (DownloadStage::Failed, WorkerAction::Fail { error: String::from_str("Expected remote media") })
            }
        } else {
            (stage, WorkerAction::Wait)
        },
        DownloadEvent::Downloaded { path } => if stage == DownloadStage::Downloading {
            (DownloadStage::Publishing, WorkerAction::PublishBundle { path })
        } else {
            (stage, WorkerAction::Wait)
        },
        DownloadEvent::Published => if stage == DownloadStage::Publishing || stage
            == DownloadStage::PublishingCached {
            (DownloadStage::Done, WorkerAction::Finish)
        } else {
            (stage, WorkerAction::Wait)
        },
        DownloadEvent::Failed { error } => if stage != DownloadStage::Done && stage
            != DownloadStage::Failed {
            (DownloadStage::Failed, WorkerAction::Fail { error })
        } else {
            (stage, WorkerAction::Wait)
        },
    }
}

} // verus!
