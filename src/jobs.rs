use vstd::prelude::*;

use crate::errors::{display_of, AppError};
use crate::errors::{retryable, ErrorHandler};
use crate::export::{
    content_type_of, extension_of, is_validation_error, request_valid, request_violation,
    EnhancedExportOptions, ExportResult, ExportService, ImageFormat,
};
use crate::retry::{decision_after_failure, export_policy, RetryDecision, RetryPolicy};
use crate::ids::random_id;
use crate::keyed::{
    keyed, keys_unique, lemma_keyed_dom, lemma_keyed_filter, lemma_keyed_push, lemma_keyed_update,
    lemma_keyed_value, lemma_unique_push,
};
use crate::text::{decimal, decimal_string, owned};

verus! {

broadcast use vstd::seq_lib::group_seq_properties;

/// Where a job stands in its lifecycle.
#[derive(Debug, Clone, Copy, PartialEq, Eq, Structural)]
pub enum DownloadStatus {
    Queued,
    Processing,
    Completed,
    Failed,
    Expired,
}

/// A job's record: its status and how far it has come. Times are in milliseconds.
#[derive(Debug)]
pub struct DownloadProgress {
    pub download_id: String,
    pub status: DownloadStatus,
    pub progress_percent: u8,
    pub message: String,
    pub created_at: u64,
    pub completed_at: Option<u64>,
    pub file_size: Option<usize>,
    pub error_message: Option<String>,
}

/// What is known of a stored artifact. Times are in milliseconds.
#[derive(Debug)]
pub struct DownloadMetadata {
    /// The key under which the storage holds the bytes.
    pub file_id: String,
    pub original_filename: String,
    pub content_type: String,
    pub file_size: usize,
    pub created_at: u64,
    pub expires_at: u64,
}

/// An artifact and the job that produced it.
#[derive(Debug)]
pub struct StoredDownload {
    pub download_id: String,
    pub metadata: DownloadMetadata,
}

/// The value of a job record.
pub struct JobView {
    pub id: Seq<char>,
    pub status: DownloadStatus,
    pub progress_percent: u8,
    pub message: Seq<char>,
    pub created_at: u64,
    pub completed_at: Option<u64>,
    pub file_size: Option<usize>,
    pub error_message: Option<Seq<char>>,
}

/// The value of an artifact's metadata.
pub struct MetadataView {
    pub file_id: Seq<char>,
    pub original_filename: Seq<char>,
    pub content_type: Seq<char>,
    pub file_size: usize,
    pub created_at: u64,
    pub expires_at: u64,
}

/// The value of a stored artifact.
pub struct FileView {
    pub download_id: Seq<char>,
    pub metadata: MetadataView,
}

pub open spec fn opt_view(s: Option<String>) -> Option<Seq<char>> {
    match s {
        Some(t) => Some(t@),
        None => None,
    }
}

impl View for DownloadProgress {
    type V = JobView;

    open spec fn view(&self) -> JobView {
        JobView {
            id: self.download_id@,
            status: self.status,
            progress_percent: self.progress_percent,
            message: self.message@,
            created_at: self.created_at,
            completed_at: self.completed_at,
            file_size: self.file_size,
            error_message: opt_view(self.error_message),
        }
    }
}

impl View for DownloadMetadata {
    type V = MetadataView;

    open spec fn view(&self) -> MetadataView {
        MetadataView {
            file_id: self.file_id@,
            original_filename: self.original_filename@,
            content_type: self.content_type@,
            file_size: self.file_size,
            created_at: self.created_at,
            expires_at: self.expires_at,
        }
    }
}

impl View for StoredDownload {
    type V = FileView;

    open spec fn view(&self) -> FileView {
        FileView { download_id: self.download_id@, metadata: self.metadata@ }
    }
}

/// Counts over the jobs and artifacts held.
#[derive(Debug, Clone, Copy, PartialEq, Eq, Structural)]
pub struct DownloadStats {
    pub queued: usize,
    pub processing: usize,
    pub completed: usize,
    pub failed: usize,
    pub expired: usize,
    pub total_files: usize,
    pub total_size: usize,
}

/// The bound on jobs in progress that a new service starts with.
pub const DEFAULT_MAX_CONCURRENT: usize = 10;

/// How long an artifact stays downloadable by default: one hour, in milliseconds.
pub const DEFAULT_DOWNLOAD_EXPIRY_MS: u64 = 3_600_000;

/// How long a job record is kept, whatever its status: one day, in milliseconds.
pub const JOB_RETENTION_MS: u64 = 86_400_000;

pub open spec fn job_key() -> spec_fn(JobView) -> Seq<char> {
    |j: JobView| j.id
}

pub open spec fn file_key() -> spec_fn(FileView) -> Seq<char> {
    |f: FileView| f.download_id
}

pub open spec fn job_views(s: Seq<DownloadProgress>) -> Seq<JobView> {
    s.map_values(|j: DownloadProgress| j@)
}

pub open spec fn file_views(s: Seq<StoredDownload>) -> Seq<FileView> {
    s.map_values(|f: StoredDownload| f@)
}

pub open spec fn is_active(s: DownloadStatus) -> bool {
    s == DownloadStatus::Queued || s == DownloadStatus::Processing
}

pub open spec fn active_pred() -> spec_fn(JobView) -> bool {
    |j: JobView| is_active(j.status)
}

/// The number of jobs in `jobs` that are queued or processing.
pub open spec fn active_in(jobs: Seq<JobView>) -> nat {
    jobs.filter(active_pred()).len()
}

/// The record of a job that has just been admitted.
pub open spec fn queued_record(id: Seq<char>, now: u64) -> JobView {
    JobView {
        id,
        status: DownloadStatus::Queued,
        progress_percent: 0,
        message: "Download queued for processing"@,
        created_at: now,
        completed_at: None,
        file_size: None,
        error_message: None,
    }
}

pub open spec fn busy_error(e: AppError) -> bool {
    e matches AppError::ImageGenerationError { message } && message@
        == "Server is busy. Please try again later."@
}

/// The order of the lifecycle: Queued, then Processing, then Completed or Failed, then
/// (for Completed) Expired.
pub open spec fn status_rank(s: DownloadStatus) -> nat {
    match s {
        DownloadStatus::Queued => 0,
        DownloadStatus::Processing => 1,
        DownloadStatus::Completed => 2,
        DownloadStatus::Failed => 2,
        DownloadStatus::Expired => 3,
    }
}

/// A single change of status that the lifecycle permits, staying put included.
pub open spec fn status_follows(a: DownloadStatus, b: DownloadStatus) -> bool {
    ||| a == b
    ||| a == DownloadStatus::Queued && b == DownloadStatus::Processing
    ||| a == DownloadStatus::Processing && b == DownloadStatus::Completed
    ||| a == DownloadStatus::Processing && b == DownloadStatus::Failed
    ||| a == DownloadStatus::Completed && b == DownloadStatus::Expired
}

/// Every job present before and after a change has moved forward in its lifecycle, if at all.
pub open spec fn jobs_evolve(before: Map<Seq<char>, JobView>, after: Map<Seq<char>, JobView>) -> bool {
    forall|k: Seq<char>|
        #[trigger] after.contains_key(k) && before.contains_key(k) ==> status_follows(
            before[k].status,
            after[k].status,
        )
}

/// The message shown while a given try runs.
pub open spec fn attempt_message(attempt: u32) -> Seq<char> {
    if attempt == 1 {
        "Generating image..."@
    } else {
        "Retrying image generation (attempt "@ + decimal(attempt as nat) + "/3)"@
    }
}

/// `j` with a new status, progress and message, and the error cleared.
pub open spec fn with_stage(j: JobView, status: DownloadStatus, progress: u8, message: Seq<char>) -> JobView {
    JobView { status, progress_percent: progress, message, error_message: None, ..j }
}

/// What comes next for a job after a try of its export.
pub enum NextStep {
    /// Wait, then make the try numbered `attempt`.
    Retry { attempt: u32, delay_ms: u64 },
    /// The export succeeded: store its bytes.
    Store(ExportResult),
    /// Nothing more to do for this job.
    Done,
}

/// A copy of a text.
fn copy_string(s: &String) -> (r: String)
    ensures
        r == *s,
{
    s.clone()
}

fn copy_opt_string(s: &Option<String>) -> (r: Option<String>)
    ensures
        r == *s,
{
    match s {
        Some(t) => Some(t.clone()),
        None => None,
    }
}

impl DownloadProgress {
    /// A copy of this record.
    pub fn copy(&self) -> (r: DownloadProgress)
        ensures
            r == *self,
    {
        DownloadProgress {
            download_id: copy_string(&self.download_id),
            status: self.status,
            progress_percent: self.progress_percent,
            message: copy_string(&self.message),
            created_at: self.created_at,
            completed_at: self.completed_at,
            file_size: self.file_size,
            error_message: copy_opt_string(&self.error_message),
        }
    }
}

impl DownloadMetadata {
    /// A copy of this metadata.
    pub fn copy(&self) -> (r: DownloadMetadata)
        ensures
            r == *self,
    {
        DownloadMetadata {
            file_id: copy_string(&self.file_id),
            original_filename: copy_string(&self.original_filename),
            content_type: copy_string(&self.content_type),
            file_size: self.file_size,
            created_at: self.created_at,
            expires_at: self.expires_at,
        }
    }
}

/// The extension under which the storage keeps an artifact of this content type.
pub open spec fn extension_for(content_type: Seq<char>) -> Option<Seq<char>> {
    if content_type == "image/png"@ {
        Some("png"@)
    } else if content_type == "image/jpeg"@ {
        Some("jpg"@)
    } else if content_type == "image/svg+xml"@ {
        Some("svg"@)
    } else {
        None
    }
}

/// An artifact is past its time once `now` is later than its expiry.
pub open spec fn is_expired(m: MetadataView, now: u64) -> bool {
    now > m.expires_at
}

pub open spec fn live_file(now: u64) -> spec_fn(FileView) -> bool {
    |f: FileView| !is_expired(f.metadata, now)
}

pub open spec fn expired_file(now: u64) -> spec_fn(FileView) -> bool {
    |f: FileView| is_expired(f.metadata, now)
}

/// A job record is kept for a day after its creation.
pub open spec fn is_recent(j: JobView, now: u64) -> bool {
    now < JOB_RETENTION_MS || j.created_at >= now - JOB_RETENTION_MS
}

pub open spec fn recent_job(now: u64) -> spec_fn(JobView) -> bool {
    |j: JobView| is_recent(j, now)
}

/// A completed job whose artifact has expired becomes expired; any other record stays.
pub open spec fn expire_job(j: JobView, files: Map<Seq<char>, FileView>, now: u64) -> JobView {
    if j.status == DownloadStatus::Completed && files.contains_key(j.id) && is_expired(
        files[j.id].metadata,
        now,
    ) {
        JobView { status: DownloadStatus::Expired, ..j }
    } else {
        j
    }
}

/// How a request for a job's artifact ends.
#[derive(Debug, Clone, Copy, PartialEq, Eq, Structural)]
pub enum FetchOutcome {
    /// No artifact was ever stored for the id, or it has been reclaimed.
    NotFound,
    /// The artifact exists but its time has passed.
    Expired,
    /// The artifact's type is not one the service produces.
    UnknownType,
    Ready,
}

/// What a request for the artifact of `id` yields at time `now`.
pub open spec fn fetch_outcome(files: Map<Seq<char>, FileView>, id: Seq<char>, now: u64) -> FetchOutcome {
    if !files.contains_key(id) {
        FetchOutcome::NotFound
    } else if is_expired(files[id].metadata, now) {
        FetchOutcome::Expired
    } else if extension_for(files[id].metadata.content_type) is None {
        FetchOutcome::UnknownType
    } else {
        FetchOutcome::Ready
    }
}

pub open spec fn storage_error_with(e: AppError, msg: Seq<char>) -> bool {
    e matches AppError::StorageError { message } && message@ == msg
}

/// The metadata of an artifact written at `now` for a result of this format and size.
pub open spec fn new_metadata(
    file_id: Seq<char>,
    format: ImageFormat,
    size: usize,
    now: u64,
    expiry: u64,
) -> MetadataView {
    MetadataView {
        file_id,
        original_filename: "code-snippet."@ + extension_of(format),
        content_type: content_type_of(format),
        file_size: size,
        created_at: now,
        expires_at: if now + expiry > u64::MAX {
            u64::MAX
        } else {
            (now + expiry) as u64
        },
    }
}

pub open spec fn count_status(jobs: Seq<JobView>, s: DownloadStatus) -> nat {
    jobs.filter(|j: JobView| j.status == s).len()
}

/// The sum of the artifacts' sizes.
pub open spec fn total_size(files: Seq<FileView>) -> nat
    decreases files.len(),
{
    if files.len() == 0 {
        0
    } else {
        total_size(files.drop_last()) + (files.last().metadata.file_size as nat)
    }
}

/// The extension under which the storage keeps an artifact of this content type.
pub fn extension_for_content_type(content_type: &String) -> (r: Option<&'static str>)
    ensures
        r is Some <==> extension_for(content_type@) is Some,
        r is Some ==> r->Some_0@ == extension_for(content_type@)->Some_0,
{
    if *content_type == owned("image/png") {
        Some("png")
    } else if *content_type == owned("image/jpeg") {
        Some("jpg")
    } else if *content_type == owned("image/svg+xml") {
        Some("svg")
    } else {
        None
    }
}

impl StoredDownload {
    pub fn copy(&self) -> (r: StoredDownload)
        ensures
            r == *self,
    {
        StoredDownload { download_id: copy_string(&self.download_id), metadata: self.metadata.copy() }
    }
}

/// Admits export jobs, tracks their progress, and keeps the artifacts they produce
/// until these expire.
pub struct DownloadService {
    jobs: Vec<DownloadProgress>,
    files: Vec<StoredDownload>,
    max_concurrent_downloads: usize,
    download_expiry: u64,
}

/// Replacing one record changes the count of jobs in progress by at most that record.
pub proof fn lemma_active_update(s: Seq<JobView>, i: int, rec: JobView)
    requires
        0 <= i < s.len(),
    ensures
        is_active(rec.status) == is_active(s[i].status) ==> active_in(s.update(i, rec)) == active_in(s),
        !is_active(rec.status) ==> active_in(s.update(i, rec)) <= active_in(s),
    decreases s.len(),
{
    let u = s.update(i, rec);
    assert(s =~= s.drop_last().push(s.last()));
    assert(u =~= u.drop_last().push(u.last()));
    s.drop_last().lemma_filter_push(s.last(), active_pred());
    u.drop_last().lemma_filter_push(u.last(), active_pred());
    if i == s.len() - 1 {
        assert(u.drop_last() =~= s.drop_last());
    } else {
        assert(u.drop_last() =~= s.drop_last().update(i, rec));
        lemma_active_update(s.drop_last(), i, rec);
    }
}

/// Expiring records keeps their ids, so the ids stay unique.
pub proof fn lemma_marked_keys(s: Seq<JobView>, files: Map<Seq<char>, FileView>, now: u64)
    requires
        keys_unique(s, job_key()),
    ensures
        keys_unique(s.map_values(|j: JobView| expire_job(j, files, now)), job_key()),
{
    let m = s.map_values(|j: JobView| expire_job(j, files, now));
    assert forall|a: int, b: int|
        0 <= a < m.len() && 0 <= b < m.len() && a != b implies #[trigger] job_key()(m[a])
        != #[trigger] job_key()(m[b]) by {
        assert(job_key()(m[a]) == job_key()(s[a]));
        assert(job_key()(m[b]) == job_key()(s[b]));
    }
}

/// Expiring records never adds a job in progress.
pub proof fn lemma_active_marked(s: Seq<JobView>, files: Map<Seq<char>, FileView>, now: u64)
    ensures
        active_in(s.map_values(|j: JobView| expire_job(j, files, now))) == active_in(s),
    decreases s.len(),
{
    let f = |j: JobView| expire_job(j, files, now);
    if s.len() > 0 {
        let d = s.drop_last();
        lemma_active_marked(d, files, now);
        assert(s =~= d.push(s.last()));
        assert(s.map_values(f) =~= d.map_values(f).push(f(s.last())));
        d.lemma_filter_push(s.last(), active_pred());
        d.map_values(f).lemma_filter_push(f(s.last()), active_pred());
    }
}

/// Keeping some records never adds a job in progress.
pub proof fn lemma_filter_active_le(s: Seq<JobView>, p: spec_fn(JobView) -> bool)
    ensures
        active_in(s.filter(p)) <= active_in(s),
    decreases s.len(),
{
    if s.len() > 0 {
        let d = s.drop_last();
        lemma_filter_active_le(d, p);
        assert(s =~= d.push(s.last()));
        d.lemma_filter_push(s.last(), p);
        d.lemma_filter_push(s.last(), active_pred());
        if p(s.last()) {
            d.filter(p).lemma_filter_push(s.last(), active_pred());
        }
    }
}

impl DownloadService {
    /// The job records in the order of admission.
    pub closed spec fn job_list(&self) -> Seq<JobView> {
        job_views(self.jobs@)
    }

    /// The job records by id.
    pub open spec fn jobs(&self) -> Map<Seq<char>, JobView> {
        keyed(self.job_list(), job_key())
    }

    /// The artifacts in the order of completion.
    pub closed spec fn file_list(&self) -> Seq<FileView> {
        file_views(self.files@)
    }

    /// The artifacts by job id.
    pub open spec fn files(&self) -> Map<Seq<char>, FileView> {
        keyed(self.file_list(), file_key())
    }

    pub closed spec fn max_concurrent(&self) -> usize {
        self.max_concurrent_downloads
    }

    /// How long an artifact stays downloadable, in milliseconds.
    pub closed spec fn expiry(&self) -> u64 {
        self.download_expiry
    }

    /// The number of jobs queued or processing.
    pub open spec fn active(&self) -> nat {
        active_in(self.job_list())
    }

    pub open spec fn wf(&self) -> bool {
        &&& keys_unique(self.job_list(), job_key())
        &&& keys_unique(self.file_list(), file_key())
    }

    pub fn new() -> (r: DownloadService)
        ensures
            r.wf(),
            r.job_list().len() == 0,
            r.file_list().len() == 0,
            r.jobs() == Map::<Seq<char>, JobView>::empty(),
            r.files() == Map::<Seq<char>, FileView>::empty(),
            r.max_concurrent() == DEFAULT_MAX_CONCURRENT,
            r.expiry() == DEFAULT_DOWNLOAD_EXPIRY_MS,
    {
        DownloadService {
            jobs: Vec::new(),
            files: Vec::new(),
            max_concurrent_downloads: DEFAULT_MAX_CONCURRENT,
            download_expiry: DEFAULT_DOWNLOAD_EXPIRY_MS,
        }
    }

    pub fn set_max_concurrent_downloads(&mut self, max: usize)
        ensures
            final(self).max_concurrent() == max,
            final(self).job_list() == old(self).job_list(),
            final(self).file_list() == old(self).file_list(),
            final(self).expiry() == old(self).expiry(),
    {
        self.max_concurrent_downloads = max;
    }

    /// Sets how long new artifacts stay downloadable, in milliseconds.
    pub fn set_download_expiry(&mut self, expiry_ms: u64)
        ensures
            final(self).expiry() == expiry_ms,
            final(self).job_list() == old(self).job_list(),
            final(self).file_list() == old(self).file_list(),
            final(self).max_concurrent() == old(self).max_concurrent(),
    {
        self.download_expiry = expiry_ms;
    }

    pub fn max_concurrent_downloads(&self) -> (r: usize)
        ensures
            r == self.max_concurrent(),
    {
        self.max_concurrent_downloads
    }

    pub fn download_expiry(&self) -> (r: u64)
        ensures
            r == self.expiry(),
    {
        self.download_expiry
    }

    /// The number of jobs queued or processing.
    pub fn count_active_downloads(&self) -> (r: usize)
        ensures
            r == self.active(),
    {
        let mut count: usize = 0;
        let mut i: usize = 0;
        while i < self.jobs.len()
            invariant
                i <= self.jobs@.len(),
                count == active_in(job_views(self.jobs@).take(i as int)),
                count <= i,
            decreases self.jobs@.len() - i,
        {
            proof {
                let v = job_views(self.jobs@);
                assert(v.take(i + 1) =~= v.take(i as int).push(v[i as int]));
                v.take(i as int).lemma_filter_push(v[i as int], active_pred());
            }
            let s = self.jobs[i].status;
            if matches!(s, DownloadStatus::Queued | DownloadStatus::Processing) {
                count = count + 1;
            }
            i = i + 1;
        }
        proof {
            assert(job_views(self.jobs@).take(i as int) =~= job_views(self.jobs@));
        }
        count
    }

    fn find_job(&self, id: &str) -> (r: Option<usize>)
        requires
            self.wf(),
        ensures
            r is None <==> !self.jobs().contains_key(id@),
            r is Some ==> r->Some_0 < self.job_list().len() && self.job_list()[r->Some_0 as int].id == id@,
    {
        let key = owned(id);
        let mut i: usize = 0;
        while i < self.jobs.len()
            invariant
                i <= self.jobs@.len(),
                key@ == id@,
                forall|j: int| 0 <= j < i ==> self.jobs@[j].download_id@ != id@,
            decreases self.jobs@.len() - i,
        {
            if self.jobs[i].download_id == key {
                proof {
                    lemma_keyed_dom(self.job_list(), job_key(), id@);
                    assert(self.job_list()[i as int].id == id@);
                }
                return Some(i);
            }
            i = i + 1;
        }
        proof {
            lemma_keyed_dom(self.job_list(), job_key(), id@);
        }
        None
    }

    fn find_file(&self, id: &str) -> (r: Option<usize>)
        requires
            self.wf(),
        ensures
            r is None <==> !self.files().contains_key(id@),
            r is Some ==> r->Some_0 < self.file_list().len() && self.file_list()[r->Some_0 as int].download_id == id@,
    {
        let key = owned(id);
        let mut i: usize = 0;
        while i < self.files.len()
            invariant
                i <= self.files@.len(),
                key@ == id@,
                forall|j: int| 0 <= j < i ==> self.files@[j].download_id@ != id@,
            decreases self.files@.len() - i,
        {
            if self.files[i].download_id == key {
                proof {
                    lemma_keyed_dom(self.file_list(), file_key(), id@);
                    assert(self.file_list()[i as int].download_id == id@);
                }
                return Some(i);
            }
            i = i + 1;
        }
        proof {
            lemma_keyed_dom(self.file_list(), file_key(), id@);
        }
        None
    }

    /// Puts `rec` in place of the record at `i`, which has the same id.
    fn replace_job(&mut self, i: usize, rec: DownloadProgress)
        requires
            old(self).wf(),
            i < old(self).job_list().len(),
            rec@.id == old(self).job_list()[i as int].id,
        ensures
            final(self).wf(),
            final(self).job_list() == old(self).job_list().update(i as int, rec@),
            final(self).jobs() == old(self).jobs().insert(rec@.id, rec@),
            final(self).file_list() == old(self).file_list(),
            final(self).max_concurrent() == old(self).max_concurrent(),
            final(self).expiry() == old(self).expiry(),
    {
        let ghost before = job_views(self.jobs@);
        self.jobs.set(i, rec);
        proof {
            assert(job_views(self.jobs@) =~= before.update(i as int, rec@));
            lemma_keyed_update(before, job_key(), i as int, rec@);
        }
    }

    /// Moves a queued job to processing, at 10 percent. Returns whether it did.
    pub fn begin_processing(&mut self, id: &str) -> (r: bool)
        requires
            old(self).wf(),
        ensures
            final(self).wf(),
            final(self).file_list() == old(self).file_list(),
            final(self).max_concurrent() == old(self).max_concurrent(),
            final(self).expiry() == old(self).expiry(),
            jobs_evolve(old(self).jobs(), final(self).jobs()),
            final(self).active() <= old(self).active(),
            r <==> old(self).jobs().contains_key(id@) && old(self).jobs()[id@].status
                == DownloadStatus::Queued,
            r ==> final(self).jobs() == old(self).jobs().insert(
                id@,
                with_stage(
                    old(self).jobs()[id@],
                    DownloadStatus::Processing,
                    10,
                    "Starting image generation..."@,
                ),
            ),
            !r ==> final(self).job_list() == old(self).job_list(),
    {
        match self.find_job(id) {
            None => false,
            Some(i) => {
                proof {
                    lemma_keyed_value(self.job_list(), job_key(), i as int);
                }
                if self.jobs[i].status != DownloadStatus::Queued {
                    return false;
                }
                let old_rec = self.jobs[i].copy();
                let rec = DownloadProgress {
                    status: DownloadStatus::Processing,
                    progress_percent: 10,
                    message: owned("Starting image generation..."),
                    error_message: None,
                    ..old_rec
                };
                let ghost before = self.job_list();
                self.replace_job(i, rec);
                proof {
                    self.lemma_evolve_update(before, i as int, rec@);
                }
                true
            },
        }
    }

    /// Records that try number `attempt` of a processing job starts: 20 percent per try.
    /// Returns whether the job was processing.
    pub fn record_attempt(&mut self, id: &str, attempt: u32) -> (r: bool)
        requires
            old(self).wf(),
            1 <= attempt <= 3,
        ensures
            final(self).wf(),
            final(self).file_list() == old(self).file_list(),
            final(self).max_concurrent() == old(self).max_concurrent(),
            final(self).expiry() == old(self).expiry(),
            jobs_evolve(old(self).jobs(), final(self).jobs()),
            final(self).active() == old(self).active(),
            r <==> old(self).jobs().contains_key(id@) && old(self).jobs()[id@].status
                == DownloadStatus::Processing,
            r ==> final(self).jobs() == old(self).jobs().insert(
                id@,
                with_stage(
                    old(self).jobs()[id@],
                    DownloadStatus::Processing,
                    (20 * attempt) as u8,
                    attempt_message(attempt),
                ),
            ),
            !r ==> final(self).job_list() == old(self).job_list(),
    {
        match self.find_job(id) {
            None => false,
            Some(i) => {
                proof {
                    lemma_keyed_value(self.job_list(), job_key(), i as int);
                }
                if self.jobs[i].status != DownloadStatus::Processing {
                    return false;
                }
                let message = if attempt == 1 {
                    owned("Generating image...")
                } else {
                    let mut m = owned("Retrying image generation (attempt ");
                    let n = decimal_string(attempt as u64);
                    m.append(n.as_str());
                    m.append("/3)");
                    m
                };
                let old_rec = self.jobs[i].copy();
                let rec = DownloadProgress {
                    status: DownloadStatus::Processing,
                    progress_percent: (20 * attempt) as u8,
                    message,
                    error_message: None,
                    ..old_rec
                };
                let ghost before = self.job_list();
                self.replace_job(i, rec);
                proof {
                    self.lemma_evolve_update(before, i as int, rec@);
                }
                true
            },
        }
    }

    /// Marks a processing job failed, at 0 percent, keeping the failure's text.
    /// Returns whether the job was processing.
    pub fn fail_download(&mut self, id: &str, message: &str, error: &AppError) -> (r: bool)
        requires
            old(self).wf(),
        ensures
            final(self).wf(),
            final(self).file_list() == old(self).file_list(),
            final(self).max_concurrent() == old(self).max_concurrent(),
            final(self).expiry() == old(self).expiry(),
            jobs_evolve(old(self).jobs(), final(self).jobs()),
            final(self).active() <= old(self).active(),
            r <==> old(self).jobs().contains_key(id@) && old(self).jobs()[id@].status
                == DownloadStatus::Processing,
            r ==> final(self).jobs() == old(self).jobs().insert(
                id@,
                JobView {
                    status: DownloadStatus::Failed,
                    progress_percent: 0,
                    message: message@,
                    error_message: Some(display_of(*error)),
                    ..old(self).jobs()[id@]
                },
            ),
            !r ==> final(self).job_list() == old(self).job_list(),
    {
        match self.find_job(id) {
            None => false,
            Some(i) => {
                proof {
                    lemma_keyed_value(self.job_list(), job_key(), i as int);
                }
                if self.jobs[i].status != DownloadStatus::Processing {
                    return false;
                }
                let old_rec = self.jobs[i].copy();
                let rec = DownloadProgress {
                    status: DownloadStatus::Failed,
                    progress_percent: 0,
                    message: owned(message),
                    error_message: Some(error.to_display()),
                    ..old_rec
                };
                let ghost before = self.job_list();
                self.replace_job(i, rec);
                proof {
                    self.lemma_evolve_update(before, i as int, rec@);
                }
                true
            },
        }
    }

    /// Decides what follows try number `attempt` of a job's export. A success moves the
    /// job to saving, at 80 percent, and hands the result on to be stored. A failure
    /// that may go away leads to another try after the policy's wait while tries remain;
    /// after the last try, or at once for a failure that cannot go away (a validation
    /// error), the job fails with that failure's text.
    pub fn on_attempt_result(
        &mut self,
        id: &str,
        attempt: u32,
        outcome: Result<ExportResult, AppError>,
    ) -> (r: NextStep)
        requires
            old(self).wf(),
            1 <= attempt <= 3,
        ensures
            final(self).wf(),
            final(self).file_list() == old(self).file_list(),
            final(self).max_concurrent() == old(self).max_concurrent(),
            final(self).expiry() == old(self).expiry(),
            jobs_evolve(old(self).jobs(), final(self).jobs()),
            final(self).active() <= old(self).active(),
            !(old(self).jobs().contains_key(id@) && old(self).jobs()[id@].status
                == DownloadStatus::Processing) ==> r is Done && final(self).job_list() == old(
                self,
            ).job_list(),
            old(self).jobs().contains_key(id@) && old(self).jobs()[id@].status
                == DownloadStatus::Processing ==> match outcome {
                Ok(res) => r == NextStep::Store(res) && final(self).jobs() == old(self).jobs().insert(
                    id@,
                    with_stage(
                        old(self).jobs()[id@],
                        DownloadStatus::Processing,
                        80,
                        "Saving generated image..."@,
                    ),
                ),
                Err(e) => match decision_after_failure(export_policy(), attempt) {
                    RetryDecision::RetryAfter { attempt: next, delay_ms } if retryable(e) => r == (
                    NextStep::Retry { attempt: next, delay_ms }) && final(self).job_list() == old(
                        self,
                    ).job_list(),
                    _ => r is Done && final(self).jobs() == old(self).jobs().insert(
                        id@,
                        JobView {
                            status: DownloadStatus::Failed,
                            progress_percent: 0,
                            message: "Image generation failed"@,
                            error_message: Some(display_of(e)),
                            ..old(self).jobs()[id@]
                        },
                    ),
                },
            },
    {
        let i = match self.find_job(id) {
            None => { return NextStep::Done; },
            Some(i) => i,
        };
        proof {
            lemma_keyed_value(self.job_list(), job_key(), i as int);
        }
        if self.jobs[i].status != DownloadStatus::Processing {
            return NextStep::Done;
        }
        match outcome {
            Ok(res) => {
                let old_rec = self.jobs[i].copy();
                let rec = DownloadProgress {
                    status: DownloadStatus::Processing,
                    progress_percent: 80,
                    message: owned("Saving generated image..."),
                    error_message: None,
                    ..old_rec
                };
                let ghost before = self.job_list();
                self.replace_job(i, rec);
                proof {
                    self.lemma_evolve_update(before, i as int, rec@);
                }
                NextStep::Store(res)
            },
            Err(e) => {
                if !ErrorHandler::is_retryable(&e) {
                    self.fail_download(id, "Image generation failed", &e);
                    return NextStep::Done;
                }
                let policy = RetryPolicy::export();
                match policy.after_failure(attempt) {
                    RetryDecision::RetryAfter { attempt: next, delay_ms } => {
                        NextStep::Retry { attempt: next, delay_ms }
                    },
                    RetryDecision::GiveUp => {
                        self.fail_download(id, "Image generation failed", &e);
                        NextStep::Done
                    },
                }
            },
        }
    }

    /// The record at `i` replaced by one with the same id whose status follows the old
    /// one keeps the lifecycle order, and does not add to the jobs in progress unless
    /// the old record was already in progress.
    proof fn lemma_evolve_update(self, before: Seq<JobView>, i: int, rec: JobView)
        requires
            keys_unique(before, job_key()),
            0 <= i < before.len(),
            rec.id == before[i].id,
            status_follows(before[i].status, rec.status),
            is_active(rec.status) ==> is_active(before[i].status),
            self.job_list() == before.update(i, rec),
            self.jobs() == keyed(before, job_key()).insert(rec.id, rec),
        ensures
            jobs_evolve(keyed(before, job_key()), self.jobs()),
            active_in(self.job_list()) <= active_in(before),
            is_active(rec.status) ==> active_in(self.job_list()) == active_in(before),
    {
        lemma_keyed_value(before, job_key(), i);
        lemma_active_update(before, i, rec);
    }

    /// A copy of the record of a job, if the service knows the id.
    pub fn get_progress(&self, id: &str) -> (r: Option<DownloadProgress>)
        requires
            self.wf(),
        ensures
            r is Some <==> self.jobs().contains_key(id@),
            r is Some ==> r->Some_0@ == self.jobs()[id@],
    {
        match self.find_job(id) {
            None => None,
            Some(i) => {
                proof {
                    lemma_keyed_value(self.job_list(), job_key(), i as int);
                }
                Some(self.jobs[i].copy())
            },
        }
    }

    /// Admits a job under a fresh random id; see `start_with_id`. The request and the
    /// bound are checked before an id is drawn. A drawn id may, by chance, already be in
    /// use; on a service holding no ids none can be.
    pub fn start_download(&mut self, code: &str, options: &EnhancedExportOptions, now: u64) -> (r:
        Result<String, AppError>)
        requires
            old(self).wf(),
        ensures
            final(self).wf(),
            final(self).max_concurrent() == old(self).max_concurrent(),
            final(self).expiry() == old(self).expiry(),
            final(self).file_list() == old(self).file_list(),
            !request_valid(code@, *options) ==> r is Err && is_validation_error(
                r->Err_0,
                request_violation(code@, *options)->Some_0,
            ),
            request_valid(code@, *options) && old(self).active() >= old(self).max_concurrent() ==> r is Err
                && busy_error(r->Err_0),
            request_valid(code@, *options) && old(self).active() < old(self).max_concurrent() && old(
                self,
            ).job_list().len() == 0 && old(self).file_list().len() == 0 ==> r is Ok,
            r is Err ==> !request_valid(code@, *options) || old(self).active() >= old(self).max_concurrent()
                || r->Err_0 is InternalError,
            r is Err ==> final(self).job_list() == old(self).job_list(),
            r is Ok ==> request_valid(code@, *options) && !old(self).jobs().contains_key(r->Ok_0@)
                && final(self).jobs() == old(self).jobs().insert(
                r->Ok_0@,
                queued_record(r->Ok_0@, now),
            ) && final(self).active() == old(self).active() + 1 && final(self).active()
                <= final(self).max_concurrent(),
    {
        ExportService::validate_request(code, options)?;
        if self.count_active_downloads() >= self.max_concurrent_downloads {
            return Err(AppError::image_generation_failed("Server is busy. Please try again later."));
        }
        let id = random_id();
        proof {
            if self.job_list().len() == 0 {
                assert(self.jobs() =~= Map::<Seq<char>, JobView>::empty());
            }
            if self.file_list().len() == 0 {
                assert(self.files() =~= Map::<Seq<char>, FileView>::empty());
            }
        }
        self.start_with_id(id, code, options, now)
    }

    /// Records the stored artifact of a job that is processing and marks the job
    /// completed at 100 percent. The artifact expires `expiry()` after `now`.
    /// Returns whether the job was processing with no artifact yet.
    pub fn complete_download(
        &mut self,
        id: &str,
        file_id: String,
        format: ImageFormat,
        file_size: usize,
        now: u64,
    ) -> (r: bool)
        requires
            old(self).wf(),
        ensures
            final(self).wf(),
            final(self).max_concurrent() == old(self).max_concurrent(),
            final(self).expiry() == old(self).expiry(),
            jobs_evolve(old(self).jobs(), final(self).jobs()),
            final(self).active() <= old(self).active(),
            r <==> old(self).jobs().contains_key(id@) && old(self).jobs()[id@].status
                == DownloadStatus::Processing && !old(self).files().contains_key(id@),
            r ==> final(self).jobs() == old(self).jobs().insert(
                id@,
                JobView {
                    status: DownloadStatus::Completed,
                    progress_percent: 100,
                    message: "Download ready"@,
                    completed_at: Some(now),
                    file_size: Some(file_size),
                    error_message: None,
                    ..old(self).jobs()[id@]
                },
            ) && final(self).files() == old(self).files().insert(
                id@,
                FileView {
                    download_id: id@,
                    metadata: new_metadata(file_id@, format, file_size, now, old(self).expiry()),
                },
            ),
            !r ==> final(self).job_list() == old(self).job_list() && final(self).file_list()
                == old(self).file_list(),
    {
        let i = match self.find_job(id) {
            None => { return false; },
            Some(i) => i,
        };
        proof {
            lemma_keyed_value(self.job_list(), job_key(), i as int);
        }
        if self.jobs[i].status != DownloadStatus::Processing || self.find_file(id).is_some() {
            return false;
        }
        let mut original_filename = owned("code-snippet.");
        original_filename.append(format.extension());
        let metadata = DownloadMetadata {
            file_id,
            original_filename,
            content_type: owned(format.content_type()),
            file_size,
            created_at: now,
            expires_at: now.saturating_add(self.download_expiry),
        };
        let entry = StoredDownload { download_id: owned(id), metadata };
        let ghost files_before = file_views(self.files@);
        self.files.push(entry);
        proof {
            assert(file_views(self.files@) =~= files_before.push(entry@));
            lemma_unique_push(files_before, file_key(), entry@);
            lemma_keyed_push(files_before, file_key(), entry@);
        }
        let old_rec = self.jobs[i].copy();
        let rec = DownloadProgress {
            status: DownloadStatus::Completed,
            progress_percent: 100,
            message: owned("Download ready"),
            completed_at: Some(now),
            file_size: Some(file_size),
            error_message: None,
            ..old_rec
        };
        let ghost before = self.job_list();
        self.replace_job(i, rec);
        proof {
            self.lemma_evolve_update(before, i as int, rec@);
        }
        true
    }

    /// The metadata of a job's artifact, for the caller to read the bytes from storage
    /// under it. Fails with "Download not found" when there is no artifact, and with
    /// "Download has expired" once `now` is past its expiry.
    pub fn get_download_file(&self, id: &str, now: u64) -> (r: Result<DownloadMetadata, AppError>)
        requires
            self.wf(),
        ensures
            fetch_outcome(self.files(), id@, now) == FetchOutcome::Ready <==> r is Ok,
            r is Ok ==> r->Ok_0@ == self.files()[id@].metadata,
            fetch_outcome(self.files(), id@, now) == FetchOutcome::NotFound ==> storage_error_with(
                r->Err_0,
                "Download not found"@,
            ),
            fetch_outcome(self.files(), id@, now) == FetchOutcome::Expired ==> storage_error_with(
                r->Err_0,
                "Download has expired"@,
            ),
            fetch_outcome(self.files(), id@, now) == FetchOutcome::UnknownType ==> storage_error_with(
                r->Err_0,
                "Unknown file type"@,
            ),
    {
        let i = match self.find_file(id) {
            None => { return Err(AppError::storage_failed("Download not found")); },
            Some(i) => i,
        };
        proof {
            lemma_keyed_value(self.file_list(), file_key(), i as int);
        }
        let metadata = &self.files[i].metadata;
        if now > metadata.expires_at {
            return Err(AppError::storage_failed("Download has expired"));
        }
        if extension_for_content_type(&metadata.content_type).is_none() {
            return Err(AppError::storage_failed("Unknown file type"));
        }
        Ok(metadata.copy())
    }

    /// Counts of jobs by status, and the number and total size of the artifacts (the
    /// size saturating at `usize::MAX`).
    pub fn get_stats(&self) -> (r: DownloadStats)
        ensures
            r.queued == count_status(self.job_list(), DownloadStatus::Queued),
            r.processing == count_status(self.job_list(), DownloadStatus::Processing),
            r.completed == count_status(self.job_list(), DownloadStatus::Completed),
            r.failed == count_status(self.job_list(), DownloadStatus::Failed),
            r.expired == count_status(self.job_list(), DownloadStatus::Expired),
            r.total_files == self.file_list().len(),
            r.total_size == if total_size(self.file_list()) > usize::MAX {
                usize::MAX as nat
            } else {
                total_size(self.file_list())
            },
    {
        let ghost v = job_views(self.jobs@);
        let mut st = DownloadStats {
            queued: 0,
            processing: 0,
            completed: 0,
            failed: 0,
            expired: 0,
            total_files: self.files.len(),
            total_size: 0,
        };
        let mut i: usize = 0;
        while i < self.jobs.len()
            invariant
                v == job_views(self.jobs@),
                i <= v.len(),
                st.total_files == file_views(self.files@).len(),
                st.total_size == 0,
                st.queued == count_status(v.take(i as int), DownloadStatus::Queued),
                st.processing == count_status(v.take(i as int), DownloadStatus::Processing),
                st.completed == count_status(v.take(i as int), DownloadStatus::Completed),
                st.failed == count_status(v.take(i as int), DownloadStatus::Failed),
                st.expired == count_status(v.take(i as int), DownloadStatus::Expired),
                st.queued + st.processing + st.completed + st.failed + st.expired <= i,
            decreases v.len() - i,
        {
            proof {
                let t = v.take(i as int);
                assert(v.take(i + 1) =~= t.push(v[i as int]));
                t.lemma_filter_push(v[i as int], |j: JobView| j.status == DownloadStatus::Queued);
                t.lemma_filter_push(v[i as int], |j: JobView| j.status == DownloadStatus::Processing);
                t.lemma_filter_push(v[i as int], |j: JobView| j.status == DownloadStatus::Completed);
                t.lemma_filter_push(v[i as int], |j: JobView| j.status == DownloadStatus::Failed);
                t.lemma_filter_push(v[i as int], |j: JobView| j.status == DownloadStatus::Expired);
            }
            match self.jobs[i].status {
                DownloadStatus::Queued => st.queued = st.queued + 1,
                DownloadStatus::Processing => st.processing = st.processing + 1,
                DownloadStatus::Completed => st.completed = st.completed + 1,
                DownloadStatus::Failed => st.failed = st.failed + 1,
                DownloadStatus::Expired => st.expired = st.expired + 1,
            }
            i = i + 1;
        }
        proof {
            assert(v.take(i as int) =~= v);
        }
        let ghost f = file_views(self.files@);
        let mut k: usize = 0;
        while k < self.files.len()
            invariant
                f == file_views(self.files@),
                k <= f.len(),
                st.queued == count_status(v, DownloadStatus::Queued),
                st.processing == count_status(v, DownloadStatus::Processing),
                st.completed == count_status(v, DownloadStatus::Completed),
                st.failed == count_status(v, DownloadStatus::Failed),
                st.expired == count_status(v, DownloadStatus::Expired),
                st.total_files == f.len(),
                st.total_size == if total_size(f.take(k as int)) > usize::MAX {
                    usize::MAX as nat
                } else {
                    total_size(f.take(k as int))
                },
            decreases f.len() - k,
        {
            proof {
                assert(f.take(k + 1).drop_last() =~= f.take(k as int));
            }
            st.total_size = st.total_size.saturating_add(self.files[k].metadata.file_size);
            k = k + 1;
        }
        proof {
            assert(f.take(k as int) =~= f);
        }
        st
    }

    /// Reclaims what has expired at `now`. Completed jobs whose artifact has expired
    /// become expired; the expired artifacts leave the service and are returned, for the
    /// caller to delete their files; job records older than a day are dropped,
    /// whatever their status.
    pub fn cleanup_expired_downloads(&mut self, now: u64) -> (r: Vec<StoredDownload>)
        requires
            old(self).wf(),
        ensures
            final(self).wf(),
            final(self).max_concurrent() == old(self).max_concurrent(),
            final(self).expiry() == old(self).expiry(),
            file_views(r@) == old(self).file_list().filter(expired_file(now)),
            final(self).file_list() == old(self).file_list().filter(live_file(now)),
            final(self).job_list() == old(self).job_list().map_values(
                |j: JobView| expire_job(j, old(self).files(), now),
            ).filter(recent_job(now)),
            jobs_evolve(old(self).jobs(), final(self).jobs()),
            final(self).active() <= old(self).active(),
    {
        let ghost old_jobs = self.job_list();
        let ghost old_files = self.files();
        // Expire the completed jobs whose artifact has lapsed.
        let mut i: usize = 0;
        while i < self.jobs.len()
            invariant
                self.wf(),
                self.files() == old_files,
                self.file_list() == old(self).file_list(),
                self.max_concurrent() == old(self).max_concurrent(),
                self.expiry() == old(self).expiry(),
                self.job_list().len() == old_jobs.len(),
                i <= old_jobs.len(),
                forall|j: int| 0 <= j < i ==> self.job_list()[j] == expire_job(old_jobs[j], old_files, now),
                forall|j: int| i <= j < old_jobs.len() ==> self.job_list()[j] == old_jobs[j],
            decreases old_jobs.len() - i,
        {
            let ghost cur = self.job_list()[i as int];
            assert(cur == old_jobs[i as int]);
            assert(cur == self.jobs@[i as int]@);
            if self.jobs[i].status == DownloadStatus::Completed {
                let found = self.find_file(self.jobs[i].download_id.as_str());
                if let Some(k) = found {
                    proof {
                        lemma_keyed_value(self.file_list(), file_key(), k as int);
                        assert(old_files[cur.id] == self.file_list()[k as int]);
                    }
                    if now > self.files[k].metadata.expires_at {
                        let old_rec = self.jobs[i].copy();
                        let rec = DownloadProgress { status: DownloadStatus::Expired, ..old_rec };
                        self.replace_job(i, rec);
                        assert(self.job_list()[i as int] == expire_job(cur, old_files, now));
                    } else {
                        assert(expire_job(cur, old_files, now) == cur);
                    }
                } else {
                    assert(expire_job(cur, old_files, now) == cur);
                }
            } else {
                assert(expire_job(cur, old_files, now) == cur);
            }
            i = i + 1;
        }
        proof {
            assert(self.job_list() =~= old_jobs.map_values(|j: JobView| expire_job(j, old_files, now)));
        }
        // Take the expired artifacts out.
        let ghost fv = self.file_list();
        let mut kept: Vec<StoredDownload> = Vec::new();
        let mut removed: Vec<StoredDownload> = Vec::new();
        let mut k: usize = 0;
        while k < self.files.len()
            invariant
                fv == file_views(self.files@),
                k <= fv.len(),
                file_views(kept@) == fv.take(k as int).filter(live_file(now)),
                file_views(removed@) == fv.take(k as int).filter(expired_file(now)),
            decreases fv.len() - k,
        {
            proof {
                assert(fv.take(k + 1) =~= fv.take(k as int).push(fv[k as int]));
                fv.take(k as int).lemma_filter_push(fv[k as int], live_file(now));
                fv.take(k as int).lemma_filter_push(fv[k as int], expired_file(now));
            }
            let entry = self.files[k].copy();
            let ghost kept_before = kept@;
            let ghost removed_before = removed@;
            if now > entry.metadata.expires_at {
                removed.push(entry);
                proof {
                    assert(file_views(removed@) =~= file_views(removed_before).push(entry@));
                }
            } else {
                kept.push(entry);
                proof {
                    assert(file_views(kept@) =~= file_views(kept_before).push(entry@));
                }
            }
            k = k + 1;
        }
        proof {
            assert(fv.take(k as int) =~= fv);
            lemma_keyed_filter(fv, file_key(), live_file(now));
        }
        self.files = kept;
        // Drop the job records older than a day.
        let ghost mv = self.job_list();
        proof {
            lemma_keyed_filter(mv, job_key(), recent_job(now));
        }
        let mut recent: Vec<DownloadProgress> = Vec::new();
        let mut n: usize = 0;
        while n < self.jobs.len()
            invariant
                mv == job_views(self.jobs@),
                n <= mv.len(),
                job_views(recent@) == mv.take(n as int).filter(recent_job(now)),
            decreases mv.len() - n,
        {
            proof {
                assert(mv.take(n + 1) =~= mv.take(n as int).push(mv[n as int]));
                mv.take(n as int).lemma_filter_push(mv[n as int], recent_job(now));
            }
            let rec = self.jobs[n].copy();
            let ghost recent_before = recent@;
            if now < JOB_RETENTION_MS || rec.created_at >= now - JOB_RETENTION_MS {
                recent.push(rec);
                proof {
                    assert(job_views(recent@) =~= job_views(recent_before).push(rec@));
                }
            }
            n = n + 1;
        }
        proof {
            assert(mv.take(n as int) =~= mv);
        }
        self.jobs = recent;
        proof {
            self.lemma_reclaim_evolves(old_jobs, old_files, now);
        }
        removed
    }

    proof fn lemma_reclaim_evolves(self, old_jobs: Seq<JobView>, old_files: Map<Seq<char>, FileView>, now: u64)
        requires
            keys_unique(old_jobs, job_key()),
            self.job_list() == old_jobs.map_values(|j: JobView| expire_job(j, old_files, now)).filter(
                recent_job(now),
            ),
        ensures
            jobs_evolve(keyed(old_jobs, job_key()), self.jobs()),
            active_in(self.job_list()) <= active_in(old_jobs),
    {
        let marked = old_jobs.map_values(|j: JobView| expire_job(j, old_files, now));
        lemma_marked_keys(old_jobs, old_files, now);
        lemma_keyed_filter(marked, job_key(), recent_job(now));
        assert forall|k: Seq<char>|
            #[trigger] self.jobs().contains_key(k) && keyed(old_jobs, job_key()).contains_key(
                k,
            ) implies status_follows(keyed(old_jobs, job_key())[k].status, self.jobs()[k].status) by {
            lemma_keyed_dom(old_jobs, job_key(), k);
            let i = choose|i: int| 0 <= i < old_jobs.len() && job_key()(old_jobs[i]) == k;
            lemma_keyed_value(old_jobs, job_key(), i);
            lemma_keyed_value(marked, job_key(), i);
        }
        lemma_active_marked(old_jobs, old_files, now);
        marked.lemma_filter_len(recent_job(now));
        lemma_filter_active_le(marked, recent_job(now));
    }

    /// Admits a job under the given id: checks the options, then the bound on jobs in
    /// progress, then records the job as queued. The check and the insertion happen in
    /// one call on the service, so no two admissions can both see room for one job.
    pub fn start_with_id(
        &mut self,
        id: String,
        code: &str,
        options: &EnhancedExportOptions,
        now: u64,
    ) -> (r: Result<String, AppError>)
        requires
            old(self).wf(),
        ensures
            final(self).wf(),
            final(self).max_concurrent() == old(self).max_concurrent(),
            final(self).expiry() == old(self).expiry(),
            final(self).file_list() == old(self).file_list(),
            !request_valid(code@, *options) ==> r is Err && is_validation_error(
                r->Err_0,
                request_violation(code@, *options)->Some_0,
            ),
            request_valid(code@, *options) && old(self).active() >= old(self).max_concurrent() ==> r is Err
                && busy_error(r->Err_0),
            request_valid(code@, *options) && old(self).active() < old(self).max_concurrent() && (old(
                self,
            ).jobs().contains_key(id@) || old(self).files().contains_key(id@)) ==> r is Err
                && r->Err_0 is InternalError,
            r is Err ==> final(self).job_list() == old(self).job_list(),
            r is Ok <==> request_valid(code@, *options) && old(self).active() < old(self).max_concurrent()
                && !old(self).jobs().contains_key(id@) && !old(self).files().contains_key(id@),
            r is Ok ==> r->Ok_0@ == id@ && final(self).job_list() == old(self).job_list().push(
                final(self).job_list().last(),
            ) && final(self).job_list().last() == queued_record(id@, now) && final(self).jobs()
                == old(self).jobs().insert(id@, queued_record(id@, now)) && final(self).active()
                == old(self).active() + 1 && final(self).active() <= final(self).max_concurrent(),
    {
        ExportService::validate_request(code, options)?;
        let active = self.count_active_downloads();
        if active >= self.max_concurrent_downloads {
            return Err(AppError::image_generation_failed("Server is busy. Please try again later."));
        }
        if self.find_job(id.as_str()).is_some() || self.find_file(id.as_str()).is_some() {
            return Err(AppError::internal_error("Job identifier already in use"));
        }
        let record = DownloadProgress {
            download_id: copy_string(&id),
            status: DownloadStatus::Queued,
            progress_percent: 0,
            message: owned("Download queued for processing"),
            created_at: now,
            completed_at: None,
            file_size: None,
            error_message: None,
        };
        let ghost old_jobs = job_views(self.jobs@);
        self.jobs.push(record);
        proof {
            assert(job_views(self.jobs@) =~= old_jobs.push(record@));
            lemma_unique_push(old_jobs, job_key(), record@);
            lemma_keyed_push(old_jobs, job_key(), record@);
            old_jobs.lemma_filter_push(record@, active_pred());
        }
        Ok(id)
    }
}

} // verus!

verus! {

/// One step of a run of the service: the bound stays the same, and the number of jobs
/// in progress either does not grow or stays within the bound. Every operation on the
/// service makes such a step, as its `ensures` state.
pub open spec fn admission_step(a: DownloadService, b: DownloadService) -> bool {
    &&& b.max_concurrent() == a.max_concurrent()
    &&& (b.active() <= a.active() || b.active() <= b.max_concurrent())
}

/// Admission bound: along any run of operations that starts within the bound, the jobs
/// queued or processing never outnumber `max_concurrent()`.
pub proof fn active_jobs_stay_within_bound(states: Seq<DownloadService>)
    requires
        states.len() > 0,
        states[0].active() <= states[0].max_concurrent(),
        forall|i: int| 0 <= i < states.len() - 1 ==> #[trigger] admission_step(states[i], states[i + 1]),
    ensures
        forall|i: int| 0 <= i < states.len() ==> #[trigger] states[i].active() <= states[i].max_concurrent(),
    decreases states.len(),
{
    if states.len() > 1 {
        let d = states.drop_last();
        assert forall|i: int| 0 <= i < d.len() - 1 implies #[trigger] admission_step(d[i], d[i + 1]) by {
            assert(admission_step(states[i], states[i + 1]));
        }
        active_jobs_stay_within_bound(d);
        assert forall|i: int| 0 <= i < states.len() implies #[trigger] states[i].active()
            <= states[i].max_concurrent() by {
            if i < states.len() - 1 {
                assert(d[i] == states[i]);
            } else {
                let p = states.len() - 2;
                assert(d[p] == states[p]);
                assert(admission_step(states[p], states[p + 1]));
            }
        }
    }
}

/// Status order: in the statuses a job shows over time, each following the one before as
/// the lifecycle permits, no status comes before one it follows: Queued, Processing,
/// then Completed or Failed, and Expired only after Completed.
pub proof fn statuses_never_regress(trace: Seq<DownloadStatus>, i: int, j: int)
    requires
        forall|k: int| 0 <= k < trace.len() - 1 ==> #[trigger] status_follows(trace[k], trace[k + 1]),
        0 <= i <= j < trace.len(),
    ensures
        status_rank(trace[i]) <= status_rank(trace[j]),
        trace[i] == DownloadStatus::Failed ==> trace[j] == DownloadStatus::Failed,
        trace[i] == DownloadStatus::Completed ==> trace[j] == DownloadStatus::Completed || trace[j]
            == DownloadStatus::Expired,
        trace[i] == DownloadStatus::Expired ==> trace[j] == DownloadStatus::Expired,
        trace[j] == DownloadStatus::Queued ==> trace[i] == DownloadStatus::Queued,
    decreases j - i,
{
    if i < j {
        statuses_never_regress(trace, i, j - 1);
        let k = j - 1;
        assert(status_follows(trace[k], trace[k + 1]));
    }
}

/// Expiry: after reclamation at `now`, no artifact is reported expired at `now`; one
/// that was expired is not found; any other id is reported as before.
pub proof fn fetch_after_reclaim(before: DownloadService, after: DownloadService, now: u64, id: Seq<char>)
    requires
        before.wf(),
        after.file_list() == before.file_list().filter(live_file(now)),
    ensures
        fetch_outcome(after.files(), id, now) != FetchOutcome::Expired,
        fetch_outcome(before.files(), id, now) == FetchOutcome::Expired ==> fetch_outcome(
            after.files(),
            id,
            now,
        ) == FetchOutcome::NotFound,
        fetch_outcome(before.files(), id, now) != FetchOutcome::Expired ==> fetch_outcome(
            after.files(),
            id,
            now,
        ) == fetch_outcome(before.files(), id, now),
{
    lemma_keyed_filter(before.file_list(), file_key(), live_file(now));
}

} // verus!

verus! {

/// Status order over a run of the service: when each state follows the one before as
/// every operation's `ensures` states (`jobs_evolve`), the statuses that a job shows in
/// the states that hold it never go back in its lifecycle.
pub proof fn observed_statuses_never_regress(states: Seq<DownloadService>, id: Seq<char>, i: int, j: int)
    requires
        forall|k: int| 0 <= k < states.len() - 1 ==> jobs_evolve(#[trigger] states[k].jobs(), states[k + 1].jobs()),
        forall|k: int| 0 <= k < states.len() ==> (#[trigger] states[k]).jobs().contains_key(id),
        0 <= i <= j < states.len(),
    ensures
        status_rank(states[i].jobs()[id].status) <= status_rank(states[j].jobs()[id].status),
        states[i].jobs()[id].status == DownloadStatus::Failed ==> states[j].jobs()[id].status
            == DownloadStatus::Failed,
        states[i].jobs()[id].status == DownloadStatus::Completed ==> states[j].jobs()[id].status
            == DownloadStatus::Completed || states[j].jobs()[id].status == DownloadStatus::Expired,
{
    let trace = states.map_values(|s: DownloadService| s.jobs()[id].status);
    assert forall|k: int| 0 <= k < trace.len() - 1 implies #[trigger] status_follows(trace[k], trace[k + 1]) by {
        assert(jobs_evolve(states[k].jobs(), states[k + 1].jobs()));
        assert(states[k + 1].jobs().contains_key(id));
        assert(states[k].jobs().contains_key(id));
    }
    statuses_never_regress(trace, i, j);
}

} // verus!
