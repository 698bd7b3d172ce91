//! Uploads: the content hash that identifies a file, the test that keeps a
//! file from being analysed twice, the request that submits it, and the life
//! of one analysis job from submission to its single poll.
use vstd::prelude::*;

use base64::Engine;

verus! {

/// The SHA-256 digest of a byte string, as lower-case hexadecimal text.
pub uninterp spec fn sha256_hex(bytes: Seq<u8>) -> Seq<char>;

/// The standard, padded base64 encoding of a byte string.
pub uninterp spec fn base64_of(bytes: Seq<u8>) -> Seq<char>;

/// Relies on `sha256::digest` over a byte slice: the digest depends on the
/// bytes alone.
#[verifier::external_body]
fn sha256_digest(bytes: &[u8]) -> (r: String)
    ensures
        r@ == sha256_hex(bytes@),
{
    sha256::digest(bytes)
}

/// A character of the standard base64 alphabet, or its padding `=`.
pub open spec fn is_base64_char(c: char) -> bool {
    ('A' <= c && c <= 'Z') || ('a' <= c && c <= 'z') || ('0' <= c && c <= '9') || c == '+' || c
        == '/' || c == '='
}

/// Relies on `base64::prelude::BASE64_STANDARD.encode`: the standard
/// alphabet with padding, four characters for each started group of three
/// bytes. Its buffer size is computed with checked arithmetic that fails only
/// for inputs near `usize::MAX`, which `requires` leaves out.
#[verifier::external_body]
fn base64_encode(bytes: &[u8]) -> (r: String)
    requires
        bytes@.len() <= usize::MAX / 2,
    ensures
        r@ == base64_of(bytes@),
        r@.len() == (bytes@.len() + 2) / 3 * 4,
        forall|i: int| 0 <= i < r@.len() ==> is_base64_char(#[trigger] r@[i]),
{
    base64::prelude::BASE64_STANDARD.encode(bytes)
}

/// The content hash that identifies an uploaded file.
pub fn content_hash(bytes: &[u8]) -> (r: String)
    ensures
        r@ == sha256_hex(bytes@),
{
    sha256_digest(bytes)
}

/// Whether `hash` is among the cached hashes.
pub open spec fn is_cached(cached: Seq<String>, hash: Seq<char>) -> bool {
    exists|i: int| 0 <= i < cached.len() && #[trigger] cached[i]@ == hash
}

/// Whether a file hash already has a cache entry, a placeholder or a full
/// response.
pub fn is_known(cached: &Vec<String>, hash: &String) -> (r: bool)
    ensures
        r == is_cached(cached@, hash@),
{
    let mut i: usize = 0;
    while i < cached.len()
        invariant
            i <= cached.len(),
            forall|k: int| 0 <= k < i ==> #[trigger] cached@[k]@ != hash@,
        decreases cached.len() - i,
    {
        if cached[i] == *hash {
            return true;
        }
        i = i + 1;
    }
    false
}

pub open spec fn request_body_prefix() -> Seq<char> {
    seq!['{', '"', 'b', 'a', 's', 'e', '6', '4', 'S', 'o', 'u', 'r', 'c', 'e', '"', ':', '"']
}

pub open spec fn request_body_suffix() -> Seq<char> {
    seq!['"', '}']
}

/// The JSON body that submits base64 text for analysis:
/// `{"base64Source":"<text>"}`. The encoded text holds only letters,
/// digits, `+`, `/` and `=`, none of which JSON escapes.
pub open spec fn request_body_of(encoded: Seq<char>) -> Seq<char> {
    request_body_prefix() + encoded + request_body_suffix()
}

/// Why an upload was not submitted, or why its job was given up.
#[derive(Debug, Clone, Copy, PartialEq, Eq, Structural)]
pub enum IngestError {
    /// A file with the same content hash was submitted before.
    AlreadyAnalyzed,
    /// The analysis service answered the submission with another status than
    /// 202 Accepted.
    RemoteRejected(u16),
    /// The service accepted the job but named no place to poll for it.
    MissingOperationLocation,
    /// The one fetch of the job's result failed.
    PollFailed,
}

/// A new file, ready to be submitted: its content hash, which is reserved in
/// the cache first, and the request body.
#[derive(Debug, Clone, PartialEq)]
pub struct Submission {
    pub file_hash: String,
    pub body: String,
}

/// Decides on an uploaded file: refused when its content hash is already
/// cached, else hashed and encoded for submission.
pub fn prepare_submission(file: &[u8], cached: &Vec<String>) -> (r: Result<Submission, IngestError>)
    requires
        file@.len() <= usize::MAX / 2,
    ensures
        is_cached(cached@, sha256_hex(file@)) <==> r == Err::<Submission, IngestError>(
            IngestError::AlreadyAnalyzed,
        ),
        !is_cached(cached@, sha256_hex(file@)) ==> r is Ok,
        r is Ok ==> r->Ok_0.file_hash@ == sha256_hex(file@) && r->Ok_0.body@ == request_body_of(
            base64_of(file@),
        ),
        r is Ok ==> r->Ok_0.body@.len() == 19 + (file@.len() + 2) / 3 * 4,
{
    let file_hash = content_hash(file);
    if is_known(cached, &file_hash) {
        return Err(IngestError::AlreadyAnalyzed);
    }
    let encoded = base64_encode(file);
    let mut body = String::from_str("{\"base64Source\":\"");
    body.append(encoded.as_str());
    body.append("\"}");
    proof {
        reveal_strlit("{\"base64Source\":\"");
        reveal_strlit("\"}");
        assert(body@ =~= request_body_of(base64_of(file@)));
    }
    Ok(Submission { file_hash, body })
}

/// Where an analysis job stands.
#[derive(Debug, Clone, Copy, PartialEq, Eq, Structural)]
pub enum JobStatus {
    /// Sent to the service; no answer yet.
    Submitted,
    /// Accepted; its result is to be fetched once, after a fixed delay.
    Polling,
    /// Its result was fetched and handed on.
    Completed,
    /// The service refused it or its result could not be fetched.
    Failed,
}

/// What the caller does next for a job.
#[derive(Debug, Clone, PartialEq)]
pub enum JobAction {
    /// Wait the fixed delay, then fetch the result from this address once.
    PollAfterDelay(String),
    /// Cache this raw result under the job's file hash and persist it.
    CacheAndPersist(String),
    /// Give the job up; the reason is for the log.
    Abandon(IngestError),
    /// Nothing: the event does not fit the job's status.
    Ignore,
}

/// One analysis job: the file it is for, the address of its result once the
/// service gave one, and where it stands.
#[derive(Debug, Clone, PartialEq)]
pub struct AnalysisJob {
    pub file_hash: String,
    pub result_url: Option<String>,
    pub status: JobStatus,
}

/// HTTP 202 Accepted.
pub const STATUS_ACCEPTED: u16 = 202;

/// Seconds between the service accepting a job and the one fetch of its result.
pub const POLL_DELAY_SECS: u64 = 30;

impl AnalysisJob {
    /// A job that was just submitted for a file.
    pub fn submitted(file_hash: String) -> (r: AnalysisJob)
        ensures
            r.file_hash == file_hash,
            r.result_url is None,
            r.status == JobStatus::Submitted,
    {
        AnalysisJob { file_hash, result_url: None, status: JobStatus::Submitted }
    }

    /// The service answered the submission with a status code and, maybe, an
    /// `Operation-Location` header. 202 with the header starts polling;
    /// anything else fails the job.
    pub fn on_submission_answer(&mut self, status_code: u16, operation_location: Option<String>) -> (r:
        JobAction)
        ensures
            final(self).file_hash == old(self).file_hash,
            old(self).status != JobStatus::Submitted ==> r == JobAction::Ignore && *final(self)
                == *old(self),
            old(self).status == JobStatus::Submitted ==> {
                if status_code != STATUS_ACCEPTED {
                    &&& r == JobAction::Abandon(IngestError::RemoteRejected(status_code))
                    &&& final(self).status == JobStatus::Failed
                    &&& final(self).result_url == old(self).result_url
                } else if operation_location is None {
                    &&& r == JobAction::Abandon(IngestError::MissingOperationLocation)
                    &&& final(self).status == JobStatus::Failed
                    &&& final(self).result_url == old(self).result_url
                } else {
                    &&& r == JobAction::PollAfterDelay(operation_location->0)
                    &&& final(self).status == JobStatus::Polling
                    &&& final(self).result_url == operation_location
                }
            },
    {
        if self.status != JobStatus::Submitted {
            return JobAction::Ignore;
        }
        if status_code != STATUS_ACCEPTED {
            self.status = JobStatus::Failed;
            return JobAction::Abandon(IngestError::RemoteRejected(status_code));
        }
        match operation_location {
            None => {
                self.status = JobStatus::Failed;
                JobAction::Abandon(IngestError::MissingOperationLocation)
            },
            Some(url) => {
                self.status = JobStatus::Polling;
                self.result_url = Some(url.clone());
                JobAction::PollAfterDelay(url)
            },
        }
    }

    /// The one fetch of the result came back: with the raw body, or with none
    /// where it failed. A job is never polled twice.
    pub fn on_poll_answer(&mut self, body: Option<String>) -> (r: JobAction)
        ensures
            final(self).file_hash == old(self).file_hash,
            final(self).result_url == old(self).result_url,
            old(self).status != JobStatus::Polling ==> r == JobAction::Ignore && *final(self)
                == *old(self),
            old(self).status == JobStatus::Polling ==> match body {
                Some(text) => r == JobAction::CacheAndPersist(text) && final(self).status
                    == JobStatus::Completed,
                None => r == JobAction::Abandon(IngestError::PollFailed) && final(self).status
                    == JobStatus::Failed,
            },
    {
        if self.status != JobStatus::Polling {
            return JobAction::Ignore;
        }
        match body {
            Some(text) => {
                self.status = JobStatus::Completed;
                JobAction::CacheAndPersist(text)
            },
            None => {
                self.status = JobStatus::Failed;
                JobAction::Abandon(IngestError::PollFailed)
            },
        }
    }
}

pub open spec fn queued_message_prefix() -> Seq<char> {
    "Successfully queued image analysis. Result will be available at: "@
}

/// The answer to an accepted upload: where the result will be.
pub fn queued_message(result_url: &str) -> (r: String)
    ensures
        r@ == queued_message_prefix() + result_url@,
{
    let mut msg = String::from_str("Successfully queued image analysis. Result will be available at: ");
    msg.append(result_url);
    msg
}

/// Whether a bearer token grants access: it must equal the shared secret.
pub fn is_authorized(secret: &String, token: &str) -> (r: bool)
    ensures
        r == (secret@ == token@),
{
    let presented = String::from_str(token);
    *secret == presented
}

} // verus!
