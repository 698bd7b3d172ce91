use receipt_ingest::ingest::{
    content_hash, is_authorized, is_known, prepare_submission, queued_message, AnalysisJob,
    IngestError, JobAction, JobStatus,
};

#[test]
fn content_hash_is_sha256_hex() {
    assert_eq!(
        content_hash(b"abc"),
        "ba7816bf8f01cfea414140de5dae2223b00361a396177a9cb410ff61f20015ad"
    );
}

#[test]
fn known_hash_is_found() {
    let cached = vec!["aa".to_string(), "bb".to_string()];
    assert!(is_known(&cached, &"bb".to_string()));
    assert!(!is_known(&cached, &"cc".to_string()));
    assert!(!is_known(&vec![], &"aa".to_string()));
}

#[test]
fn new_file_is_prepared_for_submission() {
    let s = prepare_submission(b"hello", &vec![]).unwrap();
    assert_eq!(s.file_hash, content_hash(b"hello"));
    assert_eq!(s.body, "{\"base64Source\":\"aGVsbG8=\"}");
    assert_eq!(s.body.len(), 19 + 8);
}

#[test]
fn cached_file_is_refused() {
    let cached = vec![content_hash(b"hello")];
    assert_eq!(prepare_submission(b"hello", &cached), Err(IngestError::AlreadyAnalyzed));
    assert!(prepare_submission(b"other", &cached).is_ok());
}

#[test]
fn accepted_job_polls_its_location() {
    let mut job = AnalysisJob::submitted("h".to_string());
    let a = job.on_submission_answer(202, Some("https://x/results/1".to_string()));
    assert_eq!(a, JobAction::PollAfterDelay("https://x/results/1".to_string()));
    assert_eq!(job.status, JobStatus::Polling);
    assert_eq!(job.result_url, Some("https://x/results/1".to_string()));
    let b = job.on_poll_answer(Some("{}".to_string()));
    assert_eq!(b, JobAction::CacheAndPersist("{}".to_string()));
    assert_eq!(job.status, JobStatus::Completed);
    assert_eq!(job.on_poll_answer(Some("again".to_string())), JobAction::Ignore);
    assert_eq!(job.status, JobStatus::Completed);
}

#[test]
fn rejected_job_fails() {
    let mut job = AnalysisJob::submitted("h".to_string());
    assert_eq!(
        job.on_submission_answer(500, Some("u".to_string())),
        JobAction::Abandon(IngestError::RemoteRejected(500))
    );
    assert_eq!(job.status, JobStatus::Failed);
    assert_eq!(job.result_url, None);
}

#[test]
fn accepted_job_without_location_fails() {
    let mut job = AnalysisJob::submitted("h".to_string());
    assert_eq!(
        job.on_submission_answer(202, None),
        JobAction::Abandon(IngestError::MissingOperationLocation)
    );
    assert_eq!(job.status, JobStatus::Failed);
}

#[test]
fn failed_poll_abandons_job() {
    let mut job = AnalysisJob::submitted("h".to_string());
    job.on_submission_answer(202, Some("u".to_string()));
    assert_eq!(job.on_poll_answer(None), JobAction::Abandon(IngestError::PollFailed));
    assert_eq!(job.status, JobStatus::Failed);
}

#[test]
fn poll_before_acceptance_is_ignored() {
    let mut job = AnalysisJob::submitted("h".to_string());
    assert_eq!(job.on_poll_answer(Some("x".to_string())), JobAction::Ignore);
    assert_eq!(job.status, JobStatus::Submitted);
}

#[test]
fn queued_message_names_the_url() {
    assert_eq!(
        queued_message("https://x/r"),
        "Successfully queued image analysis. Result will be available at: https://x/r"
    );
}

#[test]
fn bearer_token_must_match_exactly() {
    let secret = "s3cret".to_string();
    assert!(is_authorized(&secret, "s3cret"));
    assert!(!is_authorized(&secret, "s3cret "));
    assert!(!is_authorized(&secret, ""));
}
