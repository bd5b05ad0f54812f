use dljobs::job::JobStatus;
use dljobs::response::{
    get_job_response, health_response, list_jobs_response, profiles_response,
    server_status_response, start_server_response, ApiResponse,
};
use dljobs::store::JobStore;
use dljobs::token::TokenServerHandle;

#[test]
fn health_is_always_ok() {
    let r = health_response();
    assert!(r.success);
    assert_eq!(r.data, Some("OK".to_string()));
    assert!(r.error.is_none());
}

#[test]
fn envelope_constructors_fill_exactly_one_side() {
    let ok: ApiResponse<u32> = ApiResponse::ok(7);
    assert!(ok.success);
    assert_eq!(ok.data, Some(7));
    assert!(ok.error.is_none());
    let bad: ApiResponse<u32> = ApiResponse::failure("went wrong".to_string());
    assert!(!bad.success);
    assert!(bad.data.is_none());
    assert_eq!(bad.error, Some("went wrong".to_string()));
}

#[test]
fn unknown_job_yields_failure_with_message() {
    let s = JobStore::new();
    let r = get_job_response(&s, 424242);
    assert!(!r.success);
    assert!(r.data.is_none());
    let msg = r.error.expect("an error message is owed");
    assert!(!msg.is_empty());
    assert_eq!(msg, "Job not found");
}

#[test]
fn known_job_yields_its_record() {
    let mut s = JobStore::new();
    assert!(s.submit_with_id(8, "u".to_string(), "p".to_string(), 3));
    let r = get_job_response(&s, 8);
    assert!(r.success);
    assert!(r.error.is_none());
    let job = r.data.expect("the record is owed");
    assert_eq!(job.id, 8);
    assert_eq!(job.status, JobStatus::Pending);
}

#[test]
fn job_listing_carries_every_record() {
    let mut s = JobStore::new();
    assert!(s.submit_with_id(1, "a".to_string(), "p".to_string(), 0));
    assert!(s.submit_with_id(2, "b".to_string(), "p".to_string(), 0));
    let r = list_jobs_response(&s);
    assert!(r.success);
    let jobs = r.data.unwrap();
    assert_eq!(jobs.len(), 2);
    assert_eq!(jobs[0].url, "a");
    assert_eq!(jobs[1].url, "b");
}

#[test]
fn profile_endpoint_parses_or_reports_failure() {
    let ok = profiles_response(Some("\x1b[32m\u{2713} profileA\x1b[0m\nother text\n".to_string()));
    assert!(ok.success);
    assert_eq!(ok.data, Some(vec!["profileA".to_string()]));
    assert!(ok.error.is_none());

    let bad = profiles_response(None);
    assert!(!bad.success);
    assert!(bad.data.is_none());
    let msg = bad.error.unwrap();
    assert!(!msg.is_empty());
    assert_eq!(msg, "Failed to list profiles");
}

#[test]
fn token_server_handle_tracks_only_a_recorded_pid() {
    let mut h = TokenServerHandle::new();
    assert!(!h.is_recorded());
    let r0 = server_status_response(&h);
    assert!(r0.success);
    assert_eq!(r0.data, Some(false));

    let started = start_server_response(&mut h, Ok(4321));
    assert!(started.success);
    assert_eq!(started.data, Some("Server started".to_string()));
    assert!(h.is_recorded());
    assert_eq!(h.pid, Some(4321));

    let r1 = server_status_response(&h);
    assert_eq!(r1.data, Some(true));
}

#[test]
fn failed_start_leaves_handle_unchanged() {
    let mut h = TokenServerHandle::new();
    let r = start_server_response(&mut h, Err("no node".to_string()));
    assert!(!r.success);
    assert!(r.data.is_none());
    assert_eq!(r.error, Some("no node".to_string()));
    assert!(!h.is_recorded());

    let mut h2 = TokenServerHandle::new();
    h2.record(7);
    let r2 = start_server_response(&mut h2, Err("busy".to_string()));
    assert!(!r2.success);
    assert_eq!(h2.pid, Some(7));
}
