use dljobs::job::JobStatus;
use dljobs::lifecycle::{classify, Capture, Outcome};
use dljobs::store::JobStore;

fn capture(success: bool, code: Option<i32>, stdout: &str, stderr: &str) -> Capture {
    Capture {
        exit_success: success,
        exit_code: code,
        stdout: stdout.to_string(),
        stderr: stderr.to_string(),
    }
}

#[test]
fn submission_creates_pending_record() {
    let mut s = JobStore::new();
    assert_eq!(s.len(), 0);
    let fresh = s.submit_with_id(1, "https://example.com/a".to_string(), "default".to_string(), 42);
    assert!(fresh);
    assert_eq!(s.len(), 1);
    let job = s.get_copy(1).unwrap();
    assert_eq!(job.id, 1);
    assert_eq!(job.url, "https://example.com/a");
    assert_eq!(job.profile, "default");
    assert_eq!(job.status, JobStatus::Pending);
    assert_eq!(job.progress, 0);
    assert_eq!(job.created_at, 42);
    assert!(job.logs.is_empty());
}

#[test]
fn duplicate_id_is_rejected_and_store_unchanged() {
    let mut s = JobStore::new();
    assert!(s.submit_with_id(5, "u1".to_string(), "p1".to_string(), 0));
    assert!(!s.submit_with_id(5, "u2".to_string(), "p2".to_string(), 1));
    assert_eq!(s.len(), 1);
    let job = s.get_copy(5).unwrap();
    assert_eq!(job.url, "u1");
    assert_eq!(job.profile, "p1");
}

#[test]
fn many_submissions_all_present_and_distinct() {
    let mut s = JobStore::new();
    let mut ids = Vec::new();
    for i in 0..20u128 {
        assert!(s.submit_with_id(i, format!("url-{}", i), "default".to_string(), i as i64));
        ids.push(i);
    }
    assert_eq!(s.len(), 20);
    for id in &ids {
        let job = s.get_copy(*id).unwrap();
        assert_eq!(job.id, *id);
        assert_eq!(job.url, format!("url-{}", id));
    }
    let snap = s.snapshot();
    assert_eq!(snap.len(), 20);
    for (k, job) in snap.iter().enumerate() {
        assert_eq!(job.id, k as u128);
    }
}

#[test]
fn generated_ids_are_distinct_and_present() {
    let mut s = JobStore::new();
    let a = s.submit("u1".to_string(), "p".to_string()).unwrap();
    let b = s.submit("u2".to_string(), "p".to_string()).unwrap();
    let c = s.submit("u3".to_string(), "p".to_string()).unwrap();
    assert_ne!(a, b);
    assert_ne!(b, c);
    assert_ne!(a, c);
    assert_eq!(s.len(), 3);
    assert_eq!(s.get_copy(a).unwrap().url, "u1");
    assert_eq!(s.get_copy(b).unwrap().url, "u2");
    assert_eq!(s.get_copy(c).unwrap().url, "u3");
}

#[test]
fn unknown_id_yields_nothing() {
    let mut s = JobStore::new();
    assert!(s.get_copy(99).is_none());
    assert!(s.submit_with_id(1, "u".to_string(), "p".to_string(), 0));
    assert!(s.get_copy(99).is_none());
}

#[test]
fn successful_run_completes_job() {
    let mut s = JobStore::new();
    assert!(s.submit_with_id(1, "https://example.com/a".to_string(), "default".to_string(), 0));
    s.mark_running(1);
    let running = s.get_copy(1).unwrap();
    assert_eq!(running.status, JobStatus::Running);
    assert_eq!(running.progress, 0);
    assert_eq!(running.logs, vec!["Starting download: https://example.com/a".to_string()]);

    let outcome = classify(Ok(capture(true, Some(0), "saved track\n", "")));
    s.apply_outcome(1, &outcome);
    let done = s.get_copy(1).unwrap();
    assert_eq!(done.status, JobStatus::Completed);
    assert_eq!(done.progress, 100);
    assert_eq!(
        done.logs,
        vec![
            "Starting download: https://example.com/a".to_string(),
            "Download completed successfully".to_string(),
            "[stdout] saved track".to_string(),
        ]
    );
}

#[test]
fn nonzero_exit_fails_job_with_code_and_stderr() {
    let mut s = JobStore::new();
    assert!(s.submit_with_id(1, "u".to_string(), "p".to_string(), 0));
    s.mark_running(1);
    let outcome = classify(Ok(capture(false, Some(2), "", "format unsupported\n")));
    s.apply_outcome(1, &outcome);
    let done = s.get_copy(1).unwrap();
    assert_eq!(done.status, JobStatus::Failed);
    assert_eq!(done.progress, 0);
    assert!(done.logs.iter().any(|l| l.contains("exit code: 2")));
    assert!(done.logs.iter().any(|l| l.contains("format unsupported")));
}

#[test]
fn missing_exit_code_is_reported_as_minus_one() {
    let mut s = JobStore::new();
    assert!(s.submit_with_id(1, "u".to_string(), "p".to_string(), 0));
    s.mark_running(1);
    let outcome = classify(Ok(capture(false, None, "", "")));
    s.apply_outcome(1, &outcome);
    let done = s.get_copy(1).unwrap();
    assert_eq!(done.status, JobStatus::Failed);
    assert!(done.logs.iter().any(|l| l == "Download failed with exit code: -1"));
}

#[test]
fn spawn_error_fails_job_with_message() {
    let mut s = JobStore::new();
    assert!(s.submit_with_id(1, "u".to_string(), "p".to_string(), 0));
    s.mark_running(1);
    let outcome = classify(Err("No such file or directory".to_string()));
    s.apply_outcome(1, &outcome);
    let done = s.get_copy(1).unwrap();
    assert_eq!(done.status, JobStatus::Failed);
    assert_eq!(done.progress, 0);
    assert!(done
        .logs
        .iter()
        .any(|l| l == "Failed to execute command: No such file or directory"));
}

#[test]
fn failure_logs_cap_stderr_at_ten_and_stdout_at_five() {
    let mut s = JobStore::new();
    assert!(s.submit_with_id(1, "u".to_string(), "p".to_string(), 0));
    s.mark_running(1);
    let stderr: String = (0..15).map(|i| format!("e{}\n", i)).collect();
    let stdout: String = (0..9).map(|i| format!("o{}\n", i)).collect();
    let outcome = classify(Ok(capture(false, Some(3), &stdout, &stderr)));
    s.apply_outcome(1, &outcome);
    let done = s.get_copy(1).unwrap();
    let errors: Vec<_> = done.logs.iter().filter(|l| l.starts_with("Error: ")).collect();
    let outputs: Vec<_> = done.logs.iter().filter(|l| l.starts_with("Output: ")).collect();
    assert_eq!(errors.len(), 10);
    assert_eq!(outputs.len(), 5);
    assert_eq!(errors[0], "Error: e0");
    assert_eq!(errors[9], "Error: e9");
    assert_eq!(outputs[4], "Output: o4");
}

#[test]
fn success_keeps_all_output_lines_with_prefixes() {
    let mut s = JobStore::new();
    assert!(s.submit_with_id(1, "u".to_string(), "p".to_string(), 0));
    s.mark_running(1);
    let outcome = classify(Ok(capture(true, Some(0), "a\nb\n", "w1\nw2\n")));
    s.apply_outcome(1, &outcome);
    let done = s.get_copy(1).unwrap();
    assert_eq!(
        done.logs,
        vec![
            "Starting download: u".to_string(),
            "Download completed successfully".to_string(),
            "[stdout] a".to_string(),
            "[stdout] b".to_string(),
            "[stderr] w1".to_string(),
            "[stderr] w2".to_string(),
        ]
    );
}

#[test]
fn logs_only_grow_and_status_never_regresses() {
    let mut s = JobStore::new();
    assert!(s.submit_with_id(1, "u".to_string(), "p".to_string(), 0));
    let l0 = s.get_copy(1).unwrap().logs;
    s.mark_running(1);
    let j1 = s.get_copy(1).unwrap();
    assert!(j1.logs.len() >= l0.len());
    assert_eq!(&j1.logs[..l0.len()], &l0[..]);
    let outcome = classify(Ok(capture(true, Some(0), "", "")));
    s.apply_outcome(1, &outcome);
    let j2 = s.get_copy(1).unwrap();
    assert!(j2.logs.len() >= j1.logs.len());
    assert_eq!(&j2.logs[..j1.logs.len()], &j1.logs[..]);
    assert_eq!(j2.status, JobStatus::Completed);
}

#[test]
fn progress_is_full_exactly_on_completion() {
    let mut s = JobStore::new();
    assert!(s.submit_with_id(1, "u".to_string(), "p".to_string(), 0));
    assert!(s.submit_with_id(2, "v".to_string(), "p".to_string(), 0));
    s.mark_running(1);
    s.mark_running(2);
    s.apply_outcome(1, &classify(Ok(capture(true, Some(0), "", ""))));
    s.apply_outcome(2, &classify(Ok(capture(false, Some(1), "", ""))));
    for job in s.snapshot() {
        assert_eq!(job.progress == 100, job.status == JobStatus::Completed);
    }
}

#[test]
fn classify_distinguishes_the_three_outcomes() {
    match classify(Ok(capture(true, Some(0), "x\n", "y\n"))) {
        Outcome::Succeeded { stdout, stderr } => {
            assert_eq!(stdout, vec!["x".to_string()]);
            assert_eq!(stderr, vec!["y".to_string()]);
        },
        _ => panic!("expected a success"),
    }
    match classify(Ok(capture(false, Some(7), "o\n", "e\n"))) {
        Outcome::Failed { code, stderr, stdout } => {
            assert_eq!(code, 7);
            assert_eq!(stderr, vec!["e".to_string()]);
            assert_eq!(stdout, vec!["o".to_string()]);
        },
        _ => panic!("expected a failure"),
    }
    match classify(Err("gone".to_string())) {
        Outcome::SpawnError { message } => assert_eq!(message, "gone"),
        _ => panic!("expected a spawn error"),
    }
}
