use turbopack_support::fs::disk_access::{IoErrorKind, IoFailure, extract_disk_access};
use turbopack_support::fs::fs_batch::{BatchAttempt, BatchStep, batch_has_room, batch_step};
use turbopack_support::fs::offload_blocking::{Attempt, OffloadStep, offload_step};
use turbopack_support::fs::retry::{MAX_RETRY_ATTEMPTS, RetryStep, after_failure, can_retry, get_retry_wait_time};
use turbopack_support::fs::uri::{uri_from_file, uri_from_path_buf};
use turbopack_support::parallelism::available_parallelism;

fn failure(kind: IoErrorKind, code: Option<i32>) -> IoFailure {
    IoFailure { kind, raw_os_error: code, message: "failed".to_string() }
}

#[test]
fn missing_files_are_absent_not_errors() {
    let ok: Result<u8, IoFailure> = Ok(3);
    assert!(matches!(extract_disk_access(ok, "/a"), Ok(Some(3))));
    let missing: Result<u8, IoFailure> = Err(failure(IoErrorKind::NotFound, None));
    assert!(matches!(extract_disk_access(missing, "/a"), Ok(None)));
    let invalid: Result<u8, IoFailure> = Err(failure(IoErrorKind::InvalidFilename, None));
    assert!(matches!(extract_disk_access(invalid, "/a"), Ok(None)));
    let denied: Result<u8, IoFailure> = Err(failure(IoErrorKind::PermissionDenied, None));
    match extract_disk_access(denied, "/project/a.txt") {
        Err(e) => {
            assert_eq!(e.context, "reading file /project/a.txt");
            assert_eq!(e.source.kind, IoErrorKind::PermissionDenied);
        },
        Ok(_) => panic!("expected an error"),
    }
}

#[test]
fn retry_policy_of_thread_pool() {
    assert!(can_retry(&failure(IoErrorKind::PermissionDenied, None)));
    assert!(can_retry(&failure(IoErrorKind::WouldBlock, None)));
    assert!(can_retry(&failure(IoErrorKind::Other, Some(24))));
    assert!(can_retry(&failure(IoErrorKind::Other, Some(23))));
    assert!(!can_retry(&failure(IoErrorKind::Other, Some(2))));
    assert!(!can_retry(&failure(IoErrorKind::NotFound, None)));
    assert_eq!(get_retry_wait_time(1), 100);
    assert_eq!(get_retry_wait_time(3), 300);
    let busy = failure(IoErrorKind::WouldBlock, None);
    assert_eq!(after_failure(1, &busy), RetryStep::Retry { wait_ms: 100 });
    assert_eq!(after_failure(MAX_RETRY_ATTEMPTS - 1, &busy), RetryStep::Retry { wait_ms: 900 });
    assert_eq!(after_failure(MAX_RETRY_ATTEMPTS, &busy), RetryStep::GiveUp);
    assert_eq!(after_failure(1, &failure(IoErrorKind::NotFound, None)), RetryStep::GiveUp);
}

#[test]
fn retry_loop_makes_at_most_ten_attempts() {
    let busy = failure(IoErrorKind::WouldBlock, None);
    let mut attempt = 1;
    let mut calls = 1;
    while let RetryStep::Retry { .. } = after_failure(attempt, &busy) {
        attempt += 1;
        calls += 1;
    }
    assert_eq!(calls, MAX_RETRY_ATTEMPTS);
}

#[test]
fn offload_steps() {
    assert!(matches!(offload_step::<u8>(1, Attempt::Ran(Ok(5))), OffloadStep::Return(Ok(5))));
    assert!(matches!(offload_step::<u8>(1, Attempt::Ran(Err(failure(IoErrorKind::WouldBlock, None)))), OffloadStep::Again));
    assert!(matches!(offload_step::<u8>(10, Attempt::Ran(Err(failure(IoErrorKind::WouldBlock, None)))), OffloadStep::Return(Err(_))));
    assert!(matches!(offload_step::<u8>(1, Attempt::Ran(Err(failure(IoErrorKind::Other, Some(24))))), OffloadStep::Return(Err(_))));
    assert!(matches!(offload_step::<u8>(12, Attempt::Dropped), OffloadStep::Again));
}

#[test]
fn batch_steps() {
    assert!(matches!(batch_step::<u8>(1, BatchAttempt::Ran(Ok(5))), BatchStep::Return(Ok(5))));
    assert!(matches!(batch_step::<u8>(2, BatchAttempt::Ran(Err(failure(IoErrorKind::PermissionDenied, None)))), BatchStep::Again));
    match batch_step::<u8>(1, BatchAttempt::Panicked("boom".to_string())) {
        BatchStep::Resume(m) => assert_eq!(m, "boom"),
        _ => panic!("expected the panic to be passed on"),
    }
    assert!(matches!(batch_step::<u8>(1, BatchAttempt::Dropped), BatchStep::Again));
    assert!(batch_has_room(99));
    assert!(!batch_has_room(100));
}

#[test]
fn file_uris_percent_encode_each_segment() {
    assert_eq!(uri_from_path_buf("/project/src/a b.js"), "file:///project/src/a%20b.js");
    assert_eq!(uri_from_path_buf("/π/x"), "file:///%CF%80/x");
    assert_eq!(uri_from_path_buf(""), "file://");
    assert_eq!(uri_from_path_buf("a//b/"), "file://a//b/");
}

#[test]
fn parallelism_defaults_to_one() {
    assert_eq!(available_parallelism(Some(8)), 8);
    assert_eq!(available_parallelism(None), 1);
}

#[test]
fn file_urls_need_absolute_paths() {
    assert_eq!(uri_from_file("/tmp/foo.txt").unwrap(), "file:///tmp/foo.txt");
    assert_eq!(uri_from_file("/a b").unwrap(), "file:///a%20b");
    let err = uri_from_file("../foo").unwrap_err();
    assert_eq!(err.path, "../foo");
}
