use mko_core::error::MkoError;
use mko_core::fingerprint::{fingerprint_file, FileSnapshot, MAX_ASSET_BYTES};
use mko_core::model::Timestamp;
use mko_core::pdf::{
    check_input_size, check_worker_output, decode_worker_output, extract_pdf_pages_from_bytes,
    stream_size, stream_snapshot, validate_extracted_pages, validate_pdf_page_limit,
    wait_for_child,
    ExtractionWorkerResponse, WorkerState, MAX_EXTRACTED_TEXT_BYTES, MAX_PAGES,
    MAX_WORKER_OUTPUT_BYTES,
};

#[test]
fn successful_child() {
    assert!(check_worker_output(0, true).is_ok());
}

#[test]
fn workers_answer_within_bounds() {
    assert!(check_worker_output(MAX_WORKER_OUTPUT_BYTES, true).is_ok());
    assert_eq!(
        check_worker_output(MAX_WORKER_OUTPUT_BYTES + 1, false).unwrap_err().code(),
        "extracted_text_too_large"
    );
    assert_eq!(
        check_worker_output(1, false).unwrap_err().code(),
        "pdf_extraction_failed"
    );
    assert_eq!(MAX_WORKER_OUTPUT_BYTES, 6 * 20 * 1024 * 1024 + 3 * 1000 + 4096);
}

#[test]
fn page_limits_hold() {
    assert!(validate_pdf_page_limit(MAX_PAGES).is_ok());
    assert_eq!(
        validate_pdf_page_limit(MAX_PAGES + 1).unwrap_err().code(),
        "page_limit_exceeded"
    );
    assert!(validate_extracted_pages(&vec![String::new(); MAX_PAGES]).is_ok());
    assert_eq!(
        validate_extracted_pages(&vec![String::new(); MAX_PAGES + 1]).unwrap_err().code(),
        "page_limit_exceeded"
    );
    let page = "a".repeat(MAX_EXTRACTED_TEXT_BYTES);
    assert!(validate_extracted_pages(&vec![page.clone()]).is_ok());
    assert_eq!(
        validate_extracted_pages(&vec![page, "b".into()]).unwrap_err().code(),
        "extracted_text_too_large"
    );
}

#[test]
fn extraction_reports_the_first_failure() {
    let pages = extract_pdf_pages_from_bytes(Ok(1), Ok(vec!["one".into()])).unwrap();
    assert_eq!(pages, vec!["one".to_string()]);
    let unread = extract_pdf_pages_from_bytes(Err(MkoError::new("pdf_invalid", "no")), Ok(vec![]));
    assert_eq!(unread.unwrap_err().code(), "pdf_invalid");
    let long = extract_pdf_pages_from_bytes(
        Ok(MAX_PAGES + 1),
        Err(MkoError::new("pdf_invalid", "no")),
    );
    assert_eq!(long.unwrap_err().code(), "page_limit_exceeded");
    let failed = extract_pdf_pages_from_bytes(Ok(1), Err(MkoError::new("pdf_extraction_failed", "no")));
    assert_eq!(failed.unwrap_err().code(), "pdf_extraction_failed");
    let answer = ExtractionWorkerResponse::Error { code: "c".into(), message: "m".into() };
    assert_eq!(decode_worker_output(answer).unwrap_err().message(), "m");
    let answer = ExtractionWorkerResponse::Success { pages: vec!["p".into()] };
    assert_eq!(decode_worker_output(answer).unwrap(), vec!["p".to_string()]);
}

#[test]
fn streams_are_the_expected_snapshot() {
    let content = b"%PDF-1.7";
    let snapshot = FileSnapshot {
        fingerprint: fingerprint_file(8, content).unwrap(),
        size_bytes: 8,
        modified_at: Timestamp { seconds: 0, nanos: 0 },
    };
    assert!(stream_snapshot(content, &snapshot).is_ok());
    assert_eq!(
        stream_snapshot(b"%PDF-1.8", &snapshot).unwrap_err().code(),
        "fingerprint_changed"
    );
    assert_eq!(stream_size(1, 2).unwrap(), 3);
    assert_eq!(stream_size(MAX_ASSET_BYTES, 0).unwrap(), MAX_ASSET_BYTES);
    assert_eq!(
        stream_size(MAX_ASSET_BYTES, 1).unwrap_err().message(),
        "PDF stream exceeds the 50 MiB limit"
    );
    assert_eq!(
        stream_size(u64::MAX, 1).unwrap_err().message(),
        "PDF stream size overflow"
    );
    assert!(check_input_size(MAX_ASSET_BYTES).is_ok());
    assert!(check_input_size(MAX_ASSET_BYTES + 1).is_err());
}

#[test]
fn workers_are_given_a_time() {
    assert!(wait_for_child(&WorkerState::Exited).unwrap());
    assert!(!wait_for_child(&WorkerState::Running { expired: false }).unwrap());
    assert_eq!(
        wait_for_child(&WorkerState::Running { expired: true }).unwrap_err().code(),
        "extraction_timeout"
    );
    let failed = wait_for_child(&WorkerState::Failed { detail: "m".into() }).unwrap_err();
    assert_eq!((failed.code(), failed.message()), ("pdf_extraction_failed", "m"));
}
