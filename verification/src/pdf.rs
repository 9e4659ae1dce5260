//! What the text of a PDF may be, and what the extraction worker may answer.

use crate::digest::{sha256_hex, sha256_hex_of};
use crate::error::{error, outcome, verdict, ErrorView, MkoError};
use crate::fingerprint::{FileSnapshot, FileSnapshotView, MAX_ASSET_BYTES};
use crate::text::{byte_len, cat2, same};
use vstd::prelude::*;
use vstd::utf8::encode_utf8;

verus! {

pub const EXTRACTOR_NAME: &'static str = "pdf-extract";

pub const EXTRACTOR_VERSION: &'static str = "0.12.0";

/// The most pages that are extracted.
pub const MAX_PAGES: usize = 1_000;

/// The most text that is extracted, in bytes.
pub const MAX_EXTRACTED_TEXT_BYTES: usize = 20_971_520;

/// The longest an extraction may take, in seconds.
pub const EXTRACTION_TIMEOUT_SECONDS: u64 = 120;

/// The most bytes that the worker may answer: six for each byte of text, which is what
/// the longest escape takes, and the frame around the pages.
pub const MAX_WORKER_OUTPUT_BYTES: u64 = 125_836_216;

/// The bytes of all pages together.
pub open spec fn text_bytes(pages: Seq<Seq<char>>) -> nat
    decreases pages.len(),
{
    if pages.len() == 0 {
        0
    } else {
        text_bytes(pages.drop_last()) + encode_utf8(pages.last()).len()
    }
}

/// The rule on extracted pages: not too many, and not too much text.
pub open spec fn pages_check(pages: Seq<Seq<char>>) -> Result<(), ErrorView> {
    if pages.len() > MAX_PAGES {
        Err(error("page_limit_exceeded"@, "PDF exceeds the 1,000 page extraction limit"@))
    } else if text_bytes(pages) > MAX_EXTRACTED_TEXT_BYTES {
        Err(
            error("extracted_text_too_large"@, "extracted PDF text exceeds the 20 MiB limit"@),
        )
    } else {
        Ok(())
    }
}

proof fn text_bytes_grow(pages: Seq<Seq<char>>, n: int)
    requires
        0 <= n <= pages.len(),
    ensures
        text_bytes(pages.take(n)) <= text_bytes(pages),
    decreases pages.len() - n,
{
    if n < pages.len() {
        text_bytes_grow(pages, n + 1);
        assert(pages.take(n + 1).drop_last() == pages.take(n));
    } else {
        assert(pages.take(n) == pages);
    }
}

pub fn validate_extracted_pages(pages: &Vec<String>) -> (result: Result<(), MkoError>)
    ensures
        verdict(result) == pages_check(pages.deep_view()),
{
    if pages.len() > MAX_PAGES {
        return Err(
            MkoError::new("page_limit_exceeded", "PDF exceeds the 1,000 page extraction limit"),
        );
    }
    let ghost all = pages.deep_view();
    let mut total: usize = 0;
    let mut i: usize = 0;
    while i < pages.len()
        invariant
            i <= pages.len(),
            pages.len() <= MAX_PAGES,
            all == pages.deep_view(),
            total == text_bytes(all.take(i as int)),
        decreases pages.len() - i,
    {
        proof {
            assert(all.take(i + 1).drop_last() == all.take(i as int));
            assert(all.take(i + 1).last() == pages@[i as int]@);
            text_bytes_grow(all, i + 1);
        }
        match total.checked_add(byte_len(pages[i].as_str())) {
            Some(sum) => {
                total = sum;
            },
            None => {
                assert(usize::MAX >= 0xffff_ffff);
                return Err(
                    MkoError::new(
                        "extracted_text_too_large",
                        "extracted PDF text exceeds the 20 MiB limit",
                    ),
                );
            },
        }
        i += 1;
    }
    assert(all.take(i as int) == all);
    if total > MAX_EXTRACTED_TEXT_BYTES {
        return Err(
            MkoError::new("extracted_text_too_large", "extracted PDF text exceeds the 20 MiB limit"),
        );
    }
    Ok(())
}

/// Refuses a document that is too large to be read into memory.
pub fn check_input_size(size: u64) -> (result: Result<(), MkoError>)
    ensures
        verdict(result) == (if size > MAX_ASSET_BYTES {
            Err(error("file_too_large"@, "PDF worker input exceeds the 50 MiB memory limit"@))
        } else {
            Ok(())
        }),
{
    if size > MAX_ASSET_BYTES {
        return Err(
            MkoError::new("file_too_large", "PDF worker input exceeds the 50 MiB memory limit"),
        );
    }
    Ok(())
}

/// Refuses a document with too many pages.
pub fn validate_pdf_page_limit(page_count: usize) -> (result: Result<(), MkoError>)
    ensures
        verdict(result) == (if page_count > MAX_PAGES {
            Err(error("page_limit_exceeded"@, "PDF exceeds the 1,000 page extraction limit"@))
        } else {
            Ok(())
        }),
{
    if page_count > MAX_PAGES {
        return Err(
            MkoError::new("page_limit_exceeded", "PDF exceeds the 1,000 page extraction limit"),
        );
    }
    Ok(())
}

/// The pages of a document, given its page count and what extracting its text gave.
pub fn extract_pdf_pages_from_bytes(
    page_count: Result<usize, MkoError>,
    extracted: Result<Vec<String>, MkoError>,
) -> (result: Result<Vec<String>, MkoError>)
    ensures
        outcome(result) == (match page_count {
            Err(failure) => Err(failure.deep_view()),
            Ok(count) => if count > MAX_PAGES {
                Err(error("page_limit_exceeded"@, "PDF exceeds the 1,000 page extraction limit"@))
            } else {
                match extracted {
                    Err(failure) => Err(failure.deep_view()),
                    Ok(pages) => match pages_check(pages.deep_view()) {
                        Err(failure) => Err(failure),
                        Ok(_) => Ok(pages.deep_view()),
                    },
                }
            },
        }),
{
    let count: usize = match page_count {
        Ok(count) => count,
        Err(failure) => {
            return Err(failure);
        },
    };
    match validate_pdf_page_limit(count) {
        Ok(_) => {},
        Err(failure) => {
            return Err(failure);
        },
    }
    accept_pages(extracted)
}

fn accept_pages(extracted: Result<Vec<String>, MkoError>) -> (result: Result<Vec<String>, MkoError>)
    ensures
        outcome(result) == (match extracted {
            Err(failure) => Err(failure.deep_view()),
            Ok(pages) => match pages_check(pages.deep_view()) {
                Err(failure) => Err(failure),
                Ok(_) => Ok(pages.deep_view()),
            },
        }),
{
    let pages = match extracted {
        Ok(pages) => pages,
        Err(failure) => {
            return Err(failure);
        },
    };
    match validate_extracted_pages(&pages) {
        Ok(_) => Ok(pages),
        Err(failure) => Err(failure),
    }
}

/// What the extraction worker answers.
#[derive(Clone, Debug, PartialEq, Eq)]
pub enum ExtractionWorkerResponse {
    Success { pages: Vec<String> },
    Error { code: String, message: String },
}

/// The answer of the worker, before it is decoded: too long an answer is refused before
/// anything else, and then an exit with an error.
pub fn check_worker_output(output_len: u64, exited_well: bool) -> (result: Result<(), MkoError>)
    ensures
        verdict(result) == (if output_len > MAX_WORKER_OUTPUT_BYTES {
            Err(
                error(
                    "extracted_text_too_large"@,
                    "extraction worker output exceeds the bounded response limit"@,
                ),
            )
        } else if !exited_well {
            Err(error("pdf_extraction_failed"@, "PDF extraction worker failed"@))
        } else {
            Ok(())
        }),
{
    if output_len > MAX_WORKER_OUTPUT_BYTES {
        return Err(
            MkoError::new(
                "extracted_text_too_large",
                "extraction worker output exceeds the bounded response limit",
            ),
        );
    }
    if !exited_well {
        return Err(MkoError::new("pdf_extraction_failed", "PDF extraction worker failed"));
    }
    Ok(())
}

/// The pages that a decoded answer holds, or the error that it reports.
pub fn decode_worker_output(response: ExtractionWorkerResponse) -> (result: Result<
    Vec<String>,
    MkoError,
>)
    ensures
        outcome(result) == (match response {
            ExtractionWorkerResponse::Error { code, message } => Err(error(code@, message@)),
            ExtractionWorkerResponse::Success { pages } => match pages_check(pages.deep_view()) {
                Err(failure) => Err(failure),
                Ok(_) => Ok(pages.deep_view()),
            },
        }),
{
    match response {
        ExtractionWorkerResponse::Success { pages } => accept_pages(Ok(pages)),
        ExtractionWorkerResponse::Error { code, message } => Err(
            MkoError::new(code.as_str(), message.as_str()),
        ),
    }
}

/// The size of a stream after one more chunk, while it stays within the limit.
pub fn stream_size(size_bytes: u64, chunk: u64) -> (result: Result<u64, MkoError>)
    ensures
        outcome(result) == (if size_bytes + chunk > u64::MAX {
            Err(error("file_too_large"@, "PDF stream size overflow"@))
        } else if size_bytes + chunk > MAX_ASSET_BYTES {
            Err(error("file_too_large"@, "PDF stream exceeds the 50 MiB limit"@))
        } else {
            Ok((size_bytes + chunk) as u64)
        }),
{
    let size: u64 = match size_bytes.checked_add(chunk) {
        Some(size) => size,
        None => {
            return Err(MkoError::new("file_too_large", "PDF stream size overflow"));
        },
    };
    if size > MAX_ASSET_BYTES {
        return Err(MkoError::new("file_too_large", "PDF stream exceeds the 50 MiB limit"));
    }
    Ok(size)
}

/// The bytes that went to the worker are those of the snapshot.
pub open spec fn streamed_snapshot(content: Seq<u8>, expected: FileSnapshotView) -> bool {
    content.len() == expected.size_bytes && expected.fingerprint.value == "sha256:"@ + sha256_hex(
        content,
    )
}

/// Refuses a stream that was not the expected snapshot, byte for byte.
pub fn stream_snapshot(content: &[u8], expected: &FileSnapshot) -> (result: Result<(), MkoError>)
    ensures
        verdict(result) == (if streamed_snapshot(content@, expected.deep_view()) {
            Ok(())
        } else {
            Err(
                error(
                    "fingerprint_changed"@,
                    "runtime PDF snapshot changed while streaming to the extraction worker"@,
                ),
            )
        }),
{
    let hash = sha256_hex_of(content);
    let fingerprint = cat2("sha256:", hash.as_str());
    if content.len() as u64 != expected.size_bytes || !same(
        fingerprint.as_str(),
        expected.fingerprint.value.as_str(),
    ) {
        return Err(
            MkoError::new(
                "fingerprint_changed",
                "runtime PDF snapshot changed while streaming to the extraction worker",
            ),
        );
    }
    Ok(())
}

/// What is known of the extraction worker.
#[derive(Clone, Debug, PartialEq, Eq)]
pub enum WorkerState {
    Exited,
    /// It is at work; `expired` once its time is over.
    Running { expired: bool },
    Failed { detail: String },
}

/// Whether the worker is done; while it is not, it is waited for until its time is over.
pub fn wait_for_child(state: &WorkerState) -> (result: Result<bool, MkoError>)
    ensures
        outcome(result) == (match *state {
            WorkerState::Exited => Ok(true),
            WorkerState::Running { expired } => if expired {
                Err(error("extraction_timeout"@, "PDF extraction exceeded 120 seconds"@))
            } else {
                Ok(false)
            },
            WorkerState::Failed { detail } => Err(error("pdf_extraction_failed"@, detail@)),
        }),
{
    match state {
        WorkerState::Exited => Ok(true),
        WorkerState::Running { expired } => {
            if *expired {
                Err(MkoError::new("extraction_timeout", "PDF extraction exceeded 120 seconds"))
            } else {
                Ok(false)
            }
        },
        WorkerState::Failed { detail } => Err(
            MkoError::new("pdf_extraction_failed", detail.as_str()),
        ),
    }
}

/// Every answer that holds pages within the limits fits into the bound on the worker's
/// output, even when each byte of text takes the longest escape and each page three bytes
/// of framing.
pub proof fn accepted_pages_fit_the_transport(pages: Seq<Seq<char>>)
    requires
        pages_check(pages) is Ok,
    ensures
        6 * text_bytes(pages) + 3 * pages.len() + 4_096 <= MAX_WORKER_OUTPUT_BYTES,
{
}

} // verus!
