//! What a scan of the provider hands to the library.

use crate::model::{Fingerprint, FingerprintView};
use crate::text::copy_option;
use vstd::prelude::*;

verus! {

/// The bounds that a scan runs under.
#[derive(Clone, Copy, Debug, PartialEq, Eq, Structural)]
pub struct ScanLimits {
    pub max_entries: u64,
    pub max_total_bytes: u64,
    pub max_elapsed_ms: u64,
    pub max_depth: u64,
    pub max_batch_items: u64,
}

/// Something that a scan could not do, or did not like.
#[derive(Clone, Debug, PartialEq, Eq)]
pub struct ProviderScanWarning {
    pub code: String,
    pub message: String,
    pub provider_locator: Option<String>,
}

#[verifier::ext_equal]
pub struct ProviderScanWarningView {
    pub code: Seq<char>,
    pub message: Seq<char>,
    pub provider_locator: Option<Seq<char>>,
}

impl DeepView for ProviderScanWarning {
    type V = ProviderScanWarningView;

    open spec fn deep_view(&self) -> ProviderScanWarningView {
        ProviderScanWarningView {
            code: self.code@,
            message: self.message@,
            provider_locator: self.provider_locator.deep_view(),
        }
    }
}

impl ProviderScanWarning {
    /// A copy that holds the same.
    pub(crate) fn duplicate(&self) -> (copy: Self)
        ensures
            copy.deep_view() == self.deep_view(),
    {
        ProviderScanWarning {
            code: self.code.clone(),
            message: self.message.clone(),
            provider_locator: copy_option(&self.provider_locator),
        }
    }
}

/// A readable PDF that a scan found.
#[derive(Clone, Debug, PartialEq, Eq)]
pub struct ProviderPdf {
    pub provider_locator: String,
    pub relative_path: String,
    pub fingerprint: Fingerprint,
    pub size_bytes: u64,
}

#[verifier::ext_equal]
pub struct ProviderPdfView {
    pub provider_locator: Seq<char>,
    pub relative_path: Seq<char>,
    pub fingerprint: FingerprintView,
    pub size_bytes: u64,
}

impl DeepView for ProviderPdf {
    type V = ProviderPdfView;

    open spec fn deep_view(&self) -> ProviderPdfView {
        ProviderPdfView {
            provider_locator: self.provider_locator@,
            relative_path: self.relative_path@,
            fingerprint: self.fingerprint.deep_view(),
            size_bytes: self.size_bytes,
        }
    }
}

} // verus!
