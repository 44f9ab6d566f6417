//! The recording backend: CEF off-screen rendering is the only one, and a
//! build without it says so with fixed errors.

use vstd::prelude::*;
use crate::errors::{CefOsrError, RecordError};
use crate::mp4::verdict::lit;

verus! {

/// The recorder backends this library can drive.
#[derive(Debug, Clone, Copy, PartialEq, Eq, Structural)]
pub enum RecorderBackend {
    CefOsr,
}

/// The kebab-case name of a backend.
pub open spec fn backend_name(b: RecorderBackend) -> Seq<char> {
    match b {
        RecorderBackend::CefOsr => seq!['c', 'e', 'f', '-', 'o', 's', 'r'],
    }
}

impl RecorderBackend {
    /// The backend's kebab-case name.
    pub fn as_str(self) -> (s: &'static str)
        ensures
            s@ == backend_name(self),
    {
        match self {
            RecorderBackend::CefOsr => {
                let s = "cef-osr";
                proof {
                    reveal_strlit("cef-osr");
                }
                s
            },
        }
    }

    /// The one backend the recorder supports.
    pub fn only() -> (b: Self)
        ensures
            b == RecorderBackend::CefOsr,
    {
        RecorderBackend::CefOsr
    }
}


/// Why the CEF off-screen backend is unavailable in this build.
pub open spec fn cef_unavailable_text() -> Seq<char> {
    "cef-osr backend requires building capy-recorder with `--features cef-osr` and a CEF runtime at CEF_ROOT or ~/.cef"@
}

/// This build has no CEF runtime, so it is never a CEF helper subprocess.
pub fn maybe_run_subprocess() -> (r: Result<bool, CefOsrError>)
    ensures
        r matches Ok(b) && !b,
{
    Ok(false)
}

/// The error every CEF entry point reports in a build without the backend.
pub fn disabled_error() -> (e: CefOsrError)
    ensures
        e matches CefOsrError::Unavailable(m) && m@ == cef_unavailable_text(),
{
    CefOsrError::Unavailable(
        lit(
            "cef-osr backend requires building capy-recorder with `--features cef-osr` and a CEF runtime at CEF_ROOT or ~/.cef",
        ),
    )
}

/// The record error for a build without the backend: an unsupported platform.
pub fn disabled_record_error() -> (e: RecordError)
    ensures
        e matches RecordError::UnsupportedPlatform(m) && m@ == cef_unavailable_text(),
{
    match disabled_error() {
        CefOsrError::Unavailable(m) => RecordError::UnsupportedPlatform(m),
    }
}

} // verus!
