//! Strongly-typed domain errors for Clerestory.

use crate::exit_codes::{EX_DATAERR, EX_IOERR, EX_SOFTWARE, EX_UNAVAILABLE, EX_USAGE};
use crate::text::{dec, push_decimal, push_str};
use vstd::prelude::*;

verus! {

/// Domain errors. Locations are UTF-8 path strings; an I/O failure carries
/// the operating system's message.
#[derive(Debug, Clone, PartialEq, Eq)]
pub enum ClerestoryError {
    MissingPrerequisite { name: String, install_hint: String },
    TopologyCapacityError { requested: u32, available: u32 },
    ProbeError { path: String, message: String },
    IoError { path: String, message: String },
    ValidationError(String),
    XmlSynthesisError(String),
    SlipstreamError(String),
    LibvirtError(String),
    UnsupportedPlatform(String),
}

/// The exit code that each kind of error maps to.
pub open spec fn spec_exit_code(e: ClerestoryError) -> i32 {
    match e {
        ClerestoryError::MissingPrerequisite { .. } => EX_UNAVAILABLE,
        ClerestoryError::TopologyCapacityError { .. } => EX_DATAERR,
        ClerestoryError::ProbeError { .. } => EX_SOFTWARE,
        ClerestoryError::IoError { .. } => EX_IOERR,
        ClerestoryError::ValidationError(_) => EX_USAGE,
        ClerestoryError::XmlSynthesisError(_) => EX_SOFTWARE,
        ClerestoryError::SlipstreamError(_) => EX_DATAERR,
        ClerestoryError::LibvirtError(_) => EX_SOFTWARE,
        ClerestoryError::UnsupportedPlatform(_) => EX_UNAVAILABLE,
    }
}

/// The human-readable rendering of an error.
pub open spec fn spec_message(e: ClerestoryError) -> Seq<char> {
    match e {
        ClerestoryError::MissingPrerequisite { name, install_hint } =>
            "Hardware prerequisite missing: "@ + name@ + " (Hint: "@ + install_hint@ + ")"@,
        ClerestoryError::TopologyCapacityError { requested, available } =>
            "CPU topology error: requested "@ + dec(requested as nat)
                + " vCPUs, but single cache domain only provides "@ + dec(available as nat),
        ClerestoryError::ProbeError { path, message } =>
            "Hardware probe failure at "@ + path@ + ": "@ + message@,
        ClerestoryError::IoError { path, message } =>
            "I/O error at "@ + path@ + ": "@ + message@,
        ClerestoryError::ValidationError(m) => "Validation error: "@ + m@,
        ClerestoryError::XmlSynthesisError(m) => "XML synthesis error: "@ + m@,
        ClerestoryError::SlipstreamError(m) => "Driver slipstream error: "@ + m@,
        ClerestoryError::LibvirtError(m) => "Libvirt command execution error: "@ + m@,
        ClerestoryError::UnsupportedPlatform(m) => "Unsupported platform: "@ + m@,
    }
}

impl ClerestoryError {
    /// Maps a domain error to its standard POSIX exit code.
    pub fn exit_code(&self) -> (code: i32)
        ensures
            code == spec_exit_code(*self),
    {
        match self {
            ClerestoryError::MissingPrerequisite { .. } => EX_UNAVAILABLE,
            ClerestoryError::TopologyCapacityError { .. } => EX_DATAERR,
            ClerestoryError::ProbeError { .. } => EX_SOFTWARE,
            ClerestoryError::IoError { .. } => EX_IOERR,
            ClerestoryError::ValidationError(_) => EX_USAGE,
            ClerestoryError::XmlSynthesisError(_) => EX_SOFTWARE,
            ClerestoryError::SlipstreamError(_) => EX_DATAERR,
            ClerestoryError::LibvirtError(_) => EX_SOFTWARE,
            ClerestoryError::UnsupportedPlatform(_) => EX_UNAVAILABLE,
        }
    }

    /// Renders the error as the message shown to the user.
    pub fn message(&self) -> (m: String)
        ensures
            m@ == spec_message(*self),
    {
        let mut m = String::new();
        match self {
            ClerestoryError::MissingPrerequisite { name, install_hint } => {
                push_str(&mut m, "Hardware prerequisite missing: ");
                push_str(&mut m, name.as_str());
                push_str(&mut m, " (Hint: ");
                push_str(&mut m, install_hint.as_str());
                push_str(&mut m, ")");
            },
            ClerestoryError::TopologyCapacityError { requested, available } => {
                push_str(&mut m, "CPU topology error: requested ");
                push_decimal(&mut m, *requested as u64);
                push_str(&mut m, " vCPUs, but single cache domain only provides ");
                push_decimal(&mut m, *available as u64);
            },
            ClerestoryError::ProbeError { path, message } => {
                push_str(&mut m, "Hardware probe failure at ");
                push_str(&mut m, path.as_str());
                push_str(&mut m, ": ");
                push_str(&mut m, message.as_str());
            },
            ClerestoryError::IoError { path, message } => {
                push_str(&mut m, "I/O error at ");
                push_str(&mut m, path.as_str());
                push_str(&mut m, ": ");
                push_str(&mut m, message.as_str());
            },
            ClerestoryError::ValidationError(s) => {
                push_str(&mut m, "Validation error: ");
                push_str(&mut m, s.as_str());
            },
            ClerestoryError::XmlSynthesisError(s) => {
                push_str(&mut m, "XML synthesis error: ");
                push_str(&mut m, s.as_str());
            },
            ClerestoryError::SlipstreamError(s) => {
                push_str(&mut m, "Driver slipstream error: ");
                push_str(&mut m, s.as_str());
            },
            ClerestoryError::LibvirtError(s) => {
                push_str(&mut m, "Libvirt command execution error: ");
                push_str(&mut m, s.as_str());
            },
            ClerestoryError::UnsupportedPlatform(s) => {
                push_str(&mut m, "Unsupported platform: ");
                push_str(&mut m, s.as_str());
            },
        }
        assert(m@ =~= spec_message(*self));
        m
    }
}

/// Result type of the library's fallible operations.
pub type Result<T> = std::result::Result<T, ClerestoryError>;

} // verus!
