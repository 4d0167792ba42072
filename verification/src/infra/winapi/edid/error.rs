//! Errors of the EDID layer.

use vstd::prelude::*;

verus! {

/// Why the EDID of a display could not be read.
#[derive(Debug)]
pub enum EdidError {
    BufferSizeQueryFailed(String),
    QueryConfigFailed(String),
    GetSourceNameFailed(String),
    GetTargetNameFailed(String),
    RegistryOpenFailed { path: String, message: String },
    RegistryReadFailed { path: String, message: String },
    EdidNotFound(String),
    InvalidEdid(String),
}

/// The text that an EDID error displays.
pub open spec fn edid_error_text(e: EdidError) -> Seq<char> {
    match e {
        EdidError::BufferSizeQueryFailed(m) => "GetDisplayConfigBufferSizes failed: "@ + m@,
        EdidError::QueryConfigFailed(m) => "QueryDisplayConfig failed: "@ + m@,
        EdidError::GetSourceNameFailed(m) => "DisplayConfigGetDeviceInfo(source name) failed: "@ + m@,
        EdidError::GetTargetNameFailed(m) => "DisplayConfigGetDeviceInfo(target name) failed: "@ + m@,
        EdidError::RegistryOpenFailed { path, message } => "RegOpenKeyExW failed: path="@ + path@
            + "; "@ + message@,
        EdidError::RegistryReadFailed { path, message } => "RegQueryValueExW failed: path="@
            + path@ + "; "@ + message@,
        EdidError::EdidNotFound(m) => "EDID not found in registry: "@ + m@,
        EdidError::InvalidEdid(m) => "Invalid EDID: "@ + m@,
    }
}

fn prefixed(prefix: &str, m: &String) -> (r: String)
    ensures
        r@ == prefix@ + m@,
{
    let mut r = String::from_str(prefix);
    r.append(m.as_str());
    r
}

fn with_path(prefix: &str, path: &String, message: &String) -> (r: String)
    ensures
        r@ == prefix@ + path@ + "; "@ + message@,
{
    let mut r = String::from_str(prefix);
    r.append(path.as_str());
    r.append("; ");
    r.append(message.as_str());
    r
}

impl EdidError {
    /// The text that the error displays.
    pub fn describe(&self) -> (r: String)
        ensures
            r@ == edid_error_text(*self),
    {
        match self {
            EdidError::BufferSizeQueryFailed(m) => prefixed("GetDisplayConfigBufferSizes failed: ", m),
            EdidError::QueryConfigFailed(m) => prefixed("QueryDisplayConfig failed: ", m),
            EdidError::GetSourceNameFailed(m) => prefixed(
                "DisplayConfigGetDeviceInfo(source name) failed: ",
                m,
            ),
            EdidError::GetTargetNameFailed(m) => prefixed(
                "DisplayConfigGetDeviceInfo(target name) failed: ",
                m,
            ),
            EdidError::RegistryOpenFailed { path, message } => with_path(
                "RegOpenKeyExW failed: path=",
                path,
                message,
            ),
            EdidError::RegistryReadFailed { path, message } => with_path(
                "RegQueryValueExW failed: path=",
                path,
                message,
            ),
            EdidError::EdidNotFound(m) => prefixed("EDID not found in registry: ", m),
            EdidError::InvalidEdid(m) => prefixed("Invalid EDID: ", m),
        }
    }
}

} // verus!
