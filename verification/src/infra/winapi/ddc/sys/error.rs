//! Errors of the DDC/CI layer.

use vstd::prelude::*;

verus! {

/// `std::io::Error`, the operating-system error that the Windows calls
/// report; carried through unchanged.
#[verifier::external_type_specification]
#[verifier::external_body]
pub struct ExIoError(std::io::Error);

/// A DDC/CI capability string could not be parsed; `message` says why.
#[derive(Debug, Clone, PartialEq, Eq)]
pub struct CapabilitiesParseError {
    pub message: String,
}

impl CapabilitiesParseError {
    /// An error carrying `message`.
    pub fn new(message: String) -> (r: Self)
        ensures
            r.message@ == message@,
    {
        CapabilitiesParseError { message }
    }

    /// The text that the error displays: its message.
    pub fn describe(&self) -> (r: String)
        ensures
            r@ == self.message@,
    {
        self.message.clone()
    }
}


/// Why a DDC/CI operation failed.
#[derive(Debug)]
pub enum DdcError {
    EnumDisplayFailed(std::io::Error),
    GetPhysicalMonitorsFailed(std::io::Error),
    GetCapabilitiesFailed(std::io::Error),
    CapabilitiesReplyFailed(std::io::Error),
    NoVcpCodeList,
    VcpGetFailed(String),
    VcpSetFailed(String),
    ParseFailed(CapabilitiesParseError),
}

impl From<CapabilitiesParseError> for DdcError {
    fn from(err: CapabilitiesParseError) -> (r: Self) {
        DdcError::ParseFailed(err)
    }
}

impl vstd::std_specs::convert::FromSpecImpl<CapabilitiesParseError> for DdcError {
    open spec fn obeys_from_spec() -> bool {
        true
    }

    open spec fn from_spec(err: CapabilitiesParseError) -> Self {
        DdcError::ParseFailed(err)
    }
}


/// The text of an operating-system error (`ToString::to_string` on
/// `std::io::Error`).  It is the system's message and depends on the
/// machine and its language; nothing is stated of it.
#[verifier::external_body]
fn io_error_text(e: &std::io::Error) -> String {
    e.to_string()
}

/// The text that a DDC/CI error displays in front of what it carries.
pub open spec fn ddc_error_prefix(e: DdcError) -> Seq<char> {
    match e {
        DdcError::EnumDisplayFailed(_) => "EnumDisplayMonitors failed: "@,
        DdcError::GetPhysicalMonitorsFailed(_) => "GetPhysicalMonitorsFromHMONITOR failed: "@,
        DdcError::GetCapabilitiesFailed(_) => "GetCapabilitiesStringLength failed: "@,
        DdcError::CapabilitiesReplyFailed(_) => "CapabilitiesRequestAndCapabilitiesReply failed: "@,
        DdcError::NoVcpCodeList => "No vcp codes found in capabilities"@,
        DdcError::VcpGetFailed(_) => "GetVCPFeatureAndVCPFeatureReply failed: "@,
        DdcError::VcpSetFailed(_) => "SetVCPFeature failed: "@,
        DdcError::ParseFailed(_) => "Capabilities parse failed: "@,
    }
}

fn with_prefix(prefix: &str, rest: &String) -> (r: String)
    ensures
        r@ == prefix@ + rest@,
{
    let mut r = String::from_str(prefix);
    r.append(rest.as_str());
    r
}

impl DdcError {
    /// The text that the error displays: its prefix, then the message it
    /// carries (for an operating-system error, the system's message).
    pub fn describe(&self) -> (r: String)
        ensures
            r@.len() >= ddc_error_prefix(*self).len(),
            r@.subrange(0, ddc_error_prefix(*self).len() as int) == ddc_error_prefix(*self),
            match *self {
                DdcError::NoVcpCodeList => r@ == ddc_error_prefix(*self),
                DdcError::VcpGetFailed(m) => r@ == ddc_error_prefix(*self) + m@,
                DdcError::VcpSetFailed(m) => r@ == ddc_error_prefix(*self) + m@,
                DdcError::ParseFailed(p) => r@ == ddc_error_prefix(*self) + p.message@,
                _ => true,
            },
    {
        let r = match self {
            DdcError::EnumDisplayFailed(e) => with_prefix("EnumDisplayMonitors failed: ", &io_error_text(e)),
            DdcError::GetPhysicalMonitorsFailed(e) => with_prefix(
                "GetPhysicalMonitorsFromHMONITOR failed: ",
                &io_error_text(e),
            ),
            DdcError::GetCapabilitiesFailed(e) => with_prefix(
                "GetCapabilitiesStringLength failed: ",
                &io_error_text(e),
            ),
            DdcError::CapabilitiesReplyFailed(e) => with_prefix(
                "CapabilitiesRequestAndCapabilitiesReply failed: ",
                &io_error_text(e),
            ),
            DdcError::NoVcpCodeList => String::from_str("No vcp codes found in capabilities"),
            DdcError::VcpGetFailed(m) => with_prefix("GetVCPFeatureAndVCPFeatureReply failed: ", m),
            DdcError::VcpSetFailed(m) => with_prefix("SetVCPFeature failed: ", m),
            DdcError::ParseFailed(p) => with_prefix("Capabilities parse failed: ", &p.message),
        };
        assert(r@.subrange(0, ddc_error_prefix(*self).len() as int) =~= ddc_error_prefix(*self));
        r
    }
}

} // verus!
