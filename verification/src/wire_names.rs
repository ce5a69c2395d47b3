use vstd::prelude::*;

use crate::fixtures::{WireConformanceMode, WireHostRole, WireHostPlatform, WireHostRouteSecurityMode, WireConformanceTerminal, WireConformanceFrameDirection, WireHostRouteRejectionReason};
use crate::text::push_text;

verus! {

/// The name by which messages refer to the wire mode.
pub open spec fn mode_name(value: WireConformanceMode) -> Seq<char> {
    match value {
        WireConformanceMode::SuiteAsClient => "SuiteAsClient"@,
        WireConformanceMode::SuiteAsServer => "SuiteAsServer"@,
        WireConformanceMode::SuiteAsProxy => "SuiteAsProxy"@,
    }
}

/// Appends the name of the wire mode.
pub fn push_mode_name(text: &mut String, value: WireConformanceMode)
    ensures
        final(text)@ == old(text)@ + mode_name(value),
{
    match value {
        WireConformanceMode::SuiteAsClient => push_text(text, "SuiteAsClient"),
        WireConformanceMode::SuiteAsServer => push_text(text, "SuiteAsServer"),
        WireConformanceMode::SuiteAsProxy => push_text(text, "SuiteAsProxy"),
    }
}

/// The name by which messages refer to a host role.
pub open spec fn role_name(value: WireHostRole) -> Seq<char> {
    match value {
        WireHostRole::Client => "Client"@,
        WireHostRole::Server => "Server"@,
    }
}

/// Appends the name of a host role.
pub fn push_role_name(text: &mut String, value: WireHostRole)
    ensures
        final(text)@ == old(text)@ + role_name(value),
{
    match value {
        WireHostRole::Client => push_text(text, "Client"),
        WireHostRole::Server => push_text(text, "Server"),
    }
}

/// The name by which messages refer to a host platform.
pub open spec fn platform_name(value: WireHostPlatform) -> Seq<char> {
    match value {
        WireHostPlatform::Native => "Native"@,
        WireHostPlatform::Browser => "Browser"@,
    }
}

/// Appends the name of a host platform.
pub fn push_platform_name(text: &mut String, value: WireHostPlatform)
    ensures
        final(text)@ == old(text)@ + platform_name(value),
{
    match value {
        WireHostPlatform::Native => push_text(text, "Native"),
        WireHostPlatform::Browser => push_text(text, "Browser"),
    }
}

/// The name by which messages refer to a route security mode.
pub open spec fn security_mode_name(value: WireHostRouteSecurityMode) -> Seq<char> {
    match value {
        WireHostRouteSecurityMode::Plain => "Plain"@,
        WireHostRouteSecurityMode::TlsServerAuth => "TlsServerAuth"@,
        WireHostRouteSecurityMode::MutualTls => "MutualTls"@,
        WireHostRouteSecurityMode::Wss => "Wss"@,
        WireHostRouteSecurityMode::BrowserHost => "BrowserHost"@,
    }
}

/// Appends the name of a route security mode.
pub fn push_security_mode_name(text: &mut String, value: WireHostRouteSecurityMode)
    ensures
        final(text)@ == old(text)@ + security_mode_name(value),
{
    match value {
        WireHostRouteSecurityMode::Plain => push_text(text, "Plain"),
        WireHostRouteSecurityMode::TlsServerAuth => push_text(text, "TlsServerAuth"),
        WireHostRouteSecurityMode::MutualTls => push_text(text, "MutualTls"),
        WireHostRouteSecurityMode::Wss => push_text(text, "Wss"),
        WireHostRouteSecurityMode::BrowserHost => push_text(text, "BrowserHost"),
    }
}

/// The name by which messages refer to a wire terminal.
pub open spec fn wire_terminal_name(value: WireConformanceTerminal) -> Seq<char> {
    match value {
        WireConformanceTerminal::Success => "Success"@,
        WireConformanceTerminal::Cancelled => "Cancelled"@,
        WireConformanceTerminal::Dropped => "Dropped"@,
        WireConformanceTerminal::Error => "Error"@,
    }
}

/// Appends the name of a wire terminal.
pub fn push_wire_terminal_name(text: &mut String, value: WireConformanceTerminal)
    ensures
        final(text)@ == old(text)@ + wire_terminal_name(value),
{
    match value {
        WireConformanceTerminal::Success => push_text(text, "Success"),
        WireConformanceTerminal::Cancelled => push_text(text, "Cancelled"),
        WireConformanceTerminal::Dropped => push_text(text, "Dropped"),
        WireConformanceTerminal::Error => push_text(text, "Error"),
    }
}

/// The name by which messages refer to a frame direction.
pub open spec fn direction_name(value: WireConformanceFrameDirection) -> Seq<char> {
    match value {
        WireConformanceFrameDirection::Sent => "Sent"@,
        WireConformanceFrameDirection::Received => "Received"@,
    }
}

/// Appends the name of a frame direction.
pub fn push_direction_name(text: &mut String, value: WireConformanceFrameDirection)
    ensures
        final(text)@ == old(text)@ + direction_name(value),
{
    match value {
        WireConformanceFrameDirection::Sent => push_text(text, "Sent"),
        WireConformanceFrameDirection::Received => push_text(text, "Received"),
    }
}

/// The name by which messages refer to a rejection reason.
pub open spec fn rejection_reason_name(value: WireHostRouteRejectionReason) -> Seq<char> {
    match value {
        WireHostRouteRejectionReason::PolicyDisallowed => "PolicyDisallowed"@,
        WireHostRouteRejectionReason::LocalUnavailable => "LocalUnavailable"@,
        WireHostRouteRejectionReason::PeerUnsupported => "PeerUnsupported"@,
        WireHostRouteRejectionReason::LimitExceeded => "LimitExceeded"@,
        WireHostRouteRejectionReason::RouteUnresolved => "RouteUnresolved"@,
        WireHostRouteRejectionReason::SecurityUnsatisfied => "SecurityUnsatisfied"@,
        WireHostRouteRejectionReason::ProbeMissing => "ProbeMissing"@,
        WireHostRouteRejectionReason::ProbeFailed => "ProbeFailed"@,
    }
}

/// Appends the name of a rejection reason.
pub fn push_rejection_reason_name(text: &mut String, value: WireHostRouteRejectionReason)
    ensures
        final(text)@ == old(text)@ + rejection_reason_name(value),
{
    match value {
        WireHostRouteRejectionReason::PolicyDisallowed => push_text(text, "PolicyDisallowed"),
        WireHostRouteRejectionReason::LocalUnavailable => push_text(text, "LocalUnavailable"),
        WireHostRouteRejectionReason::PeerUnsupported => push_text(text, "PeerUnsupported"),
        WireHostRouteRejectionReason::LimitExceeded => push_text(text, "LimitExceeded"),
        WireHostRouteRejectionReason::RouteUnresolved => push_text(text, "RouteUnresolved"),
        WireHostRouteRejectionReason::SecurityUnsatisfied => push_text(text, "SecurityUnsatisfied"),
        WireHostRouteRejectionReason::ProbeMissing => push_text(text, "ProbeMissing"),
        WireHostRouteRejectionReason::ProbeFailed => push_text(text, "ProbeFailed"),
    }
}

} // verus!
