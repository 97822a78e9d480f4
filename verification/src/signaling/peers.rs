//! Descriptions of connected devices, and the errors of delivering a
//! message to one.
use vstd::prelude::*;

verus! {

/// Metadata kept alongside a device's online status for connection
/// tracking.
#[derive(Clone)]
pub struct ConnectionInfo {
    /// Unique device code reported by the client.
    pub device_code: String,
    /// Optional team/organization this device belongs to.
    pub team_id: Option<String>,
}

/// Lightweight descriptor for a device visible to the current user.
#[derive(Debug, Clone, PartialEq)]
pub struct DeviceInfo {
    pub code: String,
    pub name: String,
    pub platform: String,
    pub online: bool,
}

/// Errors that can occur when sending a message to a session.
#[derive(Debug)]
pub enum SessionSendError {
    /// No session is registered for the device.
    DeviceNotFound(String),
    /// The session's send channel is closed (the client disconnected).
    ChannelClosed,
}

/// The message of a send error.
pub open spec fn send_error_message(e: SessionSendError) -> Seq<char> {
    match e {
        SessionSendError::DeviceNotFound(d) => "device `"@ + d@ + "` not found in session manager"@,
        SessionSendError::ChannelClosed => "send channel closed (client disconnected)"@,
    }
}

impl SessionSendError {
    /// The human-readable message of this error.
    pub fn to_display_string(&self) -> (s: String)
        ensures
            s@ == send_error_message(*self),
    {
        match self {
            SessionSendError::DeviceNotFound(d) => {
                let mut s = String::from_str("device `");
                s.append(d.as_str());
                s.append("` not found in session manager");
                s
            },
            SessionSendError::ChannelClosed => String::from_str("send channel closed (client disconnected)"),
        }
    }
}

} // verus!
