use vstd::prelude::*;
use vstd::string::StringExecFns;

verus! {

/// What can go wrong on the device. None of these ends the loop: each is
/// recorded as the most recent error message.
#[derive(Debug)]
pub enum DeviceError {
    /// No device is selected to open.
    NoPortToOpen,
    /// The selected device could not be opened.
    Open { port: String, detail: String },
    /// Reading from the open device failed; a timeout is no such failure.
    Read(String),
    /// There is no open device to write to.
    NoPortToWrite,
    /// Writing to the open device failed.
    Write(String),
    /// The devices could not be listed.
    Enumeration(String),
}

/// The message for a reconnect while no device is selected.
pub open spec fn no_port_to_open_text() -> Seq<char> {
    "No port selected to connect"@
}

/// The message for a device that could not be opened.
pub open spec fn open_failed_text(port: Seq<char>, detail: Seq<char>) -> Seq<char> {
    "Failed to reconnect to port "@ + port + ": "@ + detail
}

/// The message for a failed read.
pub open spec fn read_failed_text(detail: Seq<char>) -> Seq<char> {
    "Reading error: "@ + detail
}

/// The message for text that was to be sent while no device was open.
pub open spec fn no_port_to_write_text() -> Seq<char> {
    "No port selected to send text"@
}

/// The message for a failed write.
pub open spec fn write_failed_text(detail: Seq<char>) -> Seq<char> {
    "Failed to send text: "@ + detail
}

/// The message for a failed listing of the devices.
pub open spec fn enumeration_failed_text(detail: Seq<char>) -> Seq<char> {
    "Failed to get available ports: "@ + detail
}

impl DeviceError {
    /// The message that is recorded for the error.
    pub open spec fn text(self) -> Seq<char> {
        match self {
            DeviceError::NoPortToOpen => no_port_to_open_text(),
            DeviceError::Open { port, detail } => open_failed_text(port@, detail@),
            DeviceError::Read(detail) => read_failed_text(detail@),
            DeviceError::NoPortToWrite => no_port_to_write_text(),
            DeviceError::Write(detail) => write_failed_text(detail@),
            DeviceError::Enumeration(detail) => enumeration_failed_text(detail@),
        }
    }

    /// The message that is recorded for the error.
    pub fn message(&self) -> (message: String)
        ensures
            message@ == self.text(),
    {
        match self {
            DeviceError::NoPortToOpen => String::from_str("No port selected to connect"),
            DeviceError::Open { port, detail } => {
                let mut message = String::from_str("Failed to reconnect to port ");
                message.append(port.as_str());
                message.append(": ");
                message.append(detail.as_str());
                message
            },
            DeviceError::Read(detail) => String::from_str("Reading error: ").concat(
                detail.as_str(),
            ),
            DeviceError::NoPortToWrite => String::from_str("No port selected to send text"),
            DeviceError::Write(detail) => String::from_str("Failed to send text: ").concat(
                detail.as_str(),
            ),
            DeviceError::Enumeration(detail) => String::from_str(
                "Failed to get available ports: ",
            ).concat(detail.as_str()),
        }
    }
}

} // verus!
