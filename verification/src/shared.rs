use crate::shared::history::History;
use crate::shared::port_info::{found_names, Ports, PortsInfo};
use crate::shared::serial_read::SerialRead;
use vstd::prelude::*;

pub mod clock;
pub mod history;
pub mod port_info;
pub mod serial_read;

verus! {

/// What the display and the ingestion loop share: the rolling history, the
/// port configuration and the most recent error message. The three are
/// independent of each other; the loop's decisions take them apart, so that
/// each may live behind a lock of its own.
#[derive(Debug)]
pub struct SharedData {
    pub read_data: SerialRead,
    pub port_info: PortsInfo,
    pub error_log: String,
}

/// `SharedData` as a mathematical value.
pub struct Shared {
    pub history: History,
    pub ports: Ports,
    pub error: Seq<char>,
}

impl View for SharedData {
    type V = Shared;

    open spec fn view(&self) -> Shared {
        Shared { history: self.read_data@, ports: self.port_info@, error: self.error_log@ }
    }
}

impl SharedData {
    /// The state at start: an empty history of the given capacity, the
    /// configuration for the devices that were found, and no error.
    pub fn new(max_data_points: usize, found: Result<Vec<String>, String>) -> (shared: SharedData)
        ensures
            shared.read_data@ == History::empty(max_data_points as nat),
            shared.read_data@.wf(),
            shared.port_info@ == Ports::initial(found_names(found)),
            shared.error_log@ == Seq::<char>::empty(),
    {
        SharedData {
            read_data: SerialRead::new(max_data_points),
            port_info: PortsInfo::new(found),
            error_log: String::new(),
        }
    }
}

/// A request from the display to the ingestion loop.
#[derive(Debug)]
pub enum Event {
    SelectPort(String),
    SelectBaudRate(u32),
    RefreshAvailablePorts,
    ChangeMaxDataPoints(usize),
    SendText(String),
    ClearLog,
    Shutdown,
}

} // verus!
