use crate::backend::error::{
    enumeration_failed_text, no_port_to_open_text, no_port_to_write_text, open_failed_text,
    read_failed_text, write_failed_text, DeviceError,
};
use crate::shared::clock::Timestamp;
use crate::shared::history::{lemma_feed_in_pieces, newlines, History};
use crate::shared::port_info::{Ports, PortsInfo};
use crate::shared::serial_read::SerialRead;
use crate::shared::Event;
use vstd::prelude::*;

pub mod data_parser;
pub mod error;

verus! {

/// What the loop has to do on the device after the library has taken in an
/// event. The library decides; the caller acts and reports what came of it.
#[derive(Debug)]
pub enum Action {
    /// Nothing: go on with the next queued event.
    Continue,
    /// Close the session, then open `port` at `baud_rate` and report the
    /// outcome with `Backend::opened`.
    Open { port: String, baud_rate: u32 },
    /// Close the session.
    Close,
    /// List the devices and report the outcome with `Backend::ports_listed`.
    ListPorts,
    /// Write the text to the device and report the outcome with
    /// `Backend::text_sent`.
    Write(String),
    /// The queue is empty: read once from the device without blocking and
    /// report the outcome with `Backend::received`.
    Read,
    /// The queue is empty and no device is open: nothing to do for now.
    Wait,
    /// Leave the loop.
    Stop,
}

/// `Action` as a mathematical value.
pub enum Step {
    Continue,
    Open { port: Seq<char>, baud_rate: u32 },
    Close,
    ListPorts,
    Write(Seq<char>),
    Read,
    Wait,
    Stop,
}

impl View for Action {
    type V = Step;

    open spec fn view(&self) -> Step {
        match self {
            Action::Continue => Step::Continue,
            Action::Open { port, baud_rate } => Step::Open { port: port@, baud_rate: *baud_rate },
            Action::Close => Step::Close,
            Action::ListPorts => Step::ListPorts,
            Action::Write(text) => Step::Write(text@),
            Action::Read => Step::Read,
            Action::Wait => Step::Wait,
            Action::Stop => Step::Stop,
        }
    }
}

/// What a look at the event queue gave.
#[derive(Debug)]
pub enum Polled {
    Event(Event),
    Empty,
    Disconnected,
}

/// What one read from the device without blocking gave.
#[derive(Debug)]
pub enum ReadOutcome {
    /// Text arrived.
    Data(String),
    /// Nothing arrived in time.
    WouldBlock,
    /// The read failed for good.
    Failed(String),
}

/// What the decisions on the device depend on: the port configuration,
/// the most recent error and whether a device session is open.
pub struct Session {
    pub ports: Ports,
    pub error: Seq<char>,
    pub connected: bool,
}

/// The whole state of the loop: the history and the session.
pub struct Machine {
    pub history: History,
    pub session: Session,
}

impl Session {
    /// `message` becomes the most recent error.
    pub open spec fn record(self, message: Seq<char>) -> Session {
        Session { error: message, ..self }
    }

    /// The session is closed; where a device is selected it is to be
    /// opened, and where none is, that is an error.
    pub open spec fn reconnect(self) -> (Session, Step) {
        let closed = Session { connected: false, ..self };
        match self.ports.selected {
            Some(port) => (closed, Step::Open { port, baud_rate: self.ports.baud_rate }),
            None => (closed.record(no_port_to_open_text()), Step::Close),
        }
    }

    /// The state after an attempt to open the selected device.
    pub open spec fn opened(self, result: Result<(), String>) -> Session {
        match result {
            Ok(_) => Session { connected: true, ..self },
            Err(detail) => Session { connected: false, ..self }.record(
                open_failed_text(
                    match self.ports.selected {
                        Some(port) => port,
                        None => Seq::empty(),
                    },
                    detail@,
                ),
            ),
        }
    }

    /// The state after an attempt to list the devices.
    pub open spec fn ports_listed(self, result: Result<Vec<String>, String>) -> Session {
        match result {
            Ok(names) => Session {
                ports: Ports { available: names.deep_view(), ..self.ports },
                ..self
            },
            Err(detail) => self.record(enumeration_failed_text(detail@)),
        }
    }

    /// The state after a read that failed for good: the error is recorded,
    /// the session is closed and no device is selected any more.
    pub open spec fn read_failed(self, detail: Seq<char>) -> Session {
        Session {
            ports: Ports { selected: None, ..self.ports },
            error: read_failed_text(detail),
            connected: false,
        }
    }
}

impl Machine {
    /// The state after an event and what is to be done for it.
    pub open spec fn handle(self, event: Event) -> (Machine, Step) {
        match event {
            Event::SelectPort(name) => {
                let (session, step) = Session {
                    ports: Ports { selected: Some(name@), ..self.session.ports },
                    ..self.session
                }.reconnect();
                (Machine { session, ..self }, step)
            },
            Event::SelectBaudRate(baud_rate) => {
                let (session, step) = Session {
                    ports: Ports { baud_rate, ..self.session.ports },
                    ..self.session
                }.reconnect();
                (Machine { session, ..self }, step)
            },
            Event::RefreshAvailablePorts => (self, Step::ListPorts),
            Event::ChangeMaxDataPoints(new_max) => (
                Machine { history: self.history.with_capacity(new_max as nat), ..self },
                Step::Continue,
            ),
            Event::SendText(text) => if self.session.connected {
                (self, Step::Write(text@))
            } else {
                (
                    Machine { session: self.session.record(no_port_to_write_text()), ..self },
                    Step::Continue,
                )
            },
            Event::ClearLog => (Machine { history: self.history.cleared(), ..self }, Step::Continue),
            Event::Shutdown => (self, Step::Stop),
        }
    }

    /// The state after a look at the queue and what is to be done: an
    /// event is handled, an empty queue leads to the read phase, and a
    /// queue that nobody can fill any more ends the loop.
    pub open spec fn poll(self, polled: Polled) -> (Machine, Step) {
        match polled {
            Polled::Event(event) => self.handle(event),
            Polled::Empty => (
                self,
                if self.session.connected {
                    Step::Read
                } else {
                    Step::Wait
                },
            ),
            Polled::Disconnected => (self, Step::Stop),
        }
    }

    /// The state after a read and what is to be done. Text goes to the
    /// history, its lines stamped with `stamps`; a timeout changes nothing;
    /// a failure is recorded, ends the session and clears the selection.
    pub open spec fn received(self, outcome: ReadOutcome, stamps: Seq<Timestamp>) -> (
        Machine,
        Step,
    ) {
        match outcome {
            ReadOutcome::Data(text) => (
                Machine { history: self.history.feed(text@, stamps), ..self },
                Step::Continue,
            ),
            ReadOutcome::WouldBlock => (self, Step::Continue),
            ReadOutcome::Failed(detail) => (
                Machine { session: self.session.read_failed(detail@), ..self },
                Step::Close,
            ),
        }
    }
}

/// A queue that is disconnected has the effect of a shutdown event: the
/// state stays as it is and the loop ends.
pub proof fn lemma_disconnect_is_shutdown(m: Machine)
    ensures
        m.poll(Polled::Disconnected) == m.poll(Polled::Event(Event::Shutdown)),
        m.poll(Polled::Disconnected) == (m, Step::Stop),
{
}

/// No event but a shutdown ends the loop, and no error does: whatever else
/// is taken in, the loop goes on.
pub proof fn lemma_only_shutdown_stops(
    m: Machine,
    event: Event,
    outcome: ReadOutcome,
    stamps: Seq<Timestamp>,
)
    ensures
        m.handle(event).1 is Stop <==> event is Shutdown,
        !(m.received(outcome, stamps).1 is Stop),
{
}

/// Lines are completed in the order of the device's stream, wherever the
/// reads cut it: two reads of text leave the state that one read of the
/// whole text leaves, given the same stamps for the lines completed.
pub proof fn lemma_received_in_pieces(
    m: Machine,
    first: String,
    second: String,
    whole: String,
    first_stamps: Seq<Timestamp>,
    second_stamps: Seq<Timestamp>,
)
    requires
        whole@ == first@ + second@,
        first_stamps.len() == newlines(first@),
        second_stamps.len() == newlines(second@),
    ensures
        m.received(ReadOutcome::Data(first), first_stamps).0.received(
            ReadOutcome::Data(second),
            second_stamps,
        ) == m.received(ReadOutcome::Data(whole), first_stamps + second_stamps),
{
    lemma_feed_in_pieces(m.history, first@, second@, first_stamps, second_stamps);
}

/// The most recent error after an attempt to write to the device: the
/// failure where it failed, and what it was before where it did not.
pub open spec fn after_write(error: Seq<char>, result: Result<(), String>) -> Seq<char> {
    match result {
        Ok(_) => error,
        Err(detail) => write_failed_text(detail@),
    }
}

/// How many lines a read completes.
pub open spec fn lines_in(outcome: ReadOutcome) -> nat {
    match outcome {
        ReadOutcome::Data(text) => newlines(text@),
        _ => 0,
    }
}

/// The ingestion loop's own state and its decisions. The caller owns the
/// device and the queue: it hands in what they gave and carries out the
/// `Action` that comes back. The history, the port configuration and the
/// error message are handed in apart, each function taking those it reads
/// or changes, so that a caller may keep each behind a lock of its own.
#[derive(Debug)]
pub struct Backend {
    port_open: bool,
}

impl Backend {
    /// Whether a device session is open.
    pub closed spec fn connected(&self) -> bool {
        self.port_open
    }

    /// What the decisions on the device depend on.
    pub open spec fn session(&self, port_info: &PortsInfo, error_log: &String) -> Session {
        Session { ports: port_info@, error: error_log@, connected: self.connected() }
    }

    /// The whole state of the loop.
    pub open spec fn machine(
        &self,
        read_data: &SerialRead,
        port_info: &PortsInfo,
        error_log: &String,
    ) -> Machine {
        Machine { history: read_data@, session: self.session(port_info, error_log) }
    }

    /// A loop that has no device session yet.
    pub fn new() -> (backend: Backend)
        ensures
            !backend.connected(),
    {
        Backend { port_open: false }
    }

    /// Whether a device session is open.
    pub fn port_open(&self) -> (open: bool)
        ensures
            open == self.connected(),
    {
        self.port_open
    }

    /// Closes the session and asks for the selected device to be opened.
    /// With no device selected that cannot be done: the error is recorded
    /// and the session stays closed.
    pub fn reconnect(&mut self, port_info: &PortsInfo, error_log: &mut String) -> (action: Action)
        ensures
            (final(self).session(port_info, final(error_log)), action@) == old(self).session(
                port_info,
                old(error_log),
            ).reconnect(),
    {
        self.port_open = false;
        match &port_info.selected_port {
            Some(port) => Action::Open { port: port.clone(), baud_rate: port_info.baud_rate },
            None => {
                *error_log = DeviceError::NoPortToOpen.message();
                Action::Close
            },
        }
    }

    /// Takes in one event from the display and says what is to be done on
    /// the device for it.
    pub fn handle_event(
        &mut self,
        event: Event,
        read_data: &mut SerialRead,
        port_info: &mut PortsInfo,
        error_log: &mut String,
    ) -> (action: Action)
        ensures
            (final(self).machine(final(read_data), final(port_info), final(error_log)), action@)
                == old(self).machine(old(read_data), old(port_info), old(error_log)).handle(event),
            old(read_data)@.wf() ==> final(read_data)@.wf(),
    {
        match event {
            Event::SelectPort(name) => {
                port_info.selected_port = Some(name);
                self.reconnect(port_info, error_log)
            },
            Event::SelectBaudRate(baud_rate) => {
                port_info.baud_rate = baud_rate;
                self.reconnect(port_info, error_log)
            },
            Event::RefreshAvailablePorts => Action::ListPorts,
            Event::ChangeMaxDataPoints(new_max) => {
                read_data.change_max_data_points(new_max);
                Action::Continue
            },
            Event::SendText(text) => {
                if self.port_open {
                    Action::Write(text)
                } else {
                    *error_log = DeviceError::NoPortToWrite.message();
                    Action::Continue
                }
            },
            Event::ClearLog => {
                read_data.clear();
                Action::Continue
            },
            Event::Shutdown => Action::Stop,
        }
    }

    /// Takes in what a look at the event queue gave. An event is handled;
    /// an empty queue starts the read phase; a queue that is disconnected
    /// ends the loop as a shutdown does.
    pub fn poll(
        &mut self,
        polled: Polled,
        read_data: &mut SerialRead,
        port_info: &mut PortsInfo,
        error_log: &mut String,
    ) -> (action: Action)
        ensures
            (final(self).machine(final(read_data), final(port_info), final(error_log)), action@)
                == old(self).machine(old(read_data), old(port_info), old(error_log)).poll(polled),
            old(read_data)@.wf() ==> final(read_data)@.wf(),
    {
        match polled {
            Polled::Event(event) => self.handle_event(event, read_data, port_info, error_log),
            Polled::Empty => {
                if self.port_open {
                    Action::Read
                } else {
                    Action::Wait
                }
            },
            Polled::Disconnected => Action::Stop,
        }
    }

    /// Takes in the outcome of opening the selected device. A failure is
    /// recorded and leaves the session closed.
    pub fn opened(
        &mut self,
        result: Result<(), String>,
        port_info: &PortsInfo,
        error_log: &mut String,
    )
        ensures
            final(self).session(port_info, final(error_log)) == old(self).session(
                port_info,
                old(error_log),
            ).opened(result),
    {
        match result {
            Ok(_) => {
                self.port_open = true;
            },
            Err(detail) => {
                self.port_open = false;
                let port = match &port_info.selected_port {
                    Some(port) => port.clone(),
                    None => String::new(),
                };
                *error_log = (DeviceError::Open { port, detail }).message();
            },
        }
    }

    /// Takes in the outcome of listing the devices. A failure is recorded
    /// and leaves the list as it was.
    pub fn ports_listed(
        &self,
        result: Result<Vec<String>, String>,
        port_info: &mut PortsInfo,
        error_log: &mut String,
    )
        ensures
            self.session(final(port_info), final(error_log)) == self.session(
                old(port_info),
                old(error_log),
            ).ports_listed(result),
    {
        match result {
            Ok(names) => {
                port_info.available_ports = names;
            },
            Err(detail) => {
                *error_log = DeviceError::Enumeration(detail).message();
            },
        }
    }

    /// Takes in the outcome of writing to the device. A failure is
    /// recorded.
    pub fn text_sent(&self, result: Result<(), String>, error_log: &mut String)
        ensures
            final(error_log)@ == after_write(old(error_log)@, result),
    {
        match result {
            Ok(_) => {},
            Err(detail) => {
                *error_log = DeviceError::Write(detail).message();
            },
        }
    }

    /// Takes in the outcome of one read. Text goes to the history, each
    /// line stamped when it is completed. A timeout is no error. A failure
    /// is recorded, the session is to be closed and the selection is
    /// cleared, so that only a new selection opens a device again.
    pub fn received(
        &mut self,
        outcome: ReadOutcome,
        read_data: &mut SerialRead,
        port_info: &mut PortsInfo,
        error_log: &mut String,
    ) -> (action: Action)
        requires
            old(read_data)@.wf(),
            old(read_data)@.counter + lines_in(outcome) <= usize::MAX,
        ensures
            exists|stamps: Seq<Timestamp>|
                stamps.len() == lines_in(outcome) && (
                    final(self).machine(final(read_data), final(port_info), final(error_log)),
                    action@,
                ) == #[trigger] old(self).machine(
                    old(read_data),
                    old(port_info),
                    old(error_log),
                ).received(outcome, stamps),
            final(read_data)@.wf(),
    {
        let ghost before = self.machine(read_data, port_info, error_log);
        match outcome {
            ReadOutcome::Data(text) => {
                read_data.read(text.as_str());
                proof {
                    let stamps = choose|stamps: Seq<Timestamp>|
                        stamps.len() == newlines(text@) && read_data@ == #[trigger] before.history.feed(
                            text@,
                            stamps,
                        );
                    assert((self.machine(read_data, port_info, error_log), Step::Continue)
                        == before.received(outcome, stamps));
                }
                Action::Continue
            },
            ReadOutcome::WouldBlock => {
                assert((self.machine(read_data, port_info, error_log), Step::Continue)
                    == before.received(outcome, Seq::empty()));
                Action::Continue
            },
            ReadOutcome::Failed(detail) => {
                self.port_open = false;
                port_info.selected_port = None;
                *error_log = DeviceError::Read(detail).message();
                assert((self.machine(read_data, port_info, error_log), Step::Close)
                    == before.received(outcome, Seq::empty()));
                Action::Close
            },
        }
    }
}

} // verus!
