//! The protocol driver of one connection, as a state machine.
//!
//! The driver decides; the caller moves the bytes. The caller opens the
//! transport, sends what the driver hands out, and reports back what came
//! in: an event, a payload that could not be understood, or the end of the
//! stream. One call is outstanding at a time: a call begins when the driver
//! is idle and the next can begin only when it has come back to idle.
//!
//! The protocol has two dialects, which differ in the handshake and in the
//! shape of the requests, not in how a call runs.

use crate::correlation::{
    after_encode, correlate, idle_engine, CorrelationEngine, CorrelationResult, EngineState,
    Outcome,
};
use crate::events::{
    done, event_of, processing, EventFields, EventView, FieldsView, InboundEvent,
};
use crate::messages::{
    decimal_string, decimal_text, jsonrpc_version, located, log_label, severity_label,
    CommandMessage, CommandView, EventMessage, RpcAnswerResult, RpcInput,
};
use crate::text::{str_eq, text_view};
use vstd::prelude::*;
use vstd::string::StringExecFns;

verus! {

/// The dialect that a connection speaks.
#[derive(Clone, Copy, Debug, PartialEq, Eq, Structural)]
pub enum Dialect {
    /// Requests carry a numeric id and a protocol version. The client opens
    /// with `initialize` and the server answers with its capabilities.
    JsonRpc,
    /// Requests are bare. The client opens with nothing and the server
    /// announces the channel that it has accepted.
    Flat,
}

/// Where the driver stands. Before `init` there is no driver: opening the
/// transport is the caller's part.
#[derive(Clone, Copy, Debug, PartialEq, Eq, Structural)]
pub enum DriverState {
    /// The handshake was sent and its acknowledgement is awaited.
    AwaitingHandshake,
    /// No call is outstanding.
    Idle,
    /// The call with this id is outstanding.
    Executing { exec_id: u32 },
    /// The connection is lost to the driver: nothing more is accepted.
    Closed,
}

/// Why the driver failed.
#[derive(Clone, Copy, Debug, PartialEq, Eq, Structural)]
pub enum DriverError {
    /// The first inbound message was not the handshake's acknowledgement,
    /// or the transport closed before any message.
    Handshake,
    /// The operation is not valid in the state that the driver is in.
    InvalidState,
    /// The transport closed while a call was outstanding.
    TransportClosed,
    /// A payload could not be understood while a call was outstanding.
    Malformed,
    /// A message arrived that has no place in a call.
    ProtocolViolation,
}

/// What the transport handed over.
#[derive(Debug, PartialEq, Eq)]
pub enum Inbound {
    /// An event, decoded.
    Event(InboundEvent),
    /// The server's capabilities: the answer to the handshake request.
    Capabilities,
    /// A payload that could not be understood.
    Malformed,
    /// The end of the stream.
    Closed,
}

/// What the transport handed over, as plain values.
pub enum InboundView {
    Event(EventView),
    Capabilities,
    Malformed,
    Closed,
}

impl View for Inbound {
    type V = InboundView;

    open spec fn view(&self) -> InboundView {
        match self {
            Inbound::Event(event) => InboundView::Event(event@),
            Inbound::Capabilities => InboundView::Capabilities,
            Inbound::Malformed => InboundView::Malformed,
            Inbound::Closed => InboundView::Closed,
        }
    }
}

/// A log line of the given level for the execution `exec_id`, on no
/// particular channel.
pub open spec fn log_line(
    level: Seq<char>,
    message: Seq<char>,
    exec_id: Option<Seq<char>>,
) -> InboundView {
    InboundView::Event(
        EventView::LogOrDiagnostic { level, message, channel_name: None, exec_id },
    )
}

/// What a notification of the JSON-RPC dialect is to the driver. A log
/// message that reads `Processing` or `Done` is the status change of that
/// name; any other is a log line under the tag of its type. The
/// diagnostics of a file are one log line each, under the tag of their
/// severity, with the place they point to before the message.
pub open spec fn notification_inbound(
    event: EventMessage,
    exec_id: Option<Seq<char>>,
) -> Seq<InboundView> {
    match event {
        EventMessage::Log(log) => seq![
            if log.message@ == processing() || log.message@ == done() {
                InboundView::Event(
                    EventView::ExecStatus {
                        status: log.message@,
                        channel_name: None,
                        exec_id,
                        command_queue: None,
                    },
                )
            } else {
                log_line(log_label(log.typ), log.message@, exec_id)
            },
        ],
        EventMessage::Diagnostic(report) => Seq::new(
            report.diagnostics@.len(),
            |i: int|
                log_line(
                    severity_label(report.diagnostics@[i].severity),
                    located(report.path@, report.diagnostics@[i]),
                    exec_id,
                ),
        ),
    }
}

/// What a message of the JSON-RPC dialect is to the driver, given the tag
/// of the execution that it is taken to belong to: the server's
/// capabilities are the handshake's acknowledgement, the value of a
/// setting is a log line under `info`, a failure is a log line under
/// `error`, and a notification is what `notification_inbound` says.
pub open spec fn rpc_inbound(input: RpcInput, exec_id: Option<Seq<char>>) -> Seq<InboundView> {
    match input {
        RpcInput::Notification(event) => notification_inbound(event, exec_id),
        RpcInput::CallResult(answer) => match answer.result {
            RpcAnswerResult::Init => seq![InboundView::Capabilities],
            RpcAnswerResult::Setting { value, .. } => seq![log_line("info"@, value@, exec_id)],
        },
        RpcInput::Error(error) => seq![log_line("error"@, error.error.message@, exec_id)],
    }
}

/// What the members of a flat payload are to the driver: the event that
/// they make up, or a payload that cannot be understood.
pub open spec fn fields_inbound(fields: FieldsView) -> InboundView {
    match event_of(fields) {
        Ok(event) => InboundView::Event(event),
        Err(_) => InboundView::Malformed,
    }
}

/// The views of a list of inbound messages.
pub open spec fn inbound_views(list: Seq<Inbound>) -> Seq<InboundView> {
    Seq::new(list.len(), |i: int| list[i]@)
}

impl Inbound {
    /// A log line of the given level for the execution `exec_id`.
    fn log(level: &str, message: String, exec_id: &Option<String>) -> (inbound: Inbound)
        ensures
            inbound@ == log_line(level@, message@, text_view(*exec_id)),
    {
        Inbound::Event(
            InboundEvent::LogOrDiagnostic {
                level: String::from_str(level),
                message,
                channel_name: None,
                exec_id: exec_id.clone(),
            },
        )
    }

    /// Turns the members of a payload of the flat dialect into what the
    /// driver takes, as `fields_inbound` defines it.
    pub fn from_fields(fields: EventFields) -> (inbound: Inbound)
        ensures
            inbound@ == fields_inbound(fields@),
    {
        match InboundEvent::from_fields(fields) {
            Ok(event) => Inbound::Event(event),
            Err(_) => Inbound::Malformed,
        }
    }

    /// Turns a message of the JSON-RPC dialect into what the driver takes,
    /// as `rpc_inbound` defines it. `exec_id` is the tag of the execution
    /// that the message is taken to belong to.
    pub fn from_rpc(input: RpcInput, exec_id: &Option<String>) -> (list: Vec<Inbound>)
        ensures
            inbound_views(list@) == rpc_inbound(input, text_view(*exec_id)),
    {
        let mut list: Vec<Inbound> = Vec::new();
        match input {
            RpcInput::Notification(EventMessage::Log(log)) => {
                let is_status = str_eq(log.message.as_str(), "Processing") || str_eq(
                    log.message.as_str(),
                    "Done",
                );
                if is_status {
                    list.push(
                        Inbound::Event(
                            InboundEvent::ExecStatus {
                                status: log.message,
                                channel_name: None,
                                exec_id: exec_id.clone(),
                                command_queue: None,
                            },
                        ),
                    );
                } else {
                    list.push(Inbound::log(log.typ.label(), log.message, exec_id));
                }
            },
            RpcInput::Notification(EventMessage::Diagnostic(report)) => {
                let mut i: usize = 0;
                while i < report.diagnostics.len()
                    invariant
                        i <= report.diagnostics@.len(),
                        list@.len() == i,
                        forall|j: int|
                            0 <= j < i ==> (#[trigger] list@[j])@ == log_line(
                                severity_label(report.diagnostics@[j].severity),
                                located(report.path@, report.diagnostics@[j]),
                                text_view(*exec_id),
                            ),
                    decreases report.diagnostics.len() - i,
                {
                    let d = &report.diagnostics[i];
                    list.push(Inbound::log(d.label(), d.locate(report.path.as_str()), exec_id));
                    i += 1;
                }
            },
            RpcInput::CallResult(answer) => match answer.result {
                RpcAnswerResult::Init => {
                    list.push(Inbound::Capabilities);
                },
                RpcAnswerResult::Setting { value, .. } => {
                    list.push(Inbound::log("info", value, exec_id));
                },
            },
            RpcInput::Error(error) => {
                list.push(Inbound::log("error", error.error.message, exec_id));
            },
        }
        assert(inbound_views(list@) =~= rpc_inbound(input, text_view(*exec_id)));
        list
    }
}

/// How far the outstanding call has come after one inbound message.
#[derive(Debug, PartialEq, Eq)]
pub enum Progress {
    /// Nothing for the caller; the call goes on.
    Pending,
    /// A message of the call's response; the call goes on.
    Yield(InboundEvent),
    /// The call is over and the driver is idle again.
    Finished,
    /// The call has failed.
    Failed(DriverError),
}

/// Progress as plain values.
pub enum ProgressView {
    Pending,
    Yield(EventView),
    Finished,
    Failed(DriverError),
}

impl View for Progress {
    type V = ProgressView;

    open spec fn view(&self) -> ProgressView {
        match self {
            Progress::Pending => ProgressView::Pending,
            Progress::Yield(event) => ProgressView::Yield(event@),
            Progress::Finished => ProgressView::Finished,
            Progress::Failed(e) => ProgressView::Failed(*e),
        }
    }
}

/// What the driver holds.
pub struct DriverView {
    /// The dialect of the connection.
    pub dialect: Dialect,
    /// Where the driver stands.
    pub state: DriverState,
    /// The correlation engine's state.
    pub engine: EngineState,
    /// The id that the next call will carry.
    pub next_id: u32,
    /// Whether the outstanding call spans two execution windows.
    pub first: bool,
    /// Whether the first of two windows is over and the second awaited.
    pub waiting: bool,
}

/// The driver right after `init`.
pub open spec fn fresh_driver(dialect: Dialect) -> DriverView {
    DriverView {
        dialect,
        state: DriverState::AwaitingHandshake,
        engine: idle_engine(),
        next_id: 1,
        first: false,
        waiting: false,
    }
}

/// What the client opens with: `initialize` with id 1, version `2.0` and
/// no options in the JSON-RPC dialect, nothing in the flat dialect.
pub open spec fn handshake_request(dialect: Dialect) -> Option<CommandView> {
    match dialect {
        Dialect::JsonRpc => Some(
            CommandView::Initialize {
                id: 1,
                jsonrpc: jsonrpc_version(),
                initialization_options: None,
            },
        ),
        Dialect::Flat => None,
    }
}

/// The request that a call for `command` hands out when `id` is next: in
/// the JSON-RPC dialect the request carries the id, in the flat dialect
/// its decimal numeral as the execution's tag.
pub open spec fn exec_request(dialect: Dialect, id: u32, command: Seq<char>) -> CommandView {
    match dialect {
        Dialect::JsonRpc => CommandView::SbtExec {
            id,
            jsonrpc: jsonrpc_version(),
            command_line: command,
        },
        Dialect::Flat => CommandView::Exec {
            command_line: command,
            exec_id: Some(decimal_text(id as nat)),
        },
    }
}

/// The id after `id`. The counter starts over after the largest id.
pub open spec fn id_after(id: u32) -> u32 {
    if id == u32::MAX {
        0
    } else {
        (id + 1) as u32
    }
}

/// Whether the first inbound message acknowledges the handshake: in the
/// JSON-RPC dialect the server's capabilities do, in the flat dialect a
/// channel acceptance does.
pub open spec fn acknowledges(dialect: Dialect, inbound: InboundView) -> bool {
    match dialect {
        Dialect::JsonRpc => inbound is Capabilities,
        Dialect::Flat => inbound matches InboundView::Event(ev) && ev is ChannelAccepted,
    }
}

/// The driver after the first inbound message. An acknowledgement makes it
/// idle, and a channel acceptance binds the channel; anything else, the
/// end of the stream included, closes it. Outside the handshake nothing
/// changes.
pub open spec fn after_handshake(d: DriverView, inbound: InboundView) -> DriverView {
    if d.state != DriverState::AwaitingHandshake {
        d
    } else if acknowledges(d.dialect, inbound) {
        DriverView {
            state: DriverState::Idle,
            engine: match inbound {
                InboundView::Event(ev) => correlate(d.engine, ev).state,
                _ => d.engine,
            },
            ..d
        }
    } else {
        DriverView { state: DriverState::Closed, ..d }
    }
}

/// The result of the handshake.
pub open spec fn handshake_result(d: DriverView, inbound: InboundView) -> Result<(), DriverError> {
    if d.state != DriverState::AwaitingHandshake {
        Err(DriverError::InvalidState)
    } else if acknowledges(d.dialect, inbound) {
        Ok(())
    } else {
        Err(DriverError::Handshake)
    }
}

/// The driver after a call was asked for. An idle driver takes the call:
/// the call carries the next id, and the request is admitted by the engine.
/// In any other state nothing changes.
pub open spec fn after_call(d: DriverView, command: Seq<char>, first: bool) -> DriverView {
    if d.state != DriverState::Idle {
        d
    } else {
        DriverView {
            state: DriverState::Executing { exec_id: d.next_id },
            engine: after_encode(d.engine, exec_request(d.dialect, d.next_id, command)),
            next_id: id_after(d.next_id),
            first: first,
            waiting: false,
            ..d
        }
    }
}

/// The driver and the call's progress after one inbound message.
pub struct Stepped {
    pub driver: DriverView,
    pub progress: ProgressView,
}

/// The driver's rule while a call is outstanding.
///
/// The end of the stream, a payload that could not be understood and a
/// message that has no place in a call each fail the call and close the
/// driver. An event goes through the correlation engine: what opens a
/// response or is body of one is yielded, what is discarded yields nothing,
/// and the end of a response ends the call, unless the call spans two
/// windows and this was the first: then the second is awaited. While no
/// call is outstanding nothing changes.
pub open spec fn step(d: DriverView, inbound: InboundView) -> Stepped {
    if !(d.state is Executing) {
        Stepped { driver: d, progress: ProgressView::Failed(DriverError::InvalidState) }
    } else {
        match inbound {
            InboundView::Closed => Stepped {
                driver: DriverView { state: DriverState::Closed, ..d },
                progress: ProgressView::Failed(DriverError::TransportClosed),
            },
            InboundView::Malformed => Stepped {
                driver: DriverView { state: DriverState::Closed, ..d },
                progress: ProgressView::Failed(DriverError::Malformed),
            },
            InboundView::Capabilities => Stepped {
                driver: DriverView { state: DriverState::Closed, ..d },
                progress: ProgressView::Failed(DriverError::ProtocolViolation),
            },
            InboundView::Event(ev) => {
                let c = correlate(d.engine, ev);
                match c.outcome {
                    Outcome::Discard => Stepped {
                        driver: DriverView { engine: c.state, ..d },
                        progress: ProgressView::Pending,
                    },
                    Outcome::StartOfResponse { message, .. } => Stepped {
                        driver: DriverView { engine: c.state, ..d },
                        progress: ProgressView::Yield(message),
                    },
                    Outcome::BodyChunk { message } => Stepped {
                        driver: DriverView { engine: c.state, ..d },
                        progress: ProgressView::Yield(message),
                    },
                    Outcome::EndOfResponse => if d.first && !d.waiting {
                        Stepped {
                            driver: DriverView { engine: c.state, waiting: true, ..d },
                            progress: ProgressView::Pending,
                        }
                    } else {
                        Stepped {
                            driver: DriverView {
                                engine: c.state,
                                state: DriverState::Idle,
                                waiting: false,
                                ..d
                            },
                            progress: ProgressView::Finished,
                        }
                    },
                }
            },
        }
    }
}

/// The driver of one connection.
#[derive(Debug)]
pub struct SbtProto {
    dialect: Dialect,
    state: DriverState,
    engine: CorrelationEngine,
    next_id: u32,
    first: bool,
    waiting: bool,
}

impl View for SbtProto {
    type V = DriverView;

    closed spec fn view(&self) -> DriverView {
        DriverView {
            dialect: self.dialect,
            state: self.state,
            engine: self.engine@,
            next_id: self.next_id,
            first: self.first,
            waiting: self.waiting,
        }
    }
}

impl SbtProto {
    /// A driver for a transport that was just opened, and what to send
    /// over it first, if the dialect opens with anything.
    pub fn init(dialect: Dialect) -> (started: (SbtProto, Option<CommandMessage>))
        ensures
            started.0@ == fresh_driver(dialect),
            match started.1 {
                Some(request) => handshake_request(dialect) == Some(request@),
                None => handshake_request(dialect) is None,
            },
    {
        let proto = SbtProto {
            dialect,
            state: DriverState::AwaitingHandshake,
            engine: CorrelationEngine::new(),
            next_id: 1,
            first: false,
            waiting: false,
        };
        let request = match dialect {
            Dialect::JsonRpc => Some(CommandMessage::initialize(1)),
            Dialect::Flat => None,
        };
        (proto, request)
    }

    /// The dialect of the connection.
    pub fn dialect(&self) -> (dialect: Dialect)
        ensures
            dialect == self@.dialect,
    {
        self.dialect
    }

    /// Where the driver stands.
    pub fn state(&self) -> (state: DriverState)
        ensures
            state == self@.state,
    {
        self.state
    }

    /// The correlation engine of the connection.
    pub fn engine(&self) -> (engine: &CorrelationEngine)
        ensures
            engine@ == self@.engine,
    {
        &self.engine
    }

    /// Takes the first inbound message, which must acknowledge the
    /// handshake. On success the driver is idle; on failure it is closed.
    pub fn handshake(&mut self, inbound: Inbound) -> (result: Result<(), DriverError>)
        ensures
            final(self)@ == after_handshake(old(self)@, inbound@),
            result == handshake_result(old(self)@, inbound@),
    {
        match self.state {
            DriverState::AwaitingHandshake => {},
            _ => {
                return Err(DriverError::InvalidState);
            },
        }
        match (self.dialect, inbound) {
            (Dialect::JsonRpc, Inbound::Capabilities) => {
                self.state = DriverState::Idle;
                Ok(())
            },
            (Dialect::Flat, Inbound::Event(InboundEvent::ChannelAccepted { channel_name })) => {
                let _ = self.engine.decode(InboundEvent::ChannelAccepted { channel_name });
                self.state = DriverState::Idle;
                Ok(())
            },
            _ => {
                self.state = DriverState::Closed;
                Err(DriverError::Handshake)
            },
        }
    }

    /// Begins a call: hands out the request to execute `command`, which
    /// carries the next id. `first` says whether the call spans two
    /// execution windows. Only an idle driver takes a call.
    pub fn call(&mut self, command: &str, first: bool) -> (result: Result<
        CommandMessage,
        DriverError,
    >)
        ensures
            final(self)@ == after_call(old(self)@, command@, first),
            match result {
                Ok(request) => old(self)@.state == DriverState::Idle && request@ == exec_request(
                    old(self)@.dialect,
                    old(self)@.next_id,
                    command@,
                ),
                Err(e) => old(self)@.state != DriverState::Idle && e == DriverError::InvalidState,
            },
    {
        match self.state {
            DriverState::Idle => {},
            _ => {
                return Err(DriverError::InvalidState);
            },
        }
        let id = self.next_id;
        let request = match self.dialect {
            Dialect::JsonRpc => CommandMessage::sbt_exec(id, String::from_str(command)),
            Dialect::Flat => CommandMessage::exec(
                String::from_str(command),
                Some(decimal_string(id as u128)),
            ),
        };
        let admitted = self.engine.encode(&request);
        assert(admitted is Ok);
        self.state = DriverState::Executing { exec_id: id };
        self.next_id = if id == u32::MAX {
            0
        } else {
            id + 1
        };
        self.first = first;
        self.waiting = false;
        Ok(request)
    }

    /// Takes one inbound message while a call is outstanding and says how
    /// far the call has come, as `step` defines it.
    pub fn process_event(&mut self, inbound: Inbound) -> (progress: Progress)
        ensures
            final(self)@ == step(old(self)@, inbound@).driver,
            progress@ == step(old(self)@, inbound@).progress,
    {
        match self.state {
            DriverState::Executing { .. } => {},
            _ => {
                return Progress::Failed(DriverError::InvalidState);
            },
        }
        match inbound {
            Inbound::Closed => {
                self.state = DriverState::Closed;
                Progress::Failed(DriverError::TransportClosed)
            },
            Inbound::Malformed => {
                self.state = DriverState::Closed;
                Progress::Failed(DriverError::Malformed)
            },
            Inbound::Capabilities => {
                self.state = DriverState::Closed;
                Progress::Failed(DriverError::ProtocolViolation)
            },
            Inbound::Event(event) => match self.engine.decode(event) {
                CorrelationResult::Discard => Progress::Pending,
                CorrelationResult::StartOfResponse { message, .. } => Progress::Yield(message),
                CorrelationResult::BodyChunk { message } => Progress::Yield(message),
                CorrelationResult::EndOfResponse => {
                    if self.first && !self.waiting {
                        self.waiting = true;
                        Progress::Pending
                    } else {
                        self.state = DriverState::Idle;
                        self.waiting = false;
                        Progress::Finished
                    }
                },
            },
        }
    }
}

} // verus!
