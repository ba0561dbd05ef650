//! The correlation engine: it decides, event by event, which response an
//! inbound event belongs to.
//!
//! The engine remembers the channel that the server bound to this client
//! and the execution that is under way. An event of another channel or of
//! another execution is discarded, never an error, so that foreign traffic
//! on a shared connection cannot disturb the response that is open.

use crate::events::{done, processing, EventView, InboundEvent};
use crate::messages::{decimal_string, decimal_text, CommandMessage, CommandView};
use crate::text::{same_text, str_eq, text_view};
use vstd::prelude::*;

verus! {

/// What the engine makes of one inbound event.
#[derive(Debug, PartialEq, Eq)]
pub enum CorrelationResult {
    /// The event concerns no open response and is dropped.
    Discard,
    /// The event opens a response and is its first message. `has_body`
    /// says whether more messages of the same response will follow.
    StartOfResponse { message: InboundEvent, has_body: bool },
    /// The event is one more message of the open response.
    BodyChunk { message: InboundEvent },
    /// The event closes the open response. It carries nothing.
    EndOfResponse,
}

/// A correlation result as plain values.
pub enum Outcome {
    Discard,
    StartOfResponse { message: EventView, has_body: bool },
    BodyChunk { message: EventView },
    EndOfResponse,
}

impl View for CorrelationResult {
    type V = Outcome;

    open spec fn view(&self) -> Outcome {
        match self {
            CorrelationResult::Discard => Outcome::Discard,
            CorrelationResult::StartOfResponse { message, has_body } => Outcome::StartOfResponse {
                message: message@,
                has_body: *has_body,
            },
            CorrelationResult::BodyChunk { message } => Outcome::BodyChunk { message: message@ },
            CorrelationResult::EndOfResponse => Outcome::EndOfResponse,
        }
    }
}

/// Why the engine refused to send a command.
#[derive(Clone, Copy, Debug, PartialEq, Eq, Structural)]
pub enum EngineError {
    /// Only a request to execute a command line can be sent.
    Unsupported,
}

/// What the engine remembers between two events.
pub struct EngineState {
    /// The execution whose response is open.
    pub current_exec_id: Option<Seq<char>>,
    /// The channel that the server bound to this client.
    pub bound_channel: Option<Seq<char>>,
    /// The tag of the last execution that this client asked for.
    pub outbound_exec_id: Option<Seq<char>>,
}

/// An engine's state and the outcome of an event.
pub struct Correlated {
    pub state: EngineState,
    pub outcome: Outcome,
}

/// The state of an engine that has seen nothing yet.
pub open spec fn idle_engine() -> EngineState {
    EngineState { current_exec_id: None, bound_channel: None, outbound_exec_id: None }
}

/// Whether an event that names `channel_name` belongs to another channel
/// than the one that is bound. An event that names no channel never does.
pub open spec fn foreign_channel(st: EngineState, channel_name: Option<Seq<char>>) -> bool {
    channel_name is Some && channel_name != st.bound_channel
}

/// The engine's rule: the state after an event, and what the event is to
/// the open response.
///
/// A channel acceptance is always taken: it binds the channel and is a
/// response of its own. Any other event of a foreign channel is discarded.
/// A status event needs an execution id. `Processing` opens the execution's
/// response, unless another execution is still under way: then it is
/// discarded and the execution under way stays. `Done` for the execution
/// under way closes its response; any other status for it is body. A log
/// line or diagnostic is a response of its own while no execution is under
/// way, body if it names the execution under way, and discarded otherwise.
pub open spec fn correlate(st: EngineState, ev: EventView) -> Correlated {
    let discarded = Correlated { state: st, outcome: Outcome::Discard };
    match ev {
        EventView::ChannelAccepted { channel_name } => Correlated {
            state: EngineState { bound_channel: Some(channel_name), ..st },
            outcome: Outcome::StartOfResponse { message: ev, has_body: false },
        },
        EventView::ExecStatus { status, channel_name, exec_id, .. } => {
            if foreign_channel(st, channel_name) || exec_id is None {
                discarded
            } else if status == processing() {
                if st.current_exec_id is Some && st.current_exec_id != exec_id {
                    discarded
                } else {
                    Correlated {
                        state: EngineState { current_exec_id: exec_id, ..st },
                        outcome: Outcome::StartOfResponse { message: ev, has_body: true },
                    }
                }
            } else if st.current_exec_id == exec_id {
                if status == done() {
                    Correlated {
                        state: EngineState { current_exec_id: None, ..st },
                        outcome: Outcome::EndOfResponse,
                    }
                } else {
                    Correlated { state: st, outcome: Outcome::BodyChunk { message: ev } }
                }
            } else {
                discarded
            }
        },
        EventView::LogOrDiagnostic { channel_name, exec_id, .. } => {
            if foreign_channel(st, channel_name) {
                discarded
            } else if st.current_exec_id is None {
                Correlated {
                    state: st,
                    outcome: Outcome::StartOfResponse { message: ev, has_body: false },
                }
            } else if exec_id == st.current_exec_id {
                Correlated { state: st, outcome: Outcome::BodyChunk { message: ev } }
            } else {
                discarded
            }
        },
    }
}

/// Whether a command may be sent: only a request to execute a command
/// line may, in either dialect.
pub open spec fn may_send(command: CommandView) -> bool {
    command is SbtExec || command is Exec
}

/// The engine's state after a command has been offered for sending. A
/// request to execute that names its execution leaves that name as the
/// outbound tag: the tag of the flat dialect, or the request id of the
/// JSON-RPC dialect in decimal. Nothing else leaves a trace.
pub open spec fn after_encode(st: EngineState, command: CommandView) -> EngineState {
    match command {
        CommandView::SbtExec { id, .. } => EngineState {
            outbound_exec_id: Some(decimal_text(id as nat)),
            ..st
        },
        CommandView::Exec { exec_id: Some(tag), .. } => EngineState {
            outbound_exec_id: Some(tag),
            ..st
        },
        _ => st,
    }
}

/// The correlation engine of one connection.
#[derive(Debug)]
pub struct CorrelationEngine {
    current_exec_id: Option<String>,
    bound_channel: Option<String>,
    outbound_exec_id: Option<String>,
}

impl View for CorrelationEngine {
    type V = EngineState;

    closed spec fn view(&self) -> EngineState {
        EngineState {
            current_exec_id: text_view(self.current_exec_id),
            bound_channel: text_view(self.bound_channel),
            outbound_exec_id: text_view(self.outbound_exec_id),
        }
    }
}

impl CorrelationEngine {
    /// An engine with no channel bound and no execution under way.
    pub fn new() -> (engine: CorrelationEngine)
        ensures
            engine@ == idle_engine(),
    {
        CorrelationEngine { current_exec_id: None, bound_channel: None, outbound_exec_id: None }
    }

    /// The channel that the server bound to this client, if any.
    pub fn bound_channel(&self) -> (name: Option<String>)
        ensures
            text_view(name) == self@.bound_channel,
    {
        self.bound_channel.clone()
    }

    /// The execution whose response is open, if any.
    pub fn current_exec_id(&self) -> (id: Option<String>)
        ensures
            text_view(id) == self@.current_exec_id,
    {
        self.current_exec_id.clone()
    }

    /// The tag of the last execution that this client asked for, if any.
    pub fn outbound_exec_id(&self) -> (id: Option<String>)
        ensures
            text_view(id) == self@.outbound_exec_id,
    {
        self.outbound_exec_id.clone()
    }

    /// Whether an event that names `channel_name` belongs to another
    /// channel than the one that is bound.
    fn is_foreign(&self, channel_name: &Option<String>) -> (foreign: bool)
        ensures
            foreign == foreign_channel(self@, text_view(*channel_name)),
    {
        channel_name.is_some() && !same_text(channel_name, &self.bound_channel)
    }

    /// Takes one inbound event and says what it is to the open response,
    /// as `correlate` defines it.
    pub fn decode(&mut self, event: InboundEvent) -> (result: CorrelationResult)
        ensures
            final(self)@ == correlate(old(self)@, event@).state,
            result@ == correlate(old(self)@, event@).outcome,
    {
        match event {
            InboundEvent::ChannelAccepted { channel_name } => {
                self.bound_channel = Some(channel_name.clone());
                CorrelationResult::StartOfResponse {
                    message: InboundEvent::ChannelAccepted { channel_name },
                    has_body: false,
                }
            },
            InboundEvent::ExecStatus { status, channel_name, exec_id, command_queue } => {
                if self.is_foreign(&channel_name) || exec_id.is_none() {
                    CorrelationResult::Discard
                } else if str_eq(status.as_str(), "Processing") {
                    if self.current_exec_id.is_some() && !same_text(
                        &self.current_exec_id,
                        &exec_id,
                    ) {
                        CorrelationResult::Discard
                    } else {
                        self.current_exec_id = exec_id.clone();
                        CorrelationResult::StartOfResponse {
                            message: InboundEvent::ExecStatus {
                                status,
                                channel_name,
                                exec_id,
                                command_queue,
                            },
                            has_body: true,
                        }
                    }
                } else if same_text(&self.current_exec_id, &exec_id) {
                    if str_eq(status.as_str(), "Done") {
                        self.current_exec_id = None;
                        CorrelationResult::EndOfResponse
                    } else {
                        CorrelationResult::BodyChunk {
                            message: InboundEvent::ExecStatus {
                                status,
                                channel_name,
                                exec_id,
                                command_queue,
                            },
                        }
                    }
                } else {
                    CorrelationResult::Discard
                }
            },
            InboundEvent::LogOrDiagnostic { level, message, channel_name, exec_id } => {
                if self.is_foreign(&channel_name) {
                    CorrelationResult::Discard
                } else if self.current_exec_id.is_none() {
                    CorrelationResult::StartOfResponse {
                        message: InboundEvent::LogOrDiagnostic {
                            level,
                            message,
                            channel_name,
                            exec_id,
                        },
                        has_body: false,
                    }
                } else if same_text(&exec_id, &self.current_exec_id) {
                    CorrelationResult::BodyChunk {
                        message: InboundEvent::LogOrDiagnostic {
                            level,
                            message,
                            channel_name,
                            exec_id,
                        },
                    }
                } else {
                    CorrelationResult::Discard
                }
            },
        }
    }

    /// Admits a command for sending. Only a request to execute a command
    /// line is admitted; the name of its execution, if it has one, becomes
    /// the engine's outbound tag. Any other command is refused as
    /// unsupported and changes nothing.
    pub fn encode(&mut self, command: &CommandMessage) -> (result: Result<(), EngineError>)
        ensures
            result == if may_send(command@) {
                Ok::<(), EngineError>(())
            } else {
                Err::<(), EngineError>(EngineError::Unsupported)
            },
            final(self)@ == after_encode(old(self)@, command@),
    {
        match command {
            CommandMessage::SbtExec { id, .. } => {
                self.outbound_exec_id = Some(decimal_string(*id as u128));
                Ok(())
            },
            CommandMessage::Exec { exec_id, .. } => {
                match exec_id {
                    Some(tag) => {
                        self.outbound_exec_id = Some(tag.clone());
                    },
                    None => {},
                }
                Ok(())
            },
            _ => Err(EngineError::Unsupported),
        }
    }
}

/// The engine's state after a run of events, each taken in turn.
pub open spec fn feed(st: EngineState, events: Seq<EventView>) -> EngineState
    decreases events.len(),
{
    if events.len() == 0 {
        st
    } else {
        feed(correlate(st, events[0]).state, events.drop_first())
    }
}

/// Whether every event of a run, taken in turn, is body of the open
/// response.
pub open spec fn all_body(st: EngineState, events: Seq<EventView>) -> bool
    decreases events.len(),
{
    events.len() == 0 || (correlate(st, events[0]).outcome is BodyChunk && all_body(
        correlate(st, events[0]).state,
        events.drop_first(),
    ))
}

/// Whether `ev` reports the given status for the execution `exec_id`.
pub open spec fn reports(ev: EventView, status: Seq<char>, exec_id: Seq<char>) -> bool {
    ev matches EventView::ExecStatus { status: s, exec_id: e, .. } && s == status && e == Some(
        exec_id,
    )
}

/// A log line, a diagnostic or a status event that names a channel other
/// than the bound one is discarded, and the engine's state stays as it
/// was. (A channel acceptance is the one event that is always taken: it is
/// what binds the channel.)
pub proof fn law_foreign_channel_is_discarded(st: EngineState, ev: EventView)
    requires
        !(ev is ChannelAccepted),
        ev.channel_name() is Some,
        ev.channel_name() != st.bound_channel,
    ensures
        correlate(st, ev).outcome == Outcome::Discard,
        correlate(st, ev).state == st,
{
}

/// A body chunk leaves the engine's state as it was.
pub proof fn law_body_keeps_state(st: EngineState, ev: EventView)
    requires
        correlate(st, ev).outcome is BodyChunk,
    ensures
        correlate(st, ev).state == st,
{
}

/// A run of body chunks leaves the engine's state as it was.
pub proof fn law_body_run_keeps_state(st: EngineState, events: Seq<EventView>)
    requires
        all_body(st, events),
    ensures
        feed(st, events) == st,
    decreases events.len(),
{
    if events.len() > 0 {
        law_body_run_keeps_state(st, events.drop_first());
    }
}

/// While no other execution is under way, `Processing` for an execution
/// opens its response; after any run of body chunks, `Done` for the same
/// execution closes the response and leaves no execution under way.
pub proof fn law_execution_boundary(
    st: EngineState,
    exec_id: Seq<char>,
    opening: EventView,
    body: Seq<EventView>,
    closing: EventView,
)
    requires
        st.current_exec_id is None || st.current_exec_id == Some(exec_id),
        reports(opening, processing(), exec_id),
        reports(closing, done(), exec_id),
        !foreign_channel(st, opening.channel_name()),
        !foreign_channel(st, closing.channel_name()),
        all_body(correlate(st, opening).state, body),
    ensures
        correlate(st, opening).outcome == (Outcome::StartOfResponse {
            message: opening,
            has_body: true,
        }),
        correlate(st, opening).state.current_exec_id == Some(exec_id),
        correlate(feed(correlate(st, opening).state, body), closing).outcome
            == Outcome::EndOfResponse,
        correlate(feed(correlate(st, opening).state, body), closing).state.current_exec_id is None,
{
    reveal_strlit("Processing");
    reveal_strlit("Done");
    assert(processing() != done()) by {
        assert(processing().len() != done().len());
    }
    law_body_run_keeps_state(correlate(st, opening).state, body);
}

/// While an execution is under way, `Processing` for any other execution
/// is discarded: the execution under way is not replaced.
pub proof fn law_no_nested_execution(st: EngineState, ev: EventView)
    requires
        st.current_exec_id is Some,
        ev matches EventView::ExecStatus { status, exec_id, .. } && status == processing()
            && exec_id != st.current_exec_id,
    ensures
        correlate(st, ev).outcome == Outcome::Discard,
        correlate(st, ev).state == st,
{
}

} // verus!
