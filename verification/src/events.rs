//! The events that the correlation engine works on: what the server
//! reports about channels, executions and logs, each tagged with the
//! channel and the execution that it belongs to. The flat dialect sends
//! them as they are.

use crate::messages::{tagged, tagged_line};
use crate::text::{str_eq, text_view};
use vstd::prelude::*;

verus! {

/// An event sent by the server.
#[derive(Debug, PartialEq, Eq)]
#[allow(inconsistent_fields)]
pub enum InboundEvent {
    /// The server has accepted the connection and named its channel.
    ChannelAccepted { channel_name: String },
    /// A log line or a diagnostic.
    LogOrDiagnostic {
        level: String,
        message: String,
        channel_name: Option<String>,
        exec_id: Option<String>,
    },
    /// An execution has entered the given status.
    ExecStatus {
        status: String,
        channel_name: Option<String>,
        exec_id: Option<String>,
        command_queue: Option<Vec<String>>,
    },
}

/// An event as plain values.
#[allow(inconsistent_fields)]
pub enum EventView {
    ChannelAccepted { channel_name: Seq<char> },
    LogOrDiagnostic {
        level: Seq<char>,
        message: Seq<char>,
        channel_name: Option<Seq<char>>,
        exec_id: Option<Seq<char>>,
    },
    ExecStatus {
        status: Seq<char>,
        channel_name: Option<Seq<char>>,
        exec_id: Option<Seq<char>>,
        command_queue: Option<Seq<Seq<char>>>,
    },
}

/// The characters of each text in an optional list.
pub open spec fn list_view(list: Option<Vec<String>>) -> Option<Seq<Seq<char>>> {
    match list {
        Some(v) => Some(Seq::new(v@.len(), |i: int| v@[i]@)),
        None => None,
    }
}

impl View for InboundEvent {
    type V = EventView;

    open spec fn view(&self) -> EventView {
        match self {
            InboundEvent::ChannelAccepted { channel_name } => EventView::ChannelAccepted {
                channel_name: channel_name@,
            },
            InboundEvent::LogOrDiagnostic {
                level,
                message,
                channel_name,
                exec_id,
            } => EventView::LogOrDiagnostic {
                level: level@,
                message: message@,
                channel_name: text_view(*channel_name),
                exec_id: text_view(*exec_id),
            },
            InboundEvent::ExecStatus {
                status,
                channel_name,
                exec_id,
                command_queue,
            } => EventView::ExecStatus {
                status: status@,
                channel_name: text_view(*channel_name),
                exec_id: text_view(*exec_id),
                command_queue: list_view(*command_queue),
            },
        }
    }
}

/// The members of an event's payload that the protocol knows, each as it
/// was found: `type`, `channelName`, `execId`, `level`, `message`,
/// `status` and `commandQueue`.
#[derive(Debug, PartialEq, Eq)]
pub struct EventFields {
    pub typ: Option<String>,
    pub channel_name: Option<String>,
    pub exec_id: Option<String>,
    pub level: Option<String>,
    pub message: Option<String>,
    pub status: Option<String>,
    pub command_queue: Option<Vec<String>>,
}

/// The members of a payload as plain values.
pub struct FieldsView {
    pub typ: Option<Seq<char>>,
    pub channel_name: Option<Seq<char>>,
    pub exec_id: Option<Seq<char>>,
    pub level: Option<Seq<char>>,
    pub message: Option<Seq<char>>,
    pub status: Option<Seq<char>>,
    pub command_queue: Option<Seq<Seq<char>>>,
}

impl View for EventFields {
    type V = FieldsView;

    open spec fn view(&self) -> FieldsView {
        FieldsView {
            typ: text_view(self.typ),
            channel_name: text_view(self.channel_name),
            exec_id: text_view(self.exec_id),
            level: text_view(self.level),
            message: text_view(self.message),
            status: text_view(self.status),
            command_queue: list_view(self.command_queue),
        }
    }
}

/// Why a payload is no event of the protocol.
#[derive(Clone, Copy, Debug, PartialEq, Eq, Structural)]
pub enum ProtocolViolation {
    /// The payload does not say what type of event it is.
    MissingType,
    /// The payload's type is none that the protocol knows.
    UnknownType,
    /// A member that the payload's type calls for is missing.
    MissingField,
}

/// The event that a payload's members make up.
///
/// The type decides. `ChannelAcceptedEvent` needs the channel's name.
/// `ChannelLogEntry` and `StringEvent` are log lines and need a level and a
/// message. `ExecStatusEvent` needs a status. Channel and execution are
/// optional on log lines and status events, and members that the type does
/// not call for are passed over.
pub open spec fn event_of(fields: FieldsView) -> Result<EventView, ProtocolViolation> {
    match fields.typ {
        None => Err(ProtocolViolation::MissingType),
        Some(typ) => if typ == "ChannelAcceptedEvent"@ {
            match fields.channel_name {
                Some(channel_name) => Ok(EventView::ChannelAccepted { channel_name }),
                None => Err(ProtocolViolation::MissingField),
            }
        } else if typ == "ChannelLogEntry"@ || typ == "StringEvent"@ {
            match (fields.level, fields.message) {
                (Some(level), Some(message)) => Ok(
                    EventView::LogOrDiagnostic {
                        level,
                        message,
                        channel_name: fields.channel_name,
                        exec_id: fields.exec_id,
                    },
                ),
                _ => Err(ProtocolViolation::MissingField),
            }
        } else if typ == "ExecStatusEvent"@ {
            match fields.status {
                Some(status) => Ok(
                    EventView::ExecStatus {
                        status,
                        channel_name: fields.channel_name,
                        exec_id: fields.exec_id,
                        command_queue: fields.command_queue,
                    },
                ),
                None => Err(ProtocolViolation::MissingField),
            }
        } else {
            Err(ProtocolViolation::UnknownType)
        },
    }
}

/// What `from_fields` returned, as plain values.
pub open spec fn event_result_view(r: Result<InboundEvent, ProtocolViolation>) -> Result<
    EventView,
    ProtocolViolation,
> {
    match r {
        Ok(event) => Ok(event@),
        Err(e) => Err(e),
    }
}

/// The status that opens an execution.
pub open spec fn processing() -> Seq<char> {
    "Processing"@
}

/// The status that closes an execution.
pub open spec fn done() -> Seq<char> {
    "Done"@
}

impl EventView {
    /// The channel that the event names. A channel acceptance names the
    /// channel that it opens.
    pub open spec fn channel_name(self) -> Option<Seq<char>> {
        match self {
            EventView::ChannelAccepted { channel_name } => Some(channel_name),
            EventView::LogOrDiagnostic { channel_name, .. } => channel_name,
            EventView::ExecStatus { channel_name, .. } => channel_name,
        }
    }

    /// How the event reads: `[tag] text`, where a channel acceptance shows
    /// the channel's name under `info`, a log line its message under its
    /// level, and a status change the status under `info`.
    pub open spec fn rendering(self) -> Seq<char> {
        match self {
            EventView::ChannelAccepted { channel_name } => tagged("info"@, channel_name),
            EventView::LogOrDiagnostic { level, message, .. } => tagged(level, message),
            EventView::ExecStatus { status, .. } => tagged("info"@, status),
        }
    }
}

/// A copy of an optional list of texts.
fn clone_list(list: &Option<Vec<String>>) -> (copy: Option<Vec<String>>)
    ensures
        list_view(copy) == list_view(*list),
{
    match list {
        None => None,
        Some(texts) => {
            let mut copy: Vec<String> = Vec::new();
            let mut i: usize = 0;
            while i < texts.len()
                invariant
                    i <= texts@.len(),
                    copy@.len() == i,
                    forall|j: int| 0 <= j < i ==> (#[trigger] copy@[j])@ == texts@[j]@,
                decreases texts.len() - i,
            {
                copy.push(texts[i].clone());
                i += 1;
            }
            assert(list_view(Some(copy)) =~= list_view(*list));
            Some(copy)
        },
    }
}

impl Clone for InboundEvent {
    /// A copy that holds the same values.
    fn clone(&self) -> (copy: InboundEvent)
        ensures
            copy@ == self@,
    {
        match self {
            InboundEvent::ChannelAccepted { channel_name } => InboundEvent::ChannelAccepted {
                channel_name: channel_name.clone(),
            },
            InboundEvent::LogOrDiagnostic {
                level,
                message,
                channel_name,
                exec_id,
            } => InboundEvent::LogOrDiagnostic {
                level: level.clone(),
                message: message.clone(),
                channel_name: channel_name.clone(),
                exec_id: exec_id.clone(),
            },
            InboundEvent::ExecStatus {
                status,
                channel_name,
                exec_id,
                command_queue,
            } => InboundEvent::ExecStatus {
                status: status.clone(),
                channel_name: channel_name.clone(),
                exec_id: exec_id.clone(),
                command_queue: clone_list(command_queue),
            },
        }
    }
}

impl InboundEvent {
    /// Makes an event of a payload's members, as `event_of` defines it, or
    /// says why they make none.
    pub fn from_fields(fields: EventFields) -> (r: Result<InboundEvent, ProtocolViolation>)
        ensures
            event_result_view(r) == event_of(fields@),
    {
        let EventFields { typ, channel_name, exec_id, level, message, status, command_queue } =
            fields;
        let typ = match typ {
            Some(typ) => typ,
            None => {
                return Err(ProtocolViolation::MissingType);
            },
        };
        if str_eq(typ.as_str(), "ChannelAcceptedEvent") {
            match channel_name {
                Some(channel_name) => Ok(InboundEvent::ChannelAccepted { channel_name }),
                None => Err(ProtocolViolation::MissingField),
            }
        } else if str_eq(typ.as_str(), "ChannelLogEntry") || str_eq(typ.as_str(), "StringEvent") {
            match (level, message) {
                (Some(level), Some(message)) => Ok(
                    InboundEvent::LogOrDiagnostic { level, message, channel_name, exec_id },
                ),
                _ => Err(ProtocolViolation::MissingField),
            }
        } else if str_eq(typ.as_str(), "ExecStatusEvent") {
            match status {
                Some(status) => Ok(
                    InboundEvent::ExecStatus { status, channel_name, exec_id, command_queue },
                ),
                None => Err(ProtocolViolation::MissingField),
            }
        } else {
            Err(ProtocolViolation::UnknownType)
        }
    }

    /// The event as text for a terminal.
    pub fn render(&self) -> (text: String)
        ensures
            text@ == self@.rendering(),
    {
        match self {
            InboundEvent::ChannelAccepted { channel_name } => tagged_line(
                "info",
                channel_name.as_str(),
            ),
            InboundEvent::LogOrDiagnostic { level, message, .. } => tagged_line(
                level.as_str(),
                message.as_str(),
            ),
            InboundEvent::ExecStatus { status, .. } => tagged_line("info", status.as_str()),
        }
    }
}

} // verus!
