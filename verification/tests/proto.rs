use nsbt::events::InboundEvent;
use nsbt::messages::{
    CommandMessage, Diagnostic, DiagnosticSeverity, EventMessage, LogMessageParams, MessageType,
    PublishDiagnosticsParams, RpcAnswer, RpcAnswerResult, RpcError, RpcErrorResult, RpcInput,
    SbtExecParams,
};
use nsbt::events::EventFields;
use nsbt::proto::{Dialect, DriverError, DriverState, Inbound, Progress, SbtProto};

fn exec_status(status: &str, exec: &str) -> InboundEvent {
    InboundEvent::ExecStatus {
        status: status.to_string(),
        channel_name: Some("c1".to_string()),
        exec_id: Some(exec.to_string()),
        command_queue: None,
    }
}

fn log_event(message: &str, exec: Option<&str>) -> InboundEvent {
    InboundEvent::LogOrDiagnostic {
        level: "info".to_string(),
        message: message.to_string(),
        channel_name: Some("c1".to_string()),
        exec_id: exec.map(|s| s.to_string()),
    }
}

fn accepted() -> Inbound {
    Inbound::Event(InboundEvent::ChannelAccepted {
        channel_name: "c1".to_string(),
    })
}

fn idle() -> SbtProto {
    let (mut proto, _) = SbtProto::init(Dialect::Flat);
    assert_eq!(proto.handshake(accepted()), Ok(()));
    proto
}

fn idle_rpc() -> SbtProto {
    let (mut proto, _) = SbtProto::init(Dialect::JsonRpc);
    assert_eq!(proto.handshake(Inbound::Capabilities), Ok(()));
    proto
}

fn rpc_log(typ: MessageType, message: &str) -> RpcInput {
    RpcInput::Notification(EventMessage::Log(LogMessageParams {
        typ,
        message: message.to_string(),
    }))
}

#[test]
fn init_hands_out_the_handshake_request() {
    let (proto, request) = SbtProto::init(Dialect::JsonRpc);
    assert_eq!(proto.dialect(), Dialect::JsonRpc);
    assert_eq!(proto.state(), DriverState::AwaitingHandshake);
    assert_eq!(request, Some(CommandMessage::initialize(1)));
    assert_eq!(proto.engine().bound_channel(), None);
    assert_eq!(proto.engine().current_exec_id(), None);
}

#[test]
fn the_flat_dialect_opens_with_nothing() {
    let (proto, request) = SbtProto::init(Dialect::Flat);
    assert_eq!(proto.dialect(), Dialect::Flat);
    assert_eq!(proto.state(), DriverState::AwaitingHandshake);
    assert_eq!(request, None);
}

#[test]
fn channel_acceptance_acknowledges_the_flat_handshake() {
    let (mut proto, _) = SbtProto::init(Dialect::Flat);
    assert_eq!(proto.handshake(accepted()), Ok(()));
    assert_eq!(proto.state(), DriverState::Idle);
    assert_eq!(proto.engine().bound_channel(), Some("c1".to_string()));
}

#[test]
fn capabilities_acknowledge_the_rpc_handshake() {
    let (mut proto, _) = SbtProto::init(Dialect::JsonRpc);
    assert_eq!(proto.handshake(Inbound::Capabilities), Ok(()));
    assert_eq!(proto.state(), DriverState::Idle);
    assert_eq!(proto.engine().bound_channel(), None);
}

#[test]
fn anything_else_fails_the_handshake_and_closes_the_driver() {
    for dialect in [Dialect::JsonRpc, Dialect::Flat] {
        for first in [
            Inbound::Closed,
            Inbound::Malformed,
            Inbound::Event(log_event("hello", None)),
            Inbound::Event(exec_status("Processing", "1")),
            match dialect {
                Dialect::JsonRpc => accepted(),
                Dialect::Flat => Inbound::Capabilities,
            },
        ] {
            let (mut proto, _) = SbtProto::init(dialect);
            assert_eq!(proto.handshake(first), Err(DriverError::Handshake));
            assert_eq!(proto.state(), DriverState::Closed);
            assert_eq!(proto.engine().bound_channel(), None);
            assert_eq!(proto.call("compile", false), Err(DriverError::InvalidState));
        }
    }
}

#[test]
fn the_handshake_happens_once() {
    let mut proto = idle();
    assert_eq!(proto.handshake(accepted()), Err(DriverError::InvalidState));
    assert_eq!(proto.state(), DriverState::Idle);
}

#[test]
fn no_call_before_the_handshake() {
    let (mut proto, _) = SbtProto::init(Dialect::Flat);
    assert_eq!(proto.call("compile", false), Err(DriverError::InvalidState));
    assert_eq!(proto.state(), DriverState::AwaitingHandshake);
    assert_eq!(
        proto.process_event(accepted()),
        Progress::Failed(DriverError::InvalidState)
    );
    assert_eq!(proto.state(), DriverState::AwaitingHandshake);
}

#[test]
fn a_flat_call_carries_the_next_id_as_its_tag() {
    let mut proto = idle();
    assert_eq!(
        proto.call("show scalaVersion", false),
        Ok(CommandMessage::Exec {
            command_line: "show scalaVersion".to_string(),
            exec_id: Some("1".to_string()),
        })
    );
    assert_eq!(proto.state(), DriverState::Executing { exec_id: 1 });
    assert_eq!(proto.engine().outbound_exec_id(), Some("1".to_string()));
    assert_eq!(proto.engine().current_exec_id(), None);
}

#[test]
fn a_call_carries_the_next_id_and_the_command_line() {
    let mut proto = idle_rpc();
    assert_eq!(
        proto.call("show scalaVersion", false),
        Ok(CommandMessage::SbtExec {
            id: 1,
            jsonrpc: "2.0".to_string(),
            params: SbtExecParams {
                command_line: "show scalaVersion".to_string()
            },
        })
    );
    assert_eq!(proto.state(), DriverState::Executing { exec_id: 1 });
    assert_eq!(proto.engine().outbound_exec_id(), Some("1".to_string()));
}

#[test]
fn a_second_call_waits_for_the_first() {
    let mut proto = idle();
    proto.call("compile", false).unwrap();
    assert_eq!(proto.call("test", false), Err(DriverError::InvalidState));
    assert_eq!(proto.state(), DriverState::Executing { exec_id: 1 });
    assert_eq!(proto.engine().outbound_exec_id(), Some("1".to_string()));
}

#[test]
fn a_call_runs_from_processing_to_done() {
    let mut proto = idle();
    proto.call("compile", false).unwrap();
    let opening = exec_status("Processing", "1");
    assert_eq!(
        proto.process_event(Inbound::Event(opening.clone())),
        Progress::Yield(opening)
    );
    let line = log_event("compiling 3 sources", Some("1"));
    assert_eq!(
        proto.process_event(Inbound::Event(line.clone())),
        Progress::Yield(line)
    );
    assert_eq!(
        proto.process_event(Inbound::Event(log_event("other call", Some("9")))),
        Progress::Pending
    );
    assert_eq!(proto.state(), DriverState::Executing { exec_id: 1 });
    assert_eq!(
        proto.process_event(Inbound::Event(exec_status("Done", "1"))),
        Progress::Finished
    );
    assert_eq!(proto.state(), DriverState::Idle);
    assert_eq!(
        proto.process_event(Inbound::Event(log_event("late", None))),
        Progress::Failed(DriverError::InvalidState)
    );
    assert_eq!(proto.state(), DriverState::Idle);
}

#[test]
fn calls_are_numbered_in_sequence() {
    let mut proto = idle_rpc();
    for id in 1..=5u32 {
        let request = proto.call("compile", false).unwrap();
        assert_eq!(request, CommandMessage::sbt_exec(id, "compile".to_string()));
        let tag = id.to_string();
        let opening = InboundEvent::ExecStatus {
            status: "Processing".to_string(),
            channel_name: None,
            exec_id: Some(tag.clone()),
            command_queue: None,
        };
        proto.process_event(Inbound::Event(opening));
        let closing = InboundEvent::ExecStatus {
            status: "Done".to_string(),
            channel_name: None,
            exec_id: Some(tag),
            command_queue: None,
        };
        assert_eq!(
            proto.process_event(Inbound::Event(closing)),
            Progress::Finished
        );
    }
}

#[test]
fn a_first_call_spans_two_windows() {
    let mut proto = idle();
    proto.call("compile", true).unwrap();
    let opening = exec_status("Processing", "1");
    assert_eq!(
        proto.process_event(Inbound::Event(opening.clone())),
        Progress::Yield(opening.clone())
    );
    assert_eq!(
        proto.process_event(Inbound::Event(exec_status("Done", "1"))),
        Progress::Pending
    );
    assert_eq!(proto.state(), DriverState::Executing { exec_id: 1 });
    let between = log_event("between the windows", None);
    assert_eq!(
        proto.process_event(Inbound::Event(between.clone())),
        Progress::Yield(between)
    );
    assert_eq!(
        proto.process_event(Inbound::Event(opening.clone())),
        Progress::Yield(opening)
    );
    assert_eq!(
        proto.process_event(Inbound::Event(exec_status("Done", "1"))),
        Progress::Finished
    );
    assert_eq!(proto.state(), DriverState::Idle);
    proto.call("test", false).unwrap();
    proto.process_event(Inbound::Event(exec_status("Processing", "2")));
    assert_eq!(
        proto.process_event(Inbound::Event(exec_status("Done", "2"))),
        Progress::Finished
    );
}

#[test]
fn the_end_of_the_stream_fails_the_call_and_closes_the_driver() {
    let mut proto = idle();
    proto.call("compile", false).unwrap();
    assert_eq!(
        proto.process_event(Inbound::Closed),
        Progress::Failed(DriverError::TransportClosed)
    );
    assert_eq!(proto.state(), DriverState::Closed);
    assert_eq!(proto.call("compile", false), Err(DriverError::InvalidState));
    assert_eq!(
        proto.process_event(Inbound::Closed),
        Progress::Failed(DriverError::InvalidState)
    );
}

#[test]
fn a_malformed_payload_fails_the_call_and_closes_the_driver() {
    let mut proto = idle();
    proto.call("compile", false).unwrap();
    assert_eq!(
        proto.process_event(Inbound::Malformed),
        Progress::Failed(DriverError::Malformed)
    );
    assert_eq!(proto.state(), DriverState::Closed);
}

#[test]
fn capabilities_have_no_place_in_a_call() {
    let mut proto = idle_rpc();
    proto.call("compile", false).unwrap();
    assert_eq!(
        proto.process_event(Inbound::Capabilities),
        Progress::Failed(DriverError::ProtocolViolation)
    );
    assert_eq!(proto.state(), DriverState::Closed);
}

#[test]
fn rpc_log_messages_become_status_changes_and_log_lines() {
    let tag = Some("3".to_string());
    assert_eq!(
        Inbound::from_rpc(rpc_log(MessageType::Info, "Processing"), &tag),
        vec![Inbound::Event(InboundEvent::ExecStatus {
            status: "Processing".to_string(),
            channel_name: None,
            exec_id: Some("3".to_string()),
            command_queue: None,
        })]
    );
    assert_eq!(
        Inbound::from_rpc(rpc_log(MessageType::Log, "Done"), &None),
        vec![Inbound::Event(InboundEvent::ExecStatus {
            status: "Done".to_string(),
            channel_name: None,
            exec_id: None,
            command_queue: None,
        })]
    );
    assert_eq!(
        Inbound::from_rpc(rpc_log(MessageType::Warning, "Done."), &tag),
        vec![Inbound::Event(InboundEvent::LogOrDiagnostic {
            level: "warn".to_string(),
            message: "Done.".to_string(),
            channel_name: None,
            exec_id: Some("3".to_string()),
        })]
    );
}

#[test]
fn rpc_diagnostics_become_one_log_line_each() {
    let report = RpcInput::Notification(EventMessage::Diagnostic(PublishDiagnosticsParams {
        path: "/A.scala".to_string(),
        diagnostics: vec![
            Diagnostic {
                severity: Some(DiagnosticSeverity::Error),
                line: 2,
                character: 7,
                message: "type mismatch".to_string(),
            },
            Diagnostic {
                severity: None,
                line: 0,
                character: 0,
                message: "note".to_string(),
            },
        ],
    }));
    let rendered = report.render();
    let list = Inbound::from_rpc(report, &Some("1".to_string()));
    assert_eq!(
        list,
        vec![
            Inbound::Event(InboundEvent::LogOrDiagnostic {
                level: "error".to_string(),
                message: "/A.scala:3:8: type mismatch".to_string(),
                channel_name: None,
                exec_id: Some("1".to_string()),
            }),
            Inbound::Event(InboundEvent::LogOrDiagnostic {
                level: "info".to_string(),
                message: "/A.scala:1:1: note".to_string(),
                channel_name: None,
                exec_id: Some("1".to_string()),
            }),
        ]
    );
    let mut lines = String::new();
    for inbound in list {
        if let Inbound::Event(event) = inbound {
            lines.push_str(&event.render());
            lines.push('\n');
        }
    }
    assert_eq!(lines, rendered);
}

#[test]
fn rpc_answers_and_failures() {
    let tag = Some("1".to_string());
    let init = RpcInput::CallResult(RpcAnswer {
        id: "1".to_string(),
        result: RpcAnswerResult::Init,
    });
    assert_eq!(Inbound::from_rpc(init, &tag), vec![Inbound::Capabilities]);
    let setting = RpcInput::CallResult(RpcAnswer {
        id: "2".to_string(),
        result: RpcAnswerResult::Setting {
            value: "2.12.4".to_string(),
            content_type: "java.lang.String".to_string(),
        },
    });
    assert_eq!(
        Inbound::from_rpc(setting, &tag),
        vec![Inbound::Event(InboundEvent::LogOrDiagnostic {
            level: "info".to_string(),
            message: "2.12.4".to_string(),
            channel_name: None,
            exec_id: Some("1".to_string()),
        })]
    );
    let failure = RpcInput::Error(RpcError {
        id: "3".to_string(),
        error: RpcErrorResult {
            code: -1,
            message: "no such command".to_string(),
        },
    });
    assert_eq!(
        Inbound::from_rpc(failure, &None),
        vec![Inbound::Event(InboundEvent::LogOrDiagnostic {
            level: "error".to_string(),
            message: "no such command".to_string(),
            channel_name: None,
            exec_id: None,
        })]
    );
}

#[test]
fn a_call_driven_by_rpc_messages() {
    let (mut proto, _) = SbtProto::init(Dialect::JsonRpc);
    let capabilities = RpcInput::CallResult(RpcAnswer {
        id: "1".to_string(),
        result: RpcAnswerResult::Init,
    });
    let mut first = Inbound::from_rpc(capabilities, &None);
    assert_eq!(proto.handshake(first.remove(0)), Ok(()));
    proto.call("compile", true).unwrap();
    let tag = proto.engine().outbound_exec_id();
    assert_eq!(tag, Some("1".to_string()));
    let script = [
        ("Processing", Some(false)),
        ("Done", Some(false)),
        ("Processing", Some(false)),
        ("[info] Compiling", Some(false)),
        ("Done", Some(true)),
    ];
    let mut yielded = Vec::new();
    for (message, _) in script {
        for inbound in Inbound::from_rpc(rpc_log(MessageType::Info, message), &tag) {
            match proto.process_event(inbound) {
                Progress::Yield(event) => yielded.push(event.render()),
                Progress::Pending => {}
                Progress::Finished => yielded.push("<finished>".to_string()),
                Progress::Failed(e) => panic!("failed: {:?}", e),
            }
        }
    }
    assert_eq!(
        yielded,
        vec![
            "[info] Processing".to_string(),
            "[info] Processing".to_string(),
            "[info] [info] Compiling".to_string(),
            "<finished>".to_string(),
        ]
    );
    assert_eq!(proto.state(), DriverState::Idle);
}

#[test]
fn flat_payloads_become_events_or_are_malformed() {
    let fields = EventFields {
        typ: Some("ExecStatusEvent".to_string()),
        channel_name: Some("c1".to_string()),
        exec_id: Some("1".to_string()),
        level: None,
        message: None,
        status: Some("Done".to_string()),
        command_queue: None,
    };
    assert_eq!(
        Inbound::from_fields(fields),
        Inbound::Event(exec_status("Done", "1"))
    );
    let nameless = EventFields {
        typ: None,
        channel_name: Some("c1".to_string()),
        exec_id: None,
        level: None,
        message: None,
        status: None,
        command_queue: None,
    };
    assert_eq!(Inbound::from_fields(nameless), Inbound::Malformed);
}
