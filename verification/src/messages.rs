//! The requests that a client sends, the messages that a server of the
//! JSON-RPC dialect sends back, and how each of those reads on a terminal.

use crate::decimal::{decimal_digits, format_decimal, is_digit, lemma_decimal_digits};
use crate::text::{ascii_chars, ascii_text, is_ascii_bytes, text_view};
use vstd::prelude::*;
use vstd::string::StringExecFns;

verus! {

/// The protocol version that every command announces.
pub open spec fn jsonrpc_version() -> Seq<char> {
    "2.0"@
}

/// The characters of the shortest decimal numeral for `n`.
pub open spec fn decimal_text(n: nat) -> Seq<char> {
    ascii_chars(decimal_digits(n))
}

/// Parameters of the `initialize` request.
#[derive(Debug, PartialEq, Eq)]
pub struct SbtInitParams {
    pub initialization_options: Option<String>,
}

/// Parameters of the `sbt/exec` request.
#[derive(Debug, PartialEq, Eq)]
pub struct SbtExecParams {
    pub command_line: String,
}

/// Parameters of the `sbt/setting` request.
#[derive(Debug, PartialEq, Eq)]
pub struct SbtSettingQueryParams {
    pub setting: String,
}

/// A request that the client sends to the server.
#[derive(Debug, PartialEq, Eq)]
#[allow(inconsistent_fields)]
pub enum CommandMessage {
    /// The handshake: asks the server for its capabilities.
    Initialize { id: u32, jsonrpc: String, params: SbtInitParams },
    /// Asks the server to run a command line.
    SbtExec { id: u32, jsonrpc: String, params: SbtExecParams },
    /// Asks the server for the value of a setting.
    SbtSettingQuery { id: u32, jsonrpc: String, params: SbtSettingQueryParams },
    /// Asks the server to run a command line, in the flat dialect: the
    /// execution is named by a tag of the client's choice, or not at all.
    Exec { command_line: String, exec_id: Option<String> },
}

/// A request as plain values.
#[allow(inconsistent_fields)]
pub enum CommandView {
    Initialize { id: u32, jsonrpc: Seq<char>, initialization_options: Option<Seq<char>> },
    SbtExec { id: u32, jsonrpc: Seq<char>, command_line: Seq<char> },
    SbtSettingQuery { id: u32, jsonrpc: Seq<char>, setting: Seq<char> },
    Exec { command_line: Seq<char>, exec_id: Option<Seq<char>> },
}

impl View for CommandMessage {
    type V = CommandView;

    open spec fn view(&self) -> CommandView {
        match self {
            CommandMessage::Initialize { id, jsonrpc, params } => CommandView::Initialize {
                id: *id,
                jsonrpc: jsonrpc@,
                initialization_options: text_view(params.initialization_options),
            },
            CommandMessage::SbtExec { id, jsonrpc, params } => CommandView::SbtExec {
                id: *id,
                jsonrpc: jsonrpc@,
                command_line: params.command_line@,
            },
            CommandMessage::SbtSettingQuery { id, jsonrpc, params } => CommandView::SbtSettingQuery {
                id: *id,
                jsonrpc: jsonrpc@,
                setting: params.setting@,
            },
            CommandMessage::Exec { command_line, exec_id } => CommandView::Exec {
                command_line: command_line@,
                exec_id: text_view(*exec_id),
            },
        }
    }
}

impl CommandMessage {
    /// The handshake request with the given id: version `2.0`, no options.
    pub fn initialize(id: u32) -> (command: CommandMessage)
        ensures
            command@ == (CommandView::Initialize {
                id,
                jsonrpc: jsonrpc_version(),
                initialization_options: None,
            }),
    {
        CommandMessage::Initialize {
            id: id,
            jsonrpc: String::from_str("2.0"),
            params: SbtInitParams { initialization_options: None },
        }
    }

    /// The request to run `command_line`, with the given id and version `2.0`.
    pub fn sbt_exec(id: u32, command_line: String) -> (command: CommandMessage)
        ensures
            command@ == (CommandView::SbtExec {
                id,
                jsonrpc: jsonrpc_version(),
                command_line: command_line@,
            }),
    {
        CommandMessage::SbtExec {
            id: id,
            jsonrpc: String::from_str("2.0"),
            params: SbtExecParams { command_line: command_line },
        }
    }

    /// The request for the value of `setting`, with the given id and
    /// version `2.0`.
    pub fn sbt_setting(id: u32, setting: String) -> (command: CommandMessage)
        ensures
            command@ == (CommandView::SbtSettingQuery {
                id,
                jsonrpc: jsonrpc_version(),
                setting: setting@,
            }),
    {
        CommandMessage::SbtSettingQuery {
            id: id,
            jsonrpc: String::from_str("2.0"),
            params: SbtSettingQueryParams { setting: setting },
        }
    }

    /// The flat dialect's request to run `command_line` under the tag
    /// `exec_id`, if one is given.
    pub fn exec(command_line: String, exec_id: Option<String>) -> (command: CommandMessage)
        ensures
            command@ == (CommandView::Exec {
                command_line: command_line@,
                exec_id: text_view(exec_id),
            }),
    {
        CommandMessage::Exec { command_line, exec_id }
    }
}

/// How urgent a log message is.
#[derive(Clone, Copy, Debug, PartialEq, Eq, Structural)]
pub enum MessageType {
    Error,
    Warning,
    Info,
    Log,
}

/// How severe a diagnostic is.
#[derive(Clone, Copy, Debug, PartialEq, Eq, Structural)]
pub enum DiagnosticSeverity {
    Error,
    Warning,
    Information,
    Hint,
}

/// A log line sent by the server.
#[derive(Debug, PartialEq, Eq)]
pub struct LogMessageParams {
    pub typ: MessageType,
    pub message: String,
}

/// One finding about a source file. Line and character count from zero.
#[derive(Debug, PartialEq, Eq)]
pub struct Diagnostic {
    pub severity: Option<DiagnosticSeverity>,
    pub line: u64,
    pub character: u64,
    pub message: String,
}

/// The findings about one source file, named by the path of its URI.
#[derive(Debug, PartialEq, Eq)]
pub struct PublishDiagnosticsParams {
    pub path: String,
    pub diagnostics: Vec<Diagnostic>,
}

/// A notification: something the server says without being asked.
#[derive(Debug, PartialEq, Eq)]
pub enum EventMessage {
    Log(LogMessageParams),
    Diagnostic(PublishDiagnosticsParams),
}

/// The error part of a failed request.
#[derive(Debug, PartialEq, Eq)]
pub struct RpcErrorResult {
    pub code: i32,
    pub message: String,
}

/// The server's answer to a request that failed.
#[derive(Debug, PartialEq, Eq)]
pub struct RpcError {
    pub id: String,
    pub error: RpcErrorResult,
}

/// The result part of an answered request.
#[derive(Debug, PartialEq, Eq)]
pub enum RpcAnswerResult {
    /// The value of a setting.
    Setting { value: String, content_type: String },
    /// The server's capabilities, of which the client reads nothing.
    Init,
}

/// The server's answer to a request that succeeded.
#[derive(Debug, PartialEq, Eq)]
pub struct RpcAnswer {
    pub id: String,
    pub result: RpcAnswerResult,
}

/// Anything the server may send.
#[derive(Debug, PartialEq, Eq)]
pub enum RpcInput {
    Notification(EventMessage),
    CallResult(RpcAnswer),
    Error(RpcError),
}

/// The tag under which a log message of the given type is shown.
pub open spec fn log_label(typ: MessageType) -> Seq<char> {
    match typ {
        MessageType::Error => "error"@,
        MessageType::Info => "info"@,
        MessageType::Log => "info"@,
        MessageType::Warning => "warn"@,
    }
}

/// The tag under which a diagnostic of the given severity is shown.
pub open spec fn severity_label(severity: Option<DiagnosticSeverity>) -> Seq<char> {
    match severity {
        Some(DiagnosticSeverity::Warning) => "warn"@,
        Some(DiagnosticSeverity::Error) => "error"@,
        _ => "info"@,
    }
}

/// A tagged line: `[tag] text`.
pub open spec fn tagged(tag: Seq<char>, text: Seq<char>) -> Seq<char> {
    "["@ + tag + "] "@ + text
}

/// Where a diagnostic points and what it says:
/// `path:line:column: message`, line and column counted from one.
pub open spec fn located(path: Seq<char>, d: Diagnostic) -> Seq<char> {
    path + ":"@ + decimal_text((d.line + 1) as nat) + ":"@ + decimal_text(
        (d.character + 1) as nat,
    ) + ": "@ + d.message@
}

/// The lines for the first `n` diagnostics of a file, one line each.
pub open spec fn diagnostic_lines(path: Seq<char>, ds: Seq<Diagnostic>, n: nat) -> Seq<char>
    decreases n,
{
    if n == 0 || n > ds.len() {
        Seq::<char>::empty()
    } else {
        let d = ds[n - 1];
        diagnostic_lines(path, ds, (n - 1) as nat) + tagged(
            severity_label(d.severity),
            located(path, d),
        ) + "\n"@
    }
}

/// The text of the shortest decimal numeral for `n`.
pub fn decimal_string(n: u128) -> (text: String)
    ensures
        text@ == decimal_text(n as nat),
{
    let digits = format_decimal(n);
    proof {
        lemma_decimal_digits(n as nat);
        assert(is_ascii_bytes(digits@)) by {
            assert forall|i: int| 0 <= i < digits@.len() implies #[trigger] digits@[i] < 128 by {
                assert(is_digit(digits@[i]));
            }
        }
    }
    ascii_text(digits.as_slice())
}

/// `[tag] text`.
pub fn tagged_line(tag: &str, text: &str) -> (line: String)
    ensures
        line@ == tagged(tag@, text@),
{
    let mut line = String::from_str("[");
    line.append(tag);
    line.append("] ");
    line.append(text);
    line
}

impl MessageType {
    /// The tag under which a message of this type is shown.
    pub fn label(&self) -> (tag: &'static str)
        ensures
            tag@ == log_label(*self),
    {
        match self {
            MessageType::Error => "error",
            MessageType::Info => "info",
            MessageType::Log => "info",
            MessageType::Warning => "warn",
        }
    }
}

impl Diagnostic {
    /// The tag under which this diagnostic is shown.
    pub fn label(&self) -> (tag: &'static str)
        ensures
            tag@ == severity_label(self.severity),
    {
        match self.severity {
            Some(DiagnosticSeverity::Warning) => "warn",
            Some(DiagnosticSeverity::Error) => "error",
            _ => "info",
        }
    }

    /// `path:line:column: message` for this diagnostic in the file at
    /// `path`, line and column counted from one.
    pub fn locate(&self, path: &str) -> (text: String)
        ensures
            text@ == located(path@, *self),
    {
        let mut text = String::from_str(path);
        text.append(":");
        text.append(decimal_string(self.line as u128 + 1).as_str());
        text.append(":");
        text.append(decimal_string(self.character as u128 + 1).as_str());
        text.append(": ");
        text.append(self.message.as_str());
        text
    }
}

impl EventMessage {
    /// How the notification reads: a log message as `[tag] message`; the
    /// diagnostics of a file as one line each,
    /// `[tag] path:line:column: message`, every line closed by a line feed.
    pub open spec fn rendering(&self) -> Seq<char> {
        match self {
            EventMessage::Log(log) => tagged(log_label(log.typ), log.message@),
            EventMessage::Diagnostic(report) => diagnostic_lines(
                report.path@,
                report.diagnostics@,
                report.diagnostics@.len(),
            ),
        }
    }

    /// The notification as text for a terminal.
    pub fn render(&self) -> (text: String)
        ensures
            text@ == self.rendering(),
    {
        match self {
            EventMessage::Log(log) => tagged_line(log.typ.label(), log.message.as_str()),
            EventMessage::Diagnostic(report) => {
                let mut text = String::new();
                let mut i: usize = 0;
                while i < report.diagnostics.len()
                    invariant
                        i <= report.diagnostics@.len(),
                        text@ == diagnostic_lines(report.path@, report.diagnostics@, i as nat),
                    decreases report.diagnostics.len() - i,
                {
                    let d = &report.diagnostics[i];
                    let located = d.locate(report.path.as_str());
                    text.append(tagged_line(d.label(), located.as_str()).as_str());
                    text.append("\n");
                    i += 1;
                }
                text
            },
        }
    }
}

impl RpcError {
    /// How the failure reads: `[error] ` and the server's message.
    pub open spec fn rendering(&self) -> Seq<char> {
        tagged("error"@, self.error.message@)
    }

    /// The failure as text for a terminal.
    pub fn render(&self) -> (text: String)
        ensures
            text@ == self.rendering(),
    {
        tagged_line("error", self.error.message.as_str())
    }
}

impl RpcAnswer {
    /// How the answer reads: the value of a setting as `[info] value` and a
    /// line feed; the server's capabilities as nothing.
    pub open spec fn rendering(&self) -> Seq<char> {
        match self.result {
            RpcAnswerResult::Init => Seq::<char>::empty(),
            RpcAnswerResult::Setting { value, .. } => tagged("info"@, value@) + "\n"@,
        }
    }

    /// The answer as text for a terminal.
    pub fn render(&self) -> (text: String)
        ensures
            text@ == self.rendering(),
    {
        match &self.result {
            RpcAnswerResult::Init => String::new(),
            RpcAnswerResult::Setting { value, .. } => {
                let mut text = tagged_line("info", value.as_str());
                text.append("\n");
                text
            },
        }
    }
}

impl RpcInput {
    /// How the message reads: as the notification, answer or failure that
    /// it holds.
    pub open spec fn rendering(&self) -> Seq<char> {
        match self {
            RpcInput::Notification(event) => event.rendering(),
            RpcInput::CallResult(answer) => answer.rendering(),
            RpcInput::Error(error) => error.rendering(),
        }
    }

    /// The message as text for a terminal.
    pub fn render(&self) -> (text: String)
        ensures
            text@ == self.rendering(),
    {
        match self {
            RpcInput::Notification(event) => event.render(),
            RpcInput::CallResult(answer) => answer.render(),
            RpcInput::Error(error) => error.render(),
        }
    }
}

} // verus!
