//! The line protocol of instrumented agents: each event is a line made of
//! a prefix and a JSON record, in a versioned format.
use vstd::prelude::*;
use crate::text::{owned, push_str, starts_with, str_eq, strip_prefix};

verus! {

/// The prefix that marks an agent event line.
pub const DEFAULT_TRACE_PREFIX: &'static str = "__SWATAGENT__";

/// The agent protocol version that this side speaks.
pub const CURRENT_AGENT_PROTOCOL_VERSION: &'static str = "0.1.0-alpha";

/// Why an agent line was refused.
#[derive(Clone, Debug, PartialEq, Eq)]
pub enum AgentProtocolError {
    UnsupportedVersion { found: String, expected: String },
    Json(String),
}

impl AgentProtocolError {
    /// The text of the error, as `Display` would print it.
    pub fn message(&self) -> (r: String)
        ensures
            r@ == match self {
                AgentProtocolError::UnsupportedVersion { found, expected } =>
                    "unsupported agent protocol version "@ + found@ + "; expected "@ + expected@,
                AgentProtocolError::Json(m) => m@,
            },
    {
        match self {
            AgentProtocolError::UnsupportedVersion { found, expected } => {
                let mut m = String::new();
                push_str(&mut m, "unsupported agent protocol version ");
                push_str(&mut m, found.as_str());
                push_str(&mut m, "; expected ");
                push_str(&mut m, expected.as_str());
                m
            },
            AgentProtocolError::Json(m) => owned(m.as_str()),
        }
    }
}

/// The kind of an agent event.
#[derive(Clone, Copy, Debug, PartialEq, Eq, Structural)]
pub enum AgentEventKind {
    Planner,
    Model,
    Tool,
    State,
    Policy,
    Source,
    Schema,
    Lifecycle,
    Log,
}

/// The wire name of a kind.
pub open spec fn kind_text(k: AgentEventKind) -> Seq<char> {
    match k {
        AgentEventKind::Planner => "planner"@,
        AgentEventKind::Model => "model"@,
        AgentEventKind::Tool => "tool"@,
        AgentEventKind::State => "state"@,
        AgentEventKind::Policy => "policy"@,
        AgentEventKind::Source => "source"@,
        AgentEventKind::Schema => "schema"@,
        AgentEventKind::Lifecycle => "lifecycle"@,
        AgentEventKind::Log => "log"@,
    }
}

impl AgentEventKind {
    /// The name of the kind on the wire.
    pub fn name(self) -> (r: &'static str)
        ensures
            r@ == kind_text(self),
    {
        match self {
            AgentEventKind::Planner => "planner",
            AgentEventKind::Model => "model",
            AgentEventKind::Tool => "tool",
            AgentEventKind::State => "state",
            AgentEventKind::Policy => "policy",
            AgentEventKind::Source => "source",
            AgentEventKind::Schema => "schema",
            AgentEventKind::Lifecycle => "lifecycle",
            AgentEventKind::Log => "log",
        }
    }
}

/// Accepts a record only in the current agent protocol version.
pub fn validate_protocol_version(version: &str) -> (r: Result<(), AgentProtocolError>)
    ensures
        version@ == CURRENT_AGENT_PROTOCOL_VERSION@ ==> r is Ok,
        version@ != CURRENT_AGENT_PROTOCOL_VERSION@ ==> r == Err::<(), AgentProtocolError>(
            AgentProtocolError::UnsupportedVersion {
                found: r->Err_0->found,
                expected: r->Err_0->expected,
            },
        ) && r->Err_0->found@ == version@ && r->Err_0->expected@ == CURRENT_AGENT_PROTOCOL_VERSION@,
{
    if str_eq(version, CURRENT_AGENT_PROTOCOL_VERSION) {
        Ok(())
    } else {
        Err(
            AgentProtocolError::UnsupportedVersion {
                found: owned(version),
                expected: owned(CURRENT_AGENT_PROTOCOL_VERSION),
            },
        )
    }
}

/// Whether an event phase ends what it belongs to.
pub open spec fn terminal_phase(phase: Seq<char>) -> bool {
    phase == "end"@ || phase == "finish"@ || phase == "done"@ || phase == "response"@ || phase
        == "error"@
}

/// Whether `phase` is a phase that ends what it belongs to.
pub fn is_terminal_phase(phase: Option<&str>) -> (r: bool)
    ensures
        r == match phase {
            Some(p) => terminal_phase(p@),
            None => false,
        },
{
    match phase {
        Some(p) => str_eq(p, "end") || str_eq(p, "finish") || str_eq(p, "done") || str_eq(
            p,
            "response",
        ) || str_eq(p, "error"),
        None => false,
    }
}

/// The line that carries the JSON text `json`: the prefix, then the JSON.
pub fn prefixed_line(prefix: &str, json: &str) -> (r: String)
    ensures
        r@ == prefix@ + json@,
{
    let mut line = String::new();
    push_str(&mut line, prefix);
    push_str(&mut line, json);
    line
}

/// The JSON text of an agent line, or `None` where the line does not
/// start with `prefix` and so is no agent event.
pub fn prefixed_payload<'a>(line: &'a str, prefix: &str) -> (r: Option<&'a str>)
    ensures
        match r {
            Some(p) => starts_with(line@, prefix@) && p@ == line@.subrange(
                prefix@.len() as int,
                line@.len() as int,
            ),
            None => !starts_with(line@, prefix@),
        },
{
    strip_prefix(line, prefix)
}

/// Taking the payload of a line made from a prefix and a JSON text gives
/// that JSON text back.
pub proof fn law_payload_of_prefixed_line(prefix: Seq<char>, json: Seq<char>)
    ensures
        starts_with(prefix + json, prefix),
        (prefix + json).subrange(prefix.len() as int, (prefix + json).len() as int) == json,
{
    assert((prefix + json).subrange(0, prefix.len() as int) =~= prefix);
    assert((prefix + json).subrange(prefix.len() as int, (prefix + json).len() as int) =~= json);
}

/// The text of an optional string.
pub open spec fn opt_text(o: Option<String>) -> Option<Seq<char>> {
    match o {
        Some(s) => Some(s@),
        None => None,
    }
}

/// The text of an optional string slice.
pub open spec fn opt_str(o: Option<&str>) -> Option<Seq<char>> {
    match o {
        Some(s) => Some(s@),
        None => None,
    }
}

fn opt_as_str(o: &Option<String>) -> (r: Option<&str>)
    ensures
        opt_str(r) == opt_text(*o),
{
    match o {
        Some(s) => Some(s.as_str()),
        None => None,
    }
}

/// One agent event as the protocol carries it. Free-form attributes travel
/// with the JSON text of the record and are not read here.
#[derive(Clone, Debug, PartialEq, Eq)]
pub struct AgentEventRecord {
    pub protocol_version: String,
    pub kind: AgentEventKind,
    pub phase: Option<String>,
    pub name: Option<String>,
    pub summary: Option<String>,
    pub status: Option<String>,
    pub verdict: Option<String>,
    pub span_id: Option<String>,
    pub correlation_id: Option<String>,
    pub determinism: Option<String>,
    pub file: Option<String>,
    pub line: Option<u64>,
    pub function: Option<String>,
}

/// A record of `kind` in the current version with nothing else set.
pub open spec fn bare_record(r: AgentEventRecord, kind: AgentEventKind) -> bool {
    &&& r.protocol_version@ == CURRENT_AGENT_PROTOCOL_VERSION@
    &&& r.kind == kind
    &&& r.phase is None && r.name is None && r.summary is None && r.status is None
    &&& r.verdict is None && r.span_id is None && r.correlation_id is None
    &&& r.determinism is None && r.file is None && r.line is None && r.function is None
}

impl Default for AgentEventRecord {
    /// A log record in the current version with nothing else set.
    fn default() -> (r: Self)
        ensures
            bare_record(r, AgentEventKind::Log),
    {
        AgentEventRecord::new(AgentEventKind::Log)
    }
}

impl AgentEventRecord {
    /// A record of `kind` in the current version with nothing else set.
    pub fn new(kind: AgentEventKind) -> (r: Self)
        ensures
            bare_record(r, kind),
    {
        AgentEventRecord {
            protocol_version: owned(CURRENT_AGENT_PROTOCOL_VERSION),
            kind,
            phase: None,
            name: None,
            summary: None,
            status: None,
            verdict: None,
            span_id: None,
            correlation_id: None,
            determinism: None,
            file: None,
            line: None,
            function: None,
        }
    }

    /// A planner record named `name`.
    pub fn planner(name: String) -> (r: Self)
        ensures
            bare_record(AgentEventRecord { name: None, ..r }, AgentEventKind::Planner),
            r.name == Some(name),
    {
        AgentEventRecord::new(AgentEventKind::Planner).with_name(name)
    }

    /// A model record named `name`.
    pub fn model(name: String) -> (r: Self)
        ensures
            bare_record(AgentEventRecord { name: None, ..r }, AgentEventKind::Model),
            r.name == Some(name),
    {
        AgentEventRecord::new(AgentEventKind::Model).with_name(name)
    }

    /// A tool record named `name`.
    pub fn tool(name: String) -> (r: Self)
        ensures
            bare_record(AgentEventRecord { name: None, ..r }, AgentEventKind::Tool),
            r.name == Some(name),
    {
        AgentEventRecord::new(AgentEventKind::Tool).with_name(name)
    }

    /// A state record named `name`.
    pub fn state(name: String) -> (r: Self)
        ensures
            bare_record(AgentEventRecord { name: None, ..r }, AgentEventKind::State),
            r.name == Some(name),
    {
        AgentEventRecord::new(AgentEventKind::State).with_name(name)
    }

    /// A policy record named `name`.
    pub fn policy(name: String) -> (r: Self)
        ensures
            bare_record(AgentEventRecord { name: None, ..r }, AgentEventKind::Policy),
            r.name == Some(name),
    {
        AgentEventRecord::new(AgentEventKind::Policy).with_name(name)
    }

    pub fn with_phase(self, phase: String) -> (r: Self)
        ensures
            r == (AgentEventRecord { phase: Some(phase), ..self }),
    {
        AgentEventRecord { phase: Some(phase), ..self }
    }

    pub fn with_protocol_version(self, protocol_version: String) -> (r: Self)
        ensures
            r == (AgentEventRecord { protocol_version, ..self }),
    {
        AgentEventRecord { protocol_version, ..self }
    }

    pub fn with_name(self, name: String) -> (r: Self)
        ensures
            r == (AgentEventRecord { name: Some(name), ..self }),
    {
        AgentEventRecord { name: Some(name), ..self }
    }

    pub fn with_summary(self, summary: String) -> (r: Self)
        ensures
            r == (AgentEventRecord { summary: Some(summary), ..self }),
    {
        AgentEventRecord { summary: Some(summary), ..self }
    }

    pub fn with_status(self, status: String) -> (r: Self)
        ensures
            r == (AgentEventRecord { status: Some(status), ..self }),
    {
        AgentEventRecord { status: Some(status), ..self }
    }

    pub fn with_verdict(self, verdict: String) -> (r: Self)
        ensures
            r == (AgentEventRecord { verdict: Some(verdict), ..self }),
    {
        AgentEventRecord { verdict: Some(verdict), ..self }
    }

    pub fn with_span_id(self, span_id: String) -> (r: Self)
        ensures
            r == (AgentEventRecord { span_id: Some(span_id), ..self }),
    {
        AgentEventRecord { span_id: Some(span_id), ..self }
    }

    pub fn with_correlation_id(self, correlation_id: String) -> (r: Self)
        ensures
            r == (AgentEventRecord { correlation_id: Some(correlation_id), ..self }),
    {
        AgentEventRecord { correlation_id: Some(correlation_id), ..self }
    }

    pub fn with_determinism(self, determinism: String) -> (r: Self)
        ensures
            r == (AgentEventRecord { determinism: Some(determinism), ..self }),
    {
        AgentEventRecord { determinism: Some(determinism), ..self }
    }

    /// The same record placed at `line` of `function` in `file`.
    pub fn with_source(self, file: String, line: u64, function: String) -> (r: Self)
        ensures
            r == (AgentEventRecord {
                file: Some(file),
                line: Some(line),
                function: Some(function),
                ..self
            }),
    {
        AgentEventRecord { file: Some(file), line: Some(line), function: Some(function), ..self }
    }

    /// The wire name of the record's kind.
    pub fn kind_name(&self) -> (r: &'static str)
        ensures
            r@ == kind_text(self.kind),
    {
        self.kind.name()
    }

    pub fn phase(&self) -> (r: Option<&str>)
        ensures
            opt_str(r) == opt_text(self.phase),
    {
        opt_as_str(&self.phase)
    }

    pub fn protocol_version(&self) -> (r: &str)
        ensures
            r@ == self.protocol_version@,
    {
        self.protocol_version.as_str()
    }

    pub fn name(&self) -> (r: Option<&str>)
        ensures
            opt_str(r) == opt_text(self.name),
    {
        opt_as_str(&self.name)
    }

    pub fn summary(&self) -> (r: Option<&str>)
        ensures
            opt_str(r) == opt_text(self.summary),
    {
        opt_as_str(&self.summary)
    }

    pub fn status(&self) -> (r: Option<&str>)
        ensures
            opt_str(r) == opt_text(self.status),
    {
        opt_as_str(&self.status)
    }

    pub fn verdict(&self) -> (r: Option<&str>)
        ensures
            opt_str(r) == opt_text(self.verdict),
    {
        opt_as_str(&self.verdict)
    }

    pub fn span_id(&self) -> (r: Option<&str>)
        ensures
            opt_str(r) == opt_text(self.span_id),
    {
        opt_as_str(&self.span_id)
    }

    pub fn correlation_id(&self) -> (r: Option<&str>)
        ensures
            opt_str(r) == opt_text(self.correlation_id),
    {
        opt_as_str(&self.correlation_id)
    }

    pub fn determinism(&self) -> (r: Option<&str>)
        ensures
            opt_str(r) == opt_text(self.determinism),
    {
        opt_as_str(&self.determinism)
    }

    /// Whether the record's phase ends what it belongs to.
    pub fn is_terminal_phase(&self) -> (r: bool)
        ensures
            r == (self.phase matches Some(p) && terminal_phase(p@)),
    {
        is_terminal_phase(self.phase())
    }

    /// Accepts the record only in the current protocol version.
    pub fn validate(&self) -> (r: Result<(), AgentProtocolError>)
        ensures
            r is Ok <==> self.protocol_version@ == CURRENT_AGENT_PROTOCOL_VERSION@,
            r matches Err(e) ==> e == (AgentProtocolError::UnsupportedVersion {
                found: e->found,
                expected: e->expected,
            }) && e->found@ == self.protocol_version@ && e->expected@
                == CURRENT_AGENT_PROTOCOL_VERSION@,
    {
        validate_protocol_version(self.protocol_version())
    }
}

/// Writes agent event lines, each behind a prefix, to a writer.
pub struct LineEmitter<W> {
    writer: W,
    prefix: String,
}

impl<W> LineEmitter<W> {
    /// An emitter with the default prefix.
    pub fn new(writer: W) -> (r: Self)
        ensures
            r.prefix_spec() == DEFAULT_TRACE_PREFIX@,
            r.writer_spec() == writer,
    {
        Self::with_prefix(writer, owned(DEFAULT_TRACE_PREFIX))
    }

    /// An emitter with the prefix `prefix`.
    pub fn with_prefix(writer: W, prefix: String) -> (r: Self)
        ensures
            r.prefix_spec() == prefix@,
            r.writer_spec() == writer,
    {
        LineEmitter { writer, prefix }
    }

    pub closed spec fn writer_spec(&self) -> W {
        self.writer
    }

    pub closed spec fn prefix_spec(&self) -> Seq<char> {
        self.prefix@
    }

    /// The prefix of the lines.
    pub fn prefix(&self) -> (r: &str)
        ensures
            r@ == self.prefix_spec(),
    {
        self.prefix.as_str()
    }

    /// The writer back.
    pub fn into_inner(self) -> (r: W)
        ensures
            r == self.writer_spec(),
    {
        self.writer
    }
}

} // verus!
