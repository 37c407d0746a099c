//! How a Python target is launched under a tracing bootstrap and how its
//! trace records, its output lines, its exit and the controls asked of it
//! become events. The interpreter itself is run by the caller.
use vstd::prelude::*;
use crate::model::{
    AdapterEmission, ArtifactAccess, ArtifactBinding, ArtifactEncoding, EventKind, EventPayload,
    PendingArtifact, PendingEvent, ReplayMode, TargetDescriptor, TargetId,
};
use crate::process::{
    OutputStream, ProcessProfile, ProcessState, alias_taken, grew_by_one, push_pair, stream_name,
};
use crate::text::{decimal, owned, push_decimal, push_str, starts_with, strip_prefix, string_bytes};

verus! {

/// The prefix of a trace record on the interpreter's standard output.
pub const TRACE_PREFIX: &'static str = "__SWATPY__";

/// The JSON text of a trace record on `line`: what follows the trace
/// prefix, when the line starts with it.
pub fn trace_payload<'a>(line: &'a str) -> (r: Option<&'a str>)
    ensures
        match r {
            Some(rest) => starts_with(line@, TRACE_PREFIX@) && rest@ == line@.subrange(
                TRACE_PREFIX@.len() as int,
                line@.len() as int,
            ),
            None => !starts_with(line@, TRACE_PREFIX@),
        },
{
    strip_prefix(line, TRACE_PREFIX)
}

/// What the interpreter runs: inline code or a script file.
#[derive(Clone, Debug, PartialEq, Eq)]
pub enum PythonEntry {
    InlineCode(String),
    ScriptPath(String),
}

/// What to launch: the interpreter, the entry, the arguments, the working
/// directory and the extra environment entries, in order.
#[derive(Clone, Debug, PartialEq, Eq)]
pub struct PythonAdapterSpec {
    pub python_binary: String,
    pub entry: PythonEntry,
    pub args: Vec<String>,
    pub cwd: Option<String>,
    pub env: Vec<(String, String)>,
}

/// The name of a Python target: `python:inline` for inline code, else
/// `python:` and the script path.
pub open spec fn python_target_name(entry: PythonEntry) -> Seq<char> {
    match entry {
        PythonEntry::InlineCode(_) => "python:inline"@,
        PythonEntry::ScriptPath(path) => "python:"@ + path@,
    }
}

impl PythonAdapterSpec {
    /// A launch of `python3` on inline `code`.
    pub fn inline(code: String) -> (r: Self)
        ensures
            r.python_binary@ == "python3"@,
            r.entry == PythonEntry::InlineCode(code),
            r.args@.len() == 0,
            r.cwd is None,
            r.env@.len() == 0,
    {
        PythonAdapterSpec {
            python_binary: owned("python3"),
            entry: PythonEntry::InlineCode(code),
            args: Vec::new(),
            cwd: None,
            env: Vec::new(),
        }
    }

    /// A launch of `python3` on the script at `path`.
    pub fn script(path: String) -> (r: Self)
        ensures
            r.python_binary@ == "python3"@,
            r.entry == PythonEntry::ScriptPath(path),
            r.args@.len() == 0,
            r.cwd is None,
            r.env@.len() == 0,
    {
        PythonAdapterSpec {
            python_binary: owned("python3"),
            entry: PythonEntry::ScriptPath(path),
            args: Vec::new(),
            cwd: None,
            env: Vec::new(),
        }
    }

    /// The same launch with its arguments replaced by `args`.
    pub fn with_args(self, args: Vec<String>) -> (r: Self)
        ensures
            r == (PythonAdapterSpec { args, ..self }),
    {
        PythonAdapterSpec { args, ..self }
    }

    /// The same launch run in `cwd`.
    pub fn with_cwd(self, cwd: String) -> (r: Self)
        ensures
            r == (PythonAdapterSpec { cwd: Some(cwd), ..self }),
    {
        PythonAdapterSpec { cwd: Some(cwd), ..self }
    }

    /// The same launch with one more environment entry at the end.
    pub fn with_env(self, key: String, value: String) -> (r: Self)
        ensures
            r.python_binary == self.python_binary,
            r.entry == self.entry,
            r.args == self.args,
            r.cwd == self.cwd,
            r.env@ == self.env@.push((key, value)),
    {
        let mut s = self;
        s.env.push((key, value));
        s
    }

    /// The name of the target this launch makes.
    pub fn target_name(&self) -> (r: String)
        ensures
            r@ == python_target_name(self.entry),
    {
        match &self.entry {
            PythonEntry::InlineCode(_) => owned("python:inline"),
            PythonEntry::ScriptPath(path) => {
                let mut s = owned("python:");
                push_str(&mut s, path.as_str());
                s
            },
        }
    }
}

/// The wording of the Python adapter.
pub fn python_profile() -> (r: ProcessProfile)
    ensures
        r.label@ == "python runtime"@,
        r.not_attached@ == "python adapter is not attached"@,
        r.already_attached@ == "python adapter already attached"@,
        r.already_exited@ == "python runtime already exited"@,
        r.paused@ == "python runtime paused"@,
        r.resumed@ == "python runtime resumed"@,
        r.step_refused@ == "python step is not supported yet"@,
        r.snapshot_refused@ == "python snapshots are not supported yet"@,
        r.replay_refused@ == "python adapter does not support replay boundary injection"@,
{
    ProcessProfile {
        label: owned("python runtime"),
        not_attached: owned("python adapter is not attached"),
        already_attached: owned("python adapter already attached"),
        already_exited: owned("python runtime already exited"),
        paused: owned("python runtime paused"),
        resumed: owned("python runtime resumed"),
        step_refused: owned("python step is not supported yet"),
        snapshot_refused: owned("python snapshots are not supported yet"),
        replay_refused: owned("python adapter does not support replay boundary injection"),
    }
}

/// The descriptor of a Python target.
pub fn python_descriptor(spec: &PythonAdapterSpec, target_id: TargetId) -> (r: TargetDescriptor)
    ensures
        r.target_id == target_id,
        r.adapter_name@ == "swat-adapter-python"@,
        r.target_name@ == python_target_name(spec.entry),
        r.runtime@ == "python-runtime"@,
        r.replay_mode == ReplayMode::Live,
{
    TargetDescriptor {
        target_id,
        adapter_name: owned("swat-adapter-python"),
        target_name: spec.target_name(),
        runtime: owned("python-runtime"),
        replay_mode: ReplayMode::Live,
    }
}

/// One record of the tracing bootstrap.
#[derive(Clone, Debug, PartialEq, Eq)]
pub struct PythonTraceRecord {
    pub kind: String,
    pub function: Option<String>,
    pub file: Option<String>,
    pub line: Option<u64>,
    pub return_type: Option<String>,
    pub exception_type: Option<String>,
    pub message: Option<String>,
}

/// `o`'s text, or `default` when there is none.
pub open spec fn text_or(o: Option<String>, default: Seq<char>) -> Seq<char> {
    match o {
        Some(s) => s@,
        None => default,
    }
}

/// The summary of a trace record: calls, returns and exceptions in their
/// own words, other kinds by name; a missing function or file reads
/// `<unknown>` and a missing line reads 0.
pub open spec fn trace_summary(r: PythonTraceRecord) -> Seq<char> {
    let function = text_or(r.function, "<unknown>"@);
    let place = " at "@ + text_or(r.file, "<unknown>"@) + ":"@ + decimal(
        match r.line {
            Some(n) => n as nat,
            None => 0,
        },
    );
    if r.kind@ == "call"@ {
        "python call "@ + function + place
    } else if r.kind@ == "return"@ {
        "python return "@ + function + place
    } else if r.kind@ == "exception"@ {
        "python exception in "@ + function + place
    } else {
        "python trace "@ + r.kind@ + " "@ + function + place
    }
}

fn push_text_or(s: &mut String, o: &Option<String>, default: &str)
    ensures
        final(s)@ == old(s)@ + text_or(*o, default@),
{
    match o {
        Some(t) => push_str(s, t.as_str()),
        None => push_str(s, default),
    }
}

/// The summary of a trace record, as `trace_summary` says.
pub fn python_trace_summary(record: &PythonTraceRecord) -> (r: String)
    ensures
        r@ == trace_summary(*record),
{
    let mut s = String::new();
    if crate::text::str_eq(record.kind.as_str(), "call") {
        push_str(&mut s, "python call ");
    } else if crate::text::str_eq(record.kind.as_str(), "return") {
        push_str(&mut s, "python return ");
    } else if crate::text::str_eq(record.kind.as_str(), "exception") {
        push_str(&mut s, "python exception in ");
    } else {
        push_str(&mut s, "python trace ");
        push_str(&mut s, record.kind.as_str());
        push_str(&mut s, " ");
    }
    push_text_or(&mut s, &record.function, "<unknown>");
    push_str(&mut s, " at ");
    push_text_or(&mut s, &record.file, "<unknown>");
    push_str(&mut s, ":");
    let line: u64 = match record.line {
        Some(n) => n,
        None => 0,
    };
    push_decimal(&mut s, line);
    proof {
        assert(s@ =~= trace_summary(*record));
    }
    s
}

/// The summary of a captured output line.
pub open spec fn python_line_summary(stream: OutputStream) -> Seq<char> {
    "captured python "@ + stream_name(stream) + " line"@
}

/// Records one trace record: its JSON rendering `json` becomes a lazily
/// read JSON artifact under the next alias, and an execution event with the
/// record's summary refers to it.
pub fn record_trace(state: &mut ProcessState, record: &PythonTraceRecord, json: Vec<u8>, emission: &mut AdapterEmission)
    requires
        old(state)@.next_alias < u64::MAX,
    ensures
        alias_taken(*old(state), *final(state)),
        grew_by_one(*old(emission), *final(emission)),
        ({
            let a = final(emission).pending_artifacts@.last();
            let e = final(emission).pending_events@.last();
            &&& a.alias.0 == old(state)@.next_alias
            &&& a.media_type@ == "application/json"@
            &&& a.encoding == ArtifactEncoding::Json
            &&& a.access == ArtifactAccess::Lazy
            &&& a.bytes@ == json@
            &&& e.kind == EventKind::Execution
            &&& e.payload matches EventPayload::Value { value_key, summary }
                && value_key@ == "python.trace"@ && summary@ == trace_summary(*record)
            &&& e.artifacts@ == seq![ArtifactBinding::Pending(a.alias)]
        }),
{
    let alias = state.take_alias();
    let summary = python_trace_summary(record);
    let event = PendingEvent::new(
        EventKind::Execution,
        EventPayload::Value { value_key: owned("python.trace"), summary },
    ).with_artifact(ArtifactBinding::Pending(alias));
    emission.pending_artifacts.push(
        PendingArtifact {
            alias,
            media_type: owned("application/json"),
            encoding: ArtifactEncoding::Json,
            access: ArtifactAccess::Lazy,
            bytes: json,
        },
    );
    emission.pending_events.push(event);
    proof {
        assert(final(emission).pending_artifacts@.drop_last() =~= old(emission).pending_artifacts@);
        assert(final(emission).pending_events@.drop_last() =~= old(emission).pending_events@);
    }
}

/// Records one line of plain output from `stream`: the line becomes a
/// lazily read UTF-8 artifact under the next alias, and a value event keyed
/// `python.<stream>` refers to it.
pub fn record_python_line(state: &mut ProcessState, stream: OutputStream, text: String, emission: &mut AdapterEmission)
    requires
        old(state)@.next_alias < u64::MAX,
    ensures
        alias_taken(*old(state), *final(state)),
        grew_by_one(*old(emission), *final(emission)),
        ({
            let a = final(emission).pending_artifacts@.last();
            let e = final(emission).pending_events@.last();
            &&& a.alias.0 == old(state)@.next_alias
            &&& a.media_type@ == "text/plain"@
            &&& a.encoding == ArtifactEncoding::Utf8
            &&& a.access == ArtifactAccess::Lazy
            &&& a.bytes@ == vstd::utf8::encode_utf8(text@)
            &&& e.kind == EventKind::ValueObserved
            &&& e.payload matches EventPayload::Value { value_key, summary }
                && value_key@ == "python."@ + stream_name(stream) && summary@ == python_line_summary(stream)
            &&& e.artifacts@ == seq![ArtifactBinding::Pending(a.alias)]
        }),
{
    let alias = state.take_alias();
    let mut summary = owned("captured python ");
    push_str(&mut summary, stream.name());
    push_str(&mut summary, " line");
    let mut value_key = owned("python.");
    push_str(&mut value_key, stream.name());
    let event = PendingEvent::new(
        EventKind::ValueObserved,
        EventPayload::Value { value_key, summary },
    ).with_artifact(ArtifactBinding::Pending(alias));
    emission.pending_artifacts.push(
        PendingArtifact {
            alias,
            media_type: owned("text/plain"),
            encoding: ArtifactEncoding::Utf8,
            access: ArtifactAccess::Lazy,
            bytes: string_bytes(&text),
        },
    );
    emission.pending_events.push(event);
    proof {
        assert(final(emission).pending_artifacts@.drop_last() =~= old(emission).pending_artifacts@);
        assert(final(emission).pending_events@.drop_last() =~= old(emission).pending_events@);
    }
}

} // verus!
