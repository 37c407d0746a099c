//! How a local process target is launched and how its output, its exit and
//! the controls asked of it become events. The process itself is run by the
//! caller, which hands each outcome back as plain values.
use vstd::prelude::*;
use crate::model::{
    AdapterEmission, ArtifactAccess, ArtifactBinding, ArtifactEncoding, EventKind, EventPayload,
    PendingArtifact, PendingEvent, ReplayMode, TargetDescriptor, TargetId,
};
use crate::process::{OutputStream, ProcessProfile, ProcessState, stream_name};
use crate::text::{
    decimal, is_utf8, join, joined, owned, push_decimal, push_str, utf8_valid, views,
};

verus! {

/// What to launch: a program, its arguments, its working directory and the
/// extra environment entries, in order.
#[derive(Clone, Debug, PartialEq, Eq)]
pub struct LocalProcessSpec {
    pub program: String,
    pub args: Vec<String>,
    pub cwd: Option<String>,
    pub env: Vec<(String, String)>,
}

/// The one-line rendering of a command: the program alone, or the program,
/// a space and the arguments separated by spaces.
pub open spec fn command_line(program: Seq<char>, args: Seq<Seq<char>>) -> Seq<char> {
    if args.len() == 0 {
        program
    } else {
        program + " "@ + join(args, " "@)
    }
}

/// Renders `program` with `args` as `command_line` says.
pub fn render_command_line(program: &String, args: &Vec<String>) -> (r: String)
    ensures
        r@ == command_line(program@, views(args@)),
{
    if args.len() == 0 {
        program.clone()
    } else {
        let mut s = program.clone();
        push_str(&mut s, " ");
        let rest = joined(args, " ");
        push_str(&mut s, rest.as_str());
        s
    }
}

impl LocalProcessSpec {
    /// A launch of `program` with no arguments, no working directory and no
    /// extra environment.
    pub fn new(program: String) -> (r: Self)
        ensures
            r.program == program,
            r.args@.len() == 0,
            r.cwd is None,
            r.env@.len() == 0,
    {
        LocalProcessSpec { program, args: Vec::new(), cwd: None, env: Vec::new() }
    }

    /// The same launch with its arguments replaced by `args`.
    pub fn with_args(self, args: Vec<String>) -> (r: Self)
        ensures
            r == (LocalProcessSpec { args, ..self }),
    {
        LocalProcessSpec { args, ..self }
    }

    /// The same launch run in `cwd`.
    pub fn with_cwd(self, cwd: String) -> (r: Self)
        ensures
            r == (LocalProcessSpec { cwd: Some(cwd), ..self }),
    {
        LocalProcessSpec { cwd: Some(cwd), ..self }
    }

    /// The same launch with one more environment entry at the end.
    pub fn with_env(self, key: String, value: String) -> (r: Self)
        ensures
            r.program == self.program,
            r.args == self.args,
            r.cwd == self.cwd,
            r.env@ == self.env@.push((key, value)),
    {
        let mut s = self;
        s.env.push((key, value));
        s
    }

    /// The command line of this launch.
    pub fn command_summary(&self) -> (r: String)
        ensures
            r@ == command_line(self.program@, views(self.args@)),
    {
        render_command_line(&self.program, &self.args)
    }
}


/// The wording of the local process adapter.
pub fn local_process_profile() -> (r: ProcessProfile)
    ensures
        r.label@ == "local process"@,
        r.not_attached@ == "local process adapter is not attached"@,
        r.already_attached@ == "local process adapter already attached"@,
        r.already_exited@ == "local process already exited"@,
        r.paused@ == "local process paused"@,
        r.resumed@ == "local process resumed"@,
        r.step_refused@ == "step is not supported for local processes"@,
        r.snapshot_refused@ == "snapshots are not supported for local processes yet"@,
        r.replay_refused@ == "local process adapter does not support replay boundary injection"@,
{
    ProcessProfile {
        label: owned("local process"),
        not_attached: owned("local process adapter is not attached"),
        already_attached: owned("local process adapter already attached"),
        already_exited: owned("local process already exited"),
        paused: owned("local process paused"),
        resumed: owned("local process resumed"),
        step_refused: owned("step is not supported for local processes"),
        snapshot_refused: owned("snapshots are not supported for local processes yet"),
        replay_refused: owned("local process adapter does not support replay boundary injection"),
    }
}

/// The descriptor of a local process target: it is named by its command
/// line.
pub fn local_process_descriptor(spec: &LocalProcessSpec, target_id: TargetId) -> (r: TargetDescriptor)
    ensures
        r.target_id == target_id,
        r.adapter_name@ == "swat-adapter-local"@,
        r.target_name@ == command_line(spec.program@, views(spec.args@)),
        r.runtime@ == "local-process"@,
        r.replay_mode == ReplayMode::Live,
{
    TargetDescriptor {
        target_id,
        adapter_name: owned("swat-adapter-local"),
        target_name: spec.command_summary(),
        runtime: owned("local-process"),
        replay_mode: ReplayMode::Live,
    }
}

/// The summary of a captured chunk.
pub open spec fn chunk_summary(stream: OutputStream, len: nat) -> Seq<char> {
    "captured "@ + stream_name(stream) + " chunk ("@ + decimal(len) + " bytes)"@
}

/// Records one chunk of output from `stream`: it becomes a lazily read
/// plain-text artifact (UTF-8 when the bytes are, else binary) under the
/// next alias, and a value event named after the stream that refers to it.
pub fn record_chunk(state: &mut ProcessState, stream: OutputStream, bytes: Vec<u8>, emission: &mut AdapterEmission)
    requires
        old(state)@.next_alias < u64::MAX,
    ensures
        final(state)@ == (crate::process::ProcessModel { next_alias: (old(state)@.next_alias + 1) as u64, ..old(state)@ }),
        final(state).profile() == old(state).profile(),
        final(state).descriptor() == old(state).descriptor(),
        final(emission).pending_artifacts@.len() == old(emission).pending_artifacts@.len() + 1,
        final(emission).pending_events@.len() == old(emission).pending_events@.len() + 1,
        final(emission).pending_artifacts@.drop_last() == old(emission).pending_artifacts@,
        final(emission).pending_events@.drop_last() == old(emission).pending_events@,
        ({
            let a = final(emission).pending_artifacts@.last();
            let e = final(emission).pending_events@.last();
            &&& a.alias.0 == old(state)@.next_alias
            &&& a.media_type@ == "text/plain"@
            &&& a.encoding == (if utf8_valid(bytes@) { ArtifactEncoding::Utf8 } else { ArtifactEncoding::Binary })
            &&& a.access == ArtifactAccess::Lazy
            &&& a.bytes@ == bytes@
            &&& e.kind == EventKind::ValueObserved
            &&& e.payload matches EventPayload::Value { value_key, summary }
                && value_key@ == stream_name(stream) && summary@ == chunk_summary(stream, bytes@.len())
            &&& e.artifacts@ == seq![ArtifactBinding::Pending(a.alias)]
        }),
{
    let alias = state.take_alias();
    let encoding = if is_utf8(bytes.as_slice()) {
        ArtifactEncoding::Utf8
    } else {
        ArtifactEncoding::Binary
    };
    let mut summary = String::new();
    push_str(&mut summary, "captured ");
    push_str(&mut summary, stream.name());
    push_str(&mut summary, " chunk (");
    push_decimal(&mut summary, bytes.len() as u64);
    push_str(&mut summary, " bytes)");
    let event = PendingEvent::new(
        EventKind::ValueObserved,
        EventPayload::Value { value_key: owned(stream.name()), summary },
    ).with_artifact(ArtifactBinding::Pending(alias));
    emission.pending_artifacts.push(
        PendingArtifact {
            alias,
            media_type: owned("text/plain"),
            encoding,
            access: ArtifactAccess::Lazy,
            bytes,
        },
    );
    emission.pending_events.push(event);
    proof {
        assert(final(emission).pending_artifacts@.drop_last() =~= old(emission).pending_artifacts@);
        assert(final(emission).pending_events@.drop_last() =~= old(emission).pending_events@);
    }
}

} // verus!
