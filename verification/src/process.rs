//! The decisions shared by the adapters that run a child process: whether a
//! request may go ahead, which signal a control asks for, what the answer
//! is, how artifact aliases are numbered and how an exit is reported. The
//! caller spawns, signals and waits on the process and reports back.
use vstd::prelude::*;
use crate::model::{
    PendingArtifact, AdapterAttachment, AdapterControlResult, AdapterEmission, ArtifactAlias, CapabilitySet,
    ControlAction, ControlResponse, EventKind, EventPayload, PendingEvent, SwatError, SwatResult,
    TargetDescriptor, same_descriptor,
};
use crate::text::{owned, push_decimal, push_signed_decimal, push_str, decimal, signed_decimal};

verus! {

/// The wording that one kind of process adapter uses.
#[derive(Clone, Debug, PartialEq, Eq)]
pub struct ProcessProfile {
    /// How the process is named in lifecycle events ("local process").
    pub label: String,
    pub not_attached: String,
    pub already_attached: String,
    pub already_exited: String,
    pub paused: String,
    pub resumed: String,
    pub step_refused: String,
    pub snapshot_refused: String,
    pub replay_refused: String,
}

/// The stream that a line or chunk of output came from.
#[derive(Clone, Copy, Debug, PartialEq, Eq, Structural)]
pub enum OutputStream {
    Stdout,
    Stderr,
}

/// The name of a stream.
pub open spec fn stream_name(s: OutputStream) -> Seq<char> {
    match s {
        OutputStream::Stdout => "stdout"@,
        OutputStream::Stderr => "stderr"@,
    }
}

impl OutputStream {
    pub fn name(self) -> (r: &'static str)
        ensures
            r@ == stream_name(self),
    {
        match self {
            OutputStream::Stdout => "stdout",
            OutputStream::Stderr => "stderr",
        }
    }
}

/// The signal that a control asks the caller to send to the process.
#[derive(Clone, Copy, Debug, PartialEq, Eq, Structural)]
pub enum ProcessSignal {
    /// Stop the process (`SIGSTOP`).
    Stop,
    /// Let it continue (`SIGCONT`).
    Continue,
}

/// The state of a process adapter as a mathematical value.
pub struct ProcessModel {
    pub attached: bool,
    pub paused: bool,
    pub exit_emitted: bool,
    pub next_alias: u64,
}

/// The state of a process adapter, apart from the process itself.
pub struct ProcessState {
    profile: ProcessProfile,
    descriptor: TargetDescriptor,
    attached: bool,
    paused: bool,
    exit_emitted: bool,
    next_alias_raw: u64,
}

impl View for ProcessState {
    type V = ProcessModel;

    closed spec fn view(&self) -> ProcessModel {
        ProcessModel {
            attached: self.attached,
            paused: self.paused,
            exit_emitted: self.exit_emitted,
            next_alias: self.next_alias_raw,
        }
    }
}

/// What a process adapter can do: attach, stream events, stop, resume and
/// read values.
pub open spec fn process_capabilities(c: CapabilitySet) -> bool {
    &&& c.can_attach && c.can_stream_events && c.can_stop && c.can_resume && !c.can_step
    &&& c.can_read_values && !c.can_write_values && !c.can_snapshot && !c.can_inject_replay
    &&& !c.can_resolve_source && !c.can_resolve_schema
}

/// The signal that `action` asks for, when the process has not exited.
pub open spec fn signal_for(exited: bool, action: ControlAction) -> Option<ProcessSignal> {
    if exited {
        None
    } else {
        match action {
            ControlAction::Pause => Some(ProcessSignal::Stop),
            ControlAction::Resume => Some(ProcessSignal::Continue),
            _ => None,
        }
    }
}

/// The answer to `action`, given the profile and whether the process has
/// exited.
pub open spec fn control_answer(p: ProcessProfile, exited: bool, action: ControlAction) -> (bool, Seq<char>) {
    if exited {
        (false, p.already_exited@)
    } else {
        match action {
            ControlAction::Pause => (true, p.paused@),
            ControlAction::Resume => (true, p.resumed@),
            ControlAction::Step => (false, p.step_refused@),
            ControlAction::CreateSnapshot { .. } => (false, p.snapshot_refused@),
        }
    }
}

/// The paused flag after `action` went through.
pub open spec fn paused_after(paused: bool, exited: bool, action: ControlAction) -> bool {
    if exited {
        paused
    } else {
        match action {
            ControlAction::Pause => true,
            ControlAction::Resume => false,
            _ => paused,
        }
    }
}

/// The summary of a process exit: with its code, or without one.
pub open spec fn exit_text(label: Seq<char>, code: Option<i32>) -> Seq<char> {
    match code {
        Some(c) => label + " exited with code "@ + signed_decimal(c as int),
        None => label + " exited without a code"@,
    }
}

/// The summary of a spawn: the process id and, where there is one, the
/// command line.
pub open spec fn spawn_text(label: Seq<char>, pid: u32, command: Option<Seq<char>>) -> Seq<char> {
    match command {
        Some(c) => "spawned "@ + label + " pid="@ + decimal(pid as nat) + " cmd="@ + c,
        None => "spawned "@ + label + " pid="@ + decimal(pid as nat),
    }
}

/// `e` is a text event of `kind` with `summary` and no artifact.
pub open spec fn is_text_event(e: PendingEvent, kind: EventKind, summary: Seq<char>) -> bool {
    &&& e.kind == kind
    &&& e.payload matches EventPayload::Text { summary: s } && s@ == summary
    &&& e.artifacts@.len() == 0
}

impl ProcessState {
    /// A detached process adapter that describes itself with `descriptor`.
    pub fn new(profile: ProcessProfile, descriptor: TargetDescriptor) -> (r: Self)
        ensures
            r@ == (ProcessModel { attached: false, paused: false, exit_emitted: false, next_alias: 1 }),
            r.profile() == profile,
            r.descriptor() == descriptor,
    {
        ProcessState {
            profile,
            descriptor,
            attached: false,
            paused: false,
            exit_emitted: false,
            next_alias_raw: 1,
        }
    }

    pub closed spec fn profile(&self) -> ProcessProfile {
        self.profile
    }

    pub closed spec fn descriptor(&self) -> TargetDescriptor {
        self.descriptor
    }

    /// The descriptor.
    pub fn target_descriptor(&self) -> (r: &TargetDescriptor)
        ensures
            *r == self.descriptor(),
    {
        &self.descriptor
    }

    /// The raw number of the next artifact alias.
    pub fn next_alias_raw(&self) -> (r: u64)
        ensures
            r == self@.next_alias,
    {
        self.next_alias_raw
    }

    pub fn is_attached(&self) -> (r: bool)
        ensures
            r == self@.attached,
    {
        self.attached
    }

    pub fn is_paused(&self) -> (r: bool)
        ensures
            r == self@.paused,
    {
        self.paused
    }

    pub fn exit_emitted(&self) -> (r: bool)
        ensures
            r == self@.exit_emitted,
    {
        self.exit_emitted
    }

    /// Success when attached, else the profile's "not attached" error.
    pub fn ensure_attached(&self) -> (r: SwatResult<()>)
        ensures
            self@.attached <==> r is Ok,
            r matches Err(e) ==> e@ == self.profile().not_attached@,
    {
        if self.attached {
            Ok(())
        } else {
            Err(SwatError::new(self.profile.not_attached.clone()))
        }
    }

    /// Success when a spawn may go ahead (not attached yet), else the
    /// profile's "already attached" error.
    pub fn check_attach(&self) -> (r: SwatResult<()>)
        ensures
            !self@.attached <==> r is Ok,
            r matches Err(e) ==> e@ == self.profile().already_attached@,
    {
        if self.attached {
            Err(SwatError::new(self.profile.already_attached.clone()))
        } else {
            Ok(())
        }
    }

    /// Records a successful spawn of process `pid` and answers the attach:
    /// the descriptor, the process capabilities and one lifecycle event that
    /// reports the spawn (with `command` where given).
    pub fn complete_attach(&mut self, pid: u32, command: Option<String>) -> (r: AdapterAttachment)
        ensures
            final(self)@ == (ProcessModel { attached: true, paused: false, exit_emitted: false, next_alias: 1 }),
            final(self).profile() == old(self).profile(),
            final(self).descriptor() == old(self).descriptor(),
            same_descriptor(r.descriptor, old(self).descriptor()),
            process_capabilities(r.capabilities),
            r.initial_emission.pending_events@.len() == 1,
            r.initial_emission.pending_artifacts@.len() == 0,
            is_text_event(
                r.initial_emission.pending_events@[0],
                EventKind::Lifecycle,
                spawn_text(old(self).profile().label@, pid, match command {
                    Some(c) => Some(c@),
                    None => None,
                }),
            ),
    {
        self.attached = true;
        self.paused = false;
        self.exit_emitted = false;
        self.next_alias_raw = 1;
        let mut summary = String::new();
        push_str(&mut summary, "spawned ");
        push_str(&mut summary, self.profile.label.as_str());
        push_str(&mut summary, " pid=");
        push_decimal(&mut summary, pid as u64);
        match &command {
            Some(c) => {
                push_str(&mut summary, " cmd=");
                push_str(&mut summary, c.as_str());
            },
            None => {},
        }
        let mut events: Vec<PendingEvent> = Vec::new();
        events.push(PendingEvent::new(EventKind::Lifecycle, EventPayload::Text { summary }));
        AdapterAttachment {
            descriptor: self.descriptor.duplicate(),
            capabilities: process_capability_set(),
            initial_emission: AdapterEmission { pending_events: events, pending_artifacts: Vec::new() },
        }
    }

    /// The next artifact alias; aliases count up from one after each attach.
    pub fn take_alias(&mut self) -> (r: ArtifactAlias)
        requires
            old(self)@.next_alias < u64::MAX,
        ensures
            r == ArtifactAlias(old(self)@.next_alias),
            final(self)@ == (ProcessModel { next_alias: (old(self)@.next_alias + 1) as u64, ..old(self)@ }),
            final(self).profile() == old(self).profile(),
            final(self).descriptor() == old(self).descriptor(),
    {
        let alias = ArtifactAlias(self.next_alias_raw);
        self.next_alias_raw = self.next_alias_raw + 1;
        alias
    }

    /// The signal that the caller must send before `finish_control`, if any.
    pub fn control_signal(&self, action: &ControlAction) -> (r: Option<ProcessSignal>)
        ensures
            r == signal_for(self@.exit_emitted, *action),
    {
        if self.exit_emitted {
            None
        } else {
            match action {
                ControlAction::Pause => Some(ProcessSignal::Stop),
                ControlAction::Resume => Some(ProcessSignal::Continue),
                _ => None,
            }
        }
    }

    /// Answers `action` once its signal (if any) was sent: the response and
    /// one control event that repeats its summary.
    pub fn finish_control(&mut self, action: ControlAction) -> (r: AdapterControlResult)
        ensures
            final(self)@ == (ProcessModel {
                paused: paused_after(old(self)@.paused, old(self)@.exit_emitted, action),
                ..old(self)@
            }),
            final(self).profile() == old(self).profile(),
            final(self).descriptor() == old(self).descriptor(),
            (r.response.accepted, r.response.summary@) == control_answer(
                old(self).profile(),
                old(self)@.exit_emitted,
                action,
            ),
            r.emission.pending_events@.len() == 1,
            r.emission.pending_artifacts@.len() == 0,
            r.emission.pending_events@[0].kind == EventKind::Control,
            r.emission.pending_events@[0].payload == (EventPayload::Control {
                action,
                summary: r.response.summary,
            }),
    {
        let response = if self.exit_emitted {
            ControlResponse { accepted: false, summary: self.profile.already_exited.clone() }
        } else {
            match &action {
                ControlAction::Pause => {
                    self.paused = true;
                    ControlResponse { accepted: true, summary: self.profile.paused.clone() }
                },
                ControlAction::Resume => {
                    self.paused = false;
                    ControlResponse { accepted: true, summary: self.profile.resumed.clone() }
                },
                ControlAction::Step => {
                    ControlResponse { accepted: false, summary: self.profile.step_refused.clone() }
                },
                ControlAction::CreateSnapshot { .. } => {
                    ControlResponse { accepted: false, summary: self.profile.snapshot_refused.clone() }
                },
            }
        };
        let summary = response.summary.clone();
        let mut events: Vec<PendingEvent> = Vec::new();
        events.push(PendingEvent::new(EventKind::Control, EventPayload::Control { action, summary }));
        AdapterControlResult {
            response,
            emission: AdapterEmission { pending_events: events, pending_artifacts: Vec::new() },
        }
    }

    /// Records that the process exited with `code` (none when a signal ended
    /// it) and gives the lifecycle event that reports it.
    pub fn record_exit(&mut self, code: Option<i32>) -> (r: PendingEvent)
        requires
            !old(self)@.exit_emitted,
        ensures
            final(self)@ == (ProcessModel { exit_emitted: true, paused: false, ..old(self)@ }),
            final(self).profile() == old(self).profile(),
            final(self).descriptor() == old(self).descriptor(),
            is_text_event(r, EventKind::Lifecycle, exit_text(old(self).profile().label@, code)),
    {
        self.exit_emitted = true;
        self.paused = false;
        let mut summary = self.profile.label.clone();
        match code {
            Some(c) => {
                push_str(&mut summary, " exited with code ");
                push_signed_decimal(&mut summary, c as i64);
            },
            None => {
                push_str(&mut summary, " exited without a code");
            },
        }
        PendingEvent::new(EventKind::Lifecycle, EventPayload::Text { summary })
    }

    /// The answer to a replay injection: these adapters take none.
    pub fn refuse_replay(&self) -> (r: SwatResult<AdapterEmission>)
        ensures
            r matches Err(e) && (if self@.attached {
                e@ == self.profile().replay_refused@
            } else {
                e@ == self.profile().not_attached@
            }),
    {
        match self.ensure_attached() {
            Ok(()) => Err(SwatError::new(self.profile.replay_refused.clone())),
            Err(e) => Err(e),
        }
    }
}

/// The capabilities of a process adapter.
pub fn process_capability_set() -> (r: CapabilitySet)
    ensures
        process_capabilities(r),
{
    CapabilitySet {
        can_attach: true,
        can_stream_events: true,
        can_stop: true,
        can_resume: true,
        can_step: false,
        can_read_values: true,
        can_write_values: false,
        can_snapshot: false,
        can_inject_replay: false,
        can_resolve_source: false,
        can_resolve_schema: false,
    }
}


/// The emission grew by exactly one artifact and one event.
pub open spec fn grew_by_one(old_e: AdapterEmission, new_e: AdapterEmission) -> bool {
    &&& new_e.pending_artifacts@.len() == old_e.pending_artifacts@.len() + 1
    &&& new_e.pending_events@.len() == old_e.pending_events@.len() + 1
    &&& new_e.pending_artifacts@.drop_last() == old_e.pending_artifacts@
    &&& new_e.pending_events@.drop_last() == old_e.pending_events@
}

/// The alias counter moved on by one and nothing else changed.
pub open spec fn alias_taken(old_s: ProcessState, new_s: ProcessState) -> bool {
    &&& new_s@ == (ProcessModel { next_alias: (old_s@.next_alias + 1) as u64, ..old_s@ })
    &&& new_s.profile() == old_s.profile()
    &&& new_s.descriptor() == old_s.descriptor()
}

/// Appends `artifact` and `event` to the emission.
pub fn push_pair(emission: &mut AdapterEmission, artifact: PendingArtifact, event: PendingEvent)
    ensures
        grew_by_one(*old(emission), *final(emission)),
        final(emission).pending_artifacts@.last() == artifact,
        final(emission).pending_events@.last() == event,
{
    emission.pending_artifacts.push(artifact);
    emission.pending_events.push(event);
    proof {
        assert(final(emission).pending_artifacts@.drop_last() =~= old(emission).pending_artifacts@);
        assert(final(emission).pending_events@.drop_last() =~= old(emission).pending_events@);
    }
}

} // verus!
