//! The device command channel: one session's lifecycle as a state machine.
//!
//! A session deploys the helper executable to the device, spawns the bridge
//! tool's remote-shell subprocess with its input pipe captured, then relays
//! every command line observed on the outgoing slot into that pipe, racing
//! slot changes against the subprocess exiting on its own. It reports the
//! transitions as `Connected` / `Disconnected` / `Error` lifecycle events.
//!
//! The blocking work (temp files, the bridge tool, pipe writes, waiting) is
//! performed by the caller: each call to [`Session::step`] feeds in what just
//! happened and returns at most one lifecycle event to emit plus the next
//! action to perform. All decisions live here and are verified.

use vstd::prelude::*;

verus! {

use crate::slot::{SlotModel, slot_wf, is_subsequence_of};
use crate::slot::{lemma_taken_is_subsequence_of_history, lemma_filter_is_subsequence,
    lemma_subsequence_transitive};

/// Lifecycle event reported to the UI, the only information it receives
/// about channel health.
#[derive(Clone, Copy, Debug, PartialEq, Eq, Structural)]
pub enum AdbServerRecipeEvent {
    /// The remote shell is up and its input pipe is writable.
    Connected,
    /// The session ended cleanly: the subprocess exited on its own or the UI
    /// hung up the outgoing slot.
    Disconnected,
    /// Setup failed or the input pipe broke; the session is over.
    Error,
}

/// Where a session stands in its lifecycle.
#[derive(Clone, Copy, Debug, PartialEq, Eq, Structural)]
pub enum SessionPhase {
    /// Staging the embedded helper executable into local temp storage.
    Preparing,
    /// Copying the staged helper onto the device through the bridge tool.
    Pushing,
    /// Starting the remote shell that runs the helper, input pipe captured.
    Spawning,
    /// Relaying command lines; racing slot changes against process exit.
    Connected,
    /// Terminal: a terminal event was emitted, nothing more happens.
    Finished,
}

/// How spawning the remote shell went.
#[derive(Clone, Copy, Debug, PartialEq, Eq, Structural)]
pub enum SpawnOutcome {
    /// The subprocess is running and its input pipe was captured.
    Spawned,
    /// The subprocess could not be started at all.
    SpawnFailed,
    /// The subprocess started but no input pipe was captured; the caller
    /// still holds a live child that must be reaped.
    NoInputPipe,
}

/// What just happened, fed into the state machine by the caller.
#[derive(Debug)]
pub enum SessionInput {
    /// Staging the helper into temp storage succeeded (`true`) or failed.
    PrepareDone(bool),
    /// The bridge tool's push command succeeded (`true`) or failed.
    PushDone(bool),
    /// Result of spawning the remote shell.
    SpawnDone(SpawnOutcome),
    /// The outgoing slot produced a new value.
    SlotChanged(String),
    /// The outgoing slot's writer side was dropped: the UI disconnected.
    SlotClosed,
    /// The subprocess exited on its own.
    ProcessExited,
    /// The write and flush of the last command line succeeded (`true`) or
    /// failed.
    WriteDone(bool),
}

/// The next piece of outside work the caller must perform.
#[derive(Debug)]
pub enum SessionAction {
    /// Create the temp file and write the embedded helper bytes to it: the
    /// session's first piece of work, implied by `start`.
    Prepare,
    /// Run the bridge tool's push command for the staged helper.
    Push,
    /// Spawn the remote shell with its standard input piped.
    Spawn,
    /// Wait for the next slot change or for the subprocess to exit,
    /// whichever comes first.
    Await,
    /// Write this exact text to the subprocess's input pipe and flush it.
    Write(String),
    /// Kill the subprocess and wait on it.
    Reap,
    /// The session is over; drop it.
    Stop,
}

/// Ghost counterpart of [`SessionAction`], with the write payload as a
/// character sequence.
pub enum SessionActionModel {
    Prepare,
    Push,
    Spawn,
    Await,
    Write(Seq<char>),
    Reap,
    Stop,
}

impl View for SessionAction {
    type V = SessionActionModel;

    open spec fn view(&self) -> SessionActionModel {
        match self {
            SessionAction::Prepare => SessionActionModel::Prepare,
            SessionAction::Push => SessionActionModel::Push,
            SessionAction::Spawn => SessionActionModel::Spawn,
            SessionAction::Await => SessionActionModel::Await,
            SessionAction::Write(s) => SessionActionModel::Write(s@),
            SessionAction::Reap => SessionActionModel::Reap,
            SessionAction::Stop => SessionActionModel::Stop,
        }
    }
}

/// What one step did: at most one lifecycle event to emit, and the next
/// action to perform.
#[derive(Debug)]
pub struct Step {
    pub event: Option<AdbServerRecipeEvent>,
    pub action: SessionAction,
}

/// Ghost state of one session: phase plus the full traces the laws speak of.
pub struct SessionModel {
    /// The identifier of the device this session is bound to.
    pub device: Seq<char>,
    pub phase: SessionPhase,
    /// Every lifecycle event emitted so far, in order.
    pub events: Seq<AdbServerRecipeEvent>,
    /// Every slot value handed to the session, in order, sentinel included.
    pub observed: Seq<Seq<char>>,
    /// Every command line issued to the subprocess, in order.
    pub sent: Seq<Seq<char>>,
    /// Whether a `Spawn` action was ever issued.
    pub spawn_requested: bool,
    /// Whether the session currently holds a live subprocess.
    pub child_live: bool,
}

/// Ghost result of one transition.
pub struct StepModel {
    pub post: SessionModel,
    pub event: Option<AdbServerRecipeEvent>,
    pub action: SessionActionModel,
}

/// A lifecycle event that ends the session.
pub open spec fn is_terminal_event(e: AdbServerRecipeEvent) -> bool {
    e is Disconnected || e is Error
}

/// The state of a session that was just started for `device`.
pub open spec fn initial_model(device: Seq<char>) -> SessionModel {
    SessionModel {
        device: device,
        phase: SessionPhase::Preparing,
        events: Seq::empty(),
        observed: Seq::empty(),
        sent: Seq::empty(),
        spawn_requested: false,
        child_live: false,
    }
}

/// Which inputs make sense in the current phase. The caller only ever feeds
/// the machine the result of the action it was told to perform, so this is
/// not a restriction on real runs; a finished session accepts anything and
/// ignores it.
pub open spec fn accepts(m: SessionModel, input: SessionInput) -> bool {
    match m.phase {
        SessionPhase::Preparing => input is PrepareDone,
        SessionPhase::Pushing => input is PushDone,
        SessionPhase::Spawning => input is SpawnDone,
        SessionPhase::Connected => input is SlotChanged || input is SlotClosed
            || input is ProcessExited || input is WriteDone,
        SessionPhase::Finished => true,
    }
}

/// The event trace a finished session can have: exactly one terminal event,
/// preceded by `Connected` exactly when setup had succeeded.
pub open spec fn finished_events(es: Seq<AdbServerRecipeEvent>) -> bool {
    ||| (es.len() == 1 && es[0] is Error)
    ||| (es.len() == 2 && es[0] is Connected && is_terminal_event(es[1]))
}

/// Every reachable session state satisfies this.
pub open spec fn model_wf(m: SessionModel) -> bool {
    &&& (m.phase is Preparing || m.phase is Pushing) ==> m.events.len() == 0
        && !m.spawn_requested && !m.child_live && m.observed.len() == 0
    &&& m.phase is Spawning ==> m.events.len() == 0 && m.spawn_requested && !m.child_live
        && m.observed.len() == 0
    &&& m.phase is Connected ==> m.events.len() == 1 && m.events[0] is Connected
        && m.spawn_requested && m.child_live
    &&& m.phase is Finished ==> !m.child_live && finished_events(m.events)
    &&& m.observed.len() > 0 ==> (m.phase is Connected || m.phase is Finished)
        && m.events.len() > 0 && m.events[0] is Connected
    &&& m.sent == m.observed.filter(|v: Seq<char>| v.len() != 0)
}

/// One transition of the session state machine: from state `m` on `input`,
/// the resulting state, the lifecycle event to emit (if any), and the next
/// action. Inputs that do not fit the phase leave the state unchanged.
pub open spec fn step_model(m: SessionModel, input: SessionInput) -> StepModel {
    match m.phase {
        SessionPhase::Preparing => match input {
            SessionInput::PrepareDone(ok) => if ok {
                StepModel {
                    post: SessionModel { phase: SessionPhase::Pushing, ..m },
                    event: None,
                    action: SessionActionModel::Push,
                }
            } else {
                fail_before_spawn(m)
            },
            _ => stutter(m),
        },
        SessionPhase::Pushing => match input {
            SessionInput::PushDone(ok) => if ok {
                StepModel {
                    post: SessionModel {
                        phase: SessionPhase::Spawning,
                        spawn_requested: true,
                        ..m
                    },
                    event: None,
                    action: SessionActionModel::Spawn,
                }
            } else {
                fail_before_spawn(m)
            },
            _ => stutter(m),
        },
        SessionPhase::Spawning => match input {
            SessionInput::SpawnDone(outcome) => match outcome {
                SpawnOutcome::Spawned => StepModel {
                    post: SessionModel {
                        phase: SessionPhase::Connected,
                        events: m.events.push(AdbServerRecipeEvent::Connected),
                        child_live: true,
                        ..m
                    },
                    event: Some(AdbServerRecipeEvent::Connected),
                    action: SessionActionModel::Await,
                },
                SpawnOutcome::SpawnFailed => fail_before_spawn(m),
                SpawnOutcome::NoInputPipe => StepModel {
                    post: SessionModel {
                        phase: SessionPhase::Finished,
                        events: m.events.push(AdbServerRecipeEvent::Error),
                        ..m
                    },
                    event: Some(AdbServerRecipeEvent::Error),
                    action: SessionActionModel::Reap,
                },
            },
            _ => stutter(m),
        },
        SessionPhase::Connected => match input {
            SessionInput::SlotChanged(s) => if s@.len() == 0 {
                StepModel {
                    post: SessionModel { observed: m.observed.push(s@), ..m },
                    event: None,
                    action: SessionActionModel::Await,
                }
            } else {
                StepModel {
                    post: SessionModel {
                        observed: m.observed.push(s@),
                        sent: m.sent.push(s@),
                        ..m
                    },
                    event: None,
                    action: SessionActionModel::Write(s@.push('\n')),
                }
            },
            SessionInput::WriteDone(ok) => if ok {
                StepModel { post: m, event: None, action: SessionActionModel::Await }
            } else {
                StepModel {
                    post: SessionModel {
                        phase: SessionPhase::Finished,
                        events: m.events.push(AdbServerRecipeEvent::Error),
                        child_live: false,
                        ..m
                    },
                    event: Some(AdbServerRecipeEvent::Error),
                    action: SessionActionModel::Reap,
                }
            },
            SessionInput::ProcessExited => StepModel {
                post: SessionModel {
                    phase: SessionPhase::Finished,
                    events: m.events.push(AdbServerRecipeEvent::Disconnected),
                    child_live: false,
                    ..m
                },
                event: Some(AdbServerRecipeEvent::Disconnected),
                action: SessionActionModel::Reap,
            },
            SessionInput::SlotClosed => StepModel {
                post: SessionModel {
                    phase: SessionPhase::Finished,
                    events: m.events.push(AdbServerRecipeEvent::Disconnected),
                    child_live: false,
                    ..m
                },
                event: Some(AdbServerRecipeEvent::Disconnected),
                action: SessionActionModel::Reap,
            },
            _ => stutter(m),
        },
        SessionPhase::Finished => stutter(m),
    }
}

/// A setup failure before any subprocess exists: emit `Error` and finish.
pub open spec fn fail_before_spawn(m: SessionModel) -> StepModel {
    StepModel {
        post: SessionModel {
            phase: SessionPhase::Finished,
            events: m.events.push(AdbServerRecipeEvent::Error),
            ..m
        },
        event: Some(AdbServerRecipeEvent::Error),
        action: SessionActionModel::Stop,
    }
}

/// Nothing happens: no event, no work.
pub open spec fn stutter(m: SessionModel) -> StepModel {
    StepModel { post: m, event: None, action: SessionActionModel::Stop }
}

/// The state after feeding a whole sequence of inputs, first to last.
pub open spec fn run_model(m: SessionModel, inputs: Seq<SessionInput>) -> SessionModel
    decreases inputs.len(),
{
    if inputs.len() == 0 {
        m
    } else {
        run_model(step_model(m, inputs[0]).post, inputs.drop_first())
    }
}

/// One session of the command channel, bound to one device.
///
/// Created by [`Session::start`]; the caller then performs the `Prepare`
/// work and reports results through [`Session::step`] until the session
/// finishes.
pub struct Session {
    device: String,
    phase: SessionPhase,
    model: Ghost<SessionModel>,
}

impl View for Session {
    type V = SessionModel;

    closed spec fn view(&self) -> SessionModel {
        self.model@
    }
}

impl Session {
    /// The executable state mirrors the model and the model is well-formed.
    pub closed spec fn inv(&self) -> bool {
        &&& self.phase == self.model@.phase
        &&& self.device@ == self.model@.device
        &&& model_wf(self.model@)
    }

    /// Begin a session for one device. No outside work has happened yet; the
    /// caller's first action is `Prepare` (stage the helper executable).
    pub fn start(device: String) -> (s: Session)
        ensures
            s.inv(),
            s@ == initial_model(device@),
    {
        let ghost m = initial_model(device@);
        proof {
            reveal(Seq::filter);
            assert(m.sent =~= m.observed.filter(|v: Seq<char>| v.len() != 0));
        }
        Session { device, phase: SessionPhase::Preparing, model: Ghost(m) }
    }

    /// The device identifier this session is bound to: sessions are keyed by
    /// it so a duplicate start for the same device can be recognized.
    pub fn device(&self) -> (r: &String)
        requires
            self.inv(),
        ensures
            r@ == self@.device,
    {
        &self.device
    }

    /// Where the session currently stands.
    pub fn phase(&self) -> (r: SessionPhase)
        requires
            self.inv(),
        ensures
            r == self@.phase,
    {
        self.phase
    }

    /// Feed in what just happened; get the event to emit (if any) and the
    /// next action. The transition is exactly [`step_model`].
    pub fn step(&mut self, input: SessionInput) -> (r: Step)
        requires
            old(self).inv(),
            accepts(old(self)@, input),
        ensures
            final(self).inv(),
            final(self)@ == step_model(old(self)@, input).post,
            r.event == step_model(old(self)@, input).event,
            r.action@ == step_model(old(self)@, input).action,
    {
        let ghost pre = self.model@;
        let ghost inp = input;
        proof {
            lemma_step_preserves_wf(pre, inp);
        }
        match self.phase {
            SessionPhase::Preparing => {
                let ok = (match input {
                    SessionInput::PrepareDone(ok) => ok,
                    _ => { return self.stutter_step() },
                });
                if ok {
                    self.phase = SessionPhase::Pushing;
                    proof {
                        self.model@ = step_model(pre, inp).post;
                    }
                    Step { event: None, action: SessionAction::Push }
                } else {
                    self.fail_before_spawn_step()
                }
            },
            SessionPhase::Pushing => {
                let ok = (match input {
                    SessionInput::PushDone(ok) => ok,
                    _ => { return self.stutter_step() },
                });
                if ok {
                    self.phase = SessionPhase::Spawning;
                    proof {
                        self.model@ = step_model(pre, inp).post;
                    }
                    Step { event: None, action: SessionAction::Spawn }
                } else {
                    self.fail_before_spawn_step()
                }
            },
            SessionPhase::Spawning => {
                let outcome = (match input {
                    SessionInput::SpawnDone(o) => o,
                    _ => { return self.stutter_step() },
                });
                match outcome {
                    SpawnOutcome::Spawned => {
                        self.phase = SessionPhase::Connected;
                        proof {
                            self.model@ = step_model(pre, inp).post;
                        }
                        Step {
                            event: Some(AdbServerRecipeEvent::Connected),
                            action: SessionAction::Await,
                        }
                    },
                    SpawnOutcome::SpawnFailed => self.fail_before_spawn_step(),
                    SpawnOutcome::NoInputPipe => {
                        self.phase = SessionPhase::Finished;
                        proof {
                            self.model@ = step_model(pre, inp).post;
                        }
                        Step {
                            event: Some(AdbServerRecipeEvent::Error),
                            action: SessionAction::Reap,
                        }
                    },
                }
            },
            SessionPhase::Connected => match input {
                SessionInput::SlotChanged(s) => {
                    proof {
                        self.model@ = step_model(pre, inp).post;
                    }
                    let ghost sv = s@;
                    if s.as_str().is_empty() {
                        Step { event: None, action: SessionAction::Await }
                    } else {
                        let mut line = s;
                        line.append("\n");
                        proof {
                            reveal_strlit("\n");
                            assert(line@ =~= sv.push('\n'));
                        }
                        Step { event: None, action: SessionAction::Write(line) }
                    }
                },
                SessionInput::WriteDone(ok) => {
                    if ok {
                        Step { event: None, action: SessionAction::Await }
                    } else {
                        self.phase = SessionPhase::Finished;
                        proof {
                            self.model@ = step_model(pre, inp).post;
                        }
                        Step {
                            event: Some(AdbServerRecipeEvent::Error),
                            action: SessionAction::Reap,
                        }
                    }
                },
                SessionInput::ProcessExited => {
                    self.phase = SessionPhase::Finished;
                    proof {
                        self.model@ = step_model(pre, inp).post;
                    }
                    Step {
                        event: Some(AdbServerRecipeEvent::Disconnected),
                        action: SessionAction::Reap,
                    }
                },
                SessionInput::SlotClosed => {
                    self.phase = SessionPhase::Finished;
                    proof {
                        self.model@ = step_model(pre, inp).post;
                    }
                    Step {
                        event: Some(AdbServerRecipeEvent::Disconnected),
                        action: SessionAction::Reap,
                    }
                },
                _ => self.stutter_step(),
            },
            SessionPhase::Finished => self.stutter_step(),
        }
    }

    /// An input that does not fit the phase (or arrives after the session
    /// finished) does nothing.
    fn stutter_step(&mut self) -> (r: Step)
        ensures
            *final(self) == *old(self),
            r.event is None,
            r.action@ is Stop,
    {
        Step { event: None, action: SessionAction::Stop }
    }

    /// Shared failure path for setup steps where no subprocess exists.
    fn fail_before_spawn_step(&mut self) -> (r: Step)
        ensures
            final(self).device == old(self).device,
            final(self).phase == SessionPhase::Finished,
            final(self)@ == fail_before_spawn(old(self)@).post,
            r.event == Some(AdbServerRecipeEvent::Error),
            r.action@ is Stop,
    {
        self.phase = SessionPhase::Finished;
        proof {
            self.model@ = fail_before_spawn(self.model@).post;
        }
        Step { event: Some(AdbServerRecipeEvent::Error), action: SessionAction::Stop }
    }
}

/// A consistent session's ghost state is well-formed, so the laws below
/// apply to it.
pub proof fn lemma_session_inv_wf(s: &Session)
    requires
        s.inv(),
    ensures
        model_wf(s@),
{
}

/// Observe the outgoing slot once and feed what it said into the session: a
/// pending value arrives as a slot change, closure as the hang-up signal.
///
/// This is the one place slot and session meet, and it keeps them aligned:
/// the values the slot ever handed out stay exactly the values the session
/// observed, which is what [`law_relay_subsequence`] speaks about.
pub fn relay_observation(slot: &mut crate::slot::CommandSlot, session: &mut Session) -> (r: Step)
    requires
        old(slot).inv(),
        old(session).inv(),
        old(session)@.phase is Connected,
        old(slot)@.seen < old(slot)@.history.len() || old(slot)@.closed,
        old(session)@.observed == old(slot)@.taken,
    ensures
        final(slot).inv(),
        final(session).inv(),
        final(session)@.observed == final(slot)@.taken,
        final(slot)@.history == old(slot)@.history,
        final(slot)@.closed == old(slot)@.closed,
        old(slot)@.seen < old(slot)@.history.len() ==> ({
            let latest = old(slot)@.history[old(slot)@.history.len() - 1];
            &&& final(session)@.observed == old(session)@.observed.push(latest)
            &&& final(session)@.phase is Connected
            &&& final(session)@.events == old(session)@.events
            &&& r.event is None
            &&& (latest.len() == 0 ==> final(session)@.sent == old(session)@.sent && r.action@
                is Await)
            &&& (latest.len() != 0 ==> final(session)@.sent == old(session)@.sent.push(latest)
                && r.action@ == SessionActionModel::Write(latest.push('\n')))
        }),
        old(slot)@.seen == old(slot)@.history.len() ==> ({
            &&& final(session)@.observed == old(session)@.observed
            &&& final(session)@.sent == old(session)@.sent
            &&& final(session)@.events == old(session)@.events.push(
                AdbServerRecipeEvent::Disconnected,
            )
            &&& final(session)@.phase is Finished
            &&& r.event == Some(AdbServerRecipeEvent::Disconnected)
            &&& r.action@ is Reap
        }),
{
    match slot.observe() {
        Some(value) => session.step(SessionInput::SlotChanged(value)),
        None => session.step(SessionInput::SlotClosed),
    }
}

/// The running sessions, keyed by device identifier.
///
/// Starting a session for a device that already has one is refused, so no
/// device ever gets two independent deployments; ending a session frees its
/// identifier again.
pub struct SessionRegistry {
    active: Vec<String>,
}

impl SessionRegistry {
    /// The identifiers of the devices with a running session, in start order.
    pub closed spec fn devices(&self) -> Seq<Seq<char>> {
        Seq::new(self.active@.len() as nat, |i: int| self.active@[i]@)
    }

    /// No device identifier is registered twice.
    pub closed spec fn inv(&self) -> bool {
        forall|i: int, j: int|
            0 <= i < j < self.active@.len() ==> (#[trigger] self.active@[i]@) != (
            #[trigger] self.active@[j]@)
    }

    /// No session runs yet.
    pub fn new() -> (r: SessionRegistry)
        ensures
            r.inv(),
            r.devices().len() == 0,
    {
        SessionRegistry { active: Vec::new() }
    }

    /// Where this device's session is registered, if it has one.
    fn index_of(&self, device: &String) -> (r: Option<usize>)
        ensures
            r matches Some(i) ==> i < self.devices().len() && self.devices()[i as int] == device@,
            r is None ==> !self.devices().contains(device@),
    {
        let mut i: usize = 0;
        while i < self.active.len()
            invariant
                0 <= i <= self.active@.len(),
                forall|j: int| 0 <= j < i ==> (#[trigger] self.active@[j]@) != device@,
            decreases self.active@.len() - i,
        {
            if self.active[i].eq(device) {
                return Some(i);
            }
            i = i + 1;
        }
        proof {
            assert forall|k: int| 0 <= k < self.devices().len() implies #[trigger] self.devices()[k]
                != device@ by {
                assert(self.active@[k]@ != device@);
            }
        }
        None
    }

    /// Whether this device already has a running session.
    pub fn is_active(&self, device: &String) -> (r: bool)
        ensures
            r == self.devices().contains(device@),
    {
        self.index_of(device).is_some()
    }

    /// Register a session for this device. Refused, with nothing changed,
    /// when the device already has one: the running deployment is kept and
    /// no second one may be started.
    pub fn begin(&mut self, device: &String) -> (r: bool)
        requires
            old(self).inv(),
        ensures
            final(self).inv(),
            r == !old(self).devices().contains(device@),
            r ==> final(self).devices() == old(self).devices().push(device@),
            !r ==> final(self).devices() == old(self).devices(),
            final(self).devices().contains(device@),
    {
        match self.index_of(device) {
            Some(_) => false,
            None => {
                self.active.push(device.clone());
                proof {
                    assert(self.devices() =~= old(self).devices().push(device@));
                    assert(self.devices()[self.devices().len() - 1] == device@);
                    assert forall|a: int, b: int|
                        0 <= a < b < self.active@.len() implies (#[trigger] self.active@[a]@) != (
                    #[trigger] self.active@[b]@) by {
                        if b == self.active@.len() - 1 {
                            assert(old(self).devices()[a] == old(self).active@[a]@);
                            assert(old(self).devices()[a] != device@);
                        } else {
                            assert(old(self).active@[a]@ != old(self).active@[b]@);
                        }
                    }
                }
                true
            },
        }
    }

    /// Drop the registration for this device, if any: its identifier is free
    /// again, and every other device's session is untouched.
    pub fn end(&mut self, device: &String)
        requires
            old(self).inv(),
        ensures
            final(self).inv(),
            !final(self).devices().contains(device@),
            forall|d: Seq<char>|
                d != device@ ==> (final(self).devices().contains(d) <==> old(self).devices()
                    .contains(d)),
    {
        match self.index_of(device) {
            Some(i) => {
                self.active.remove(i);
                proof {
                    assert(self.devices() =~= old(self).devices().remove(i as int));
                    lemma_registry_remove(old(self).devices(), i as int, device@);
                }
            },
            None => {
                proof {
                    assert forall|d: Seq<char>| d != device@ implies (
                    final(self).devices().contains(d) <==> old(self).devices().contains(d)) by {}
                }
            },
        }
    }
}

/// Removing the one occurrence of `x` from a duplicate-free sequence leaves
/// a duplicate-free sequence without `x`, with everything else kept.
proof fn lemma_registry_remove(s: Seq<Seq<char>>, i: int, x: Seq<char>)
    requires
        0 <= i < s.len(),
        s[i] == x,
        forall|a: int, b: int| 0 <= a < b < s.len() ==> (#[trigger] s[a]) != (#[trigger] s[b]),
    ensures
        !s.remove(i).contains(x),
        forall|d: Seq<char>| d != x ==> (s.remove(i).contains(d) <==> s.contains(d)),
        forall|a: int, b: int|
            0 <= a < b < s.remove(i).len() ==> (#[trigger] s.remove(i)[a]) != (
            #[trigger] s.remove(i)[b]),
{
    let t = s.remove(i);
    assert forall|k: int| 0 <= k < t.len() implies #[trigger] t[k] != x by {
        if k < i {
            assert(t[k] == s[k]);
        } else {
            assert(t[k] == s[k + 1]);
        }
    }
    assert forall|d: Seq<char>| d != x implies (t.contains(d) <==> s.contains(d)) by {
        if t.contains(d) {
            let k = choose|k: int| 0 <= k < t.len() && t[k] == d;
            if k < i {
                assert(s[k] == d);
            } else {
                assert(s[k + 1] == d);
            }
        }
        if s.contains(d) {
            let k = choose|k: int| 0 <= k < s.len() && s[k] == d;
            if k < i {
                assert(t[k] == d);
            } else {
                assert(t[k - 1] == d);
            }
        }
    }
    assert forall|a: int, b: int| 0 <= a < b < t.len() implies (#[trigger] t[a]) != (
    #[trigger] t[b]) by {
        let sa = if a < i { a } else { a + 1 };
        let sb = if b < i { b } else { b + 1 };
        assert(t[a] == s[sa]);
        assert(t[b] == s[sb]);
    }
}

/// Pushing a value onto a sequence filters to the old filtering, plus the
/// value if it passes.
proof fn lemma_filter_push<T>(s: Seq<T>, x: T, p: spec_fn(T) -> bool)
    ensures
        s.push(x).filter(p) == if p(x) { s.filter(p).push(x) } else { s.filter(p) },
{
    reveal(Seq::filter);
    assert(s.push(x).drop_last() =~= s);
    assert(s.push(x).last() == x);
    if p(x) {
        assert(s.push(x).filter(p) =~= s.filter(p).push(x));
    } else {
        assert(s.push(x).filter(p) =~= s.filter(p));
    }
}

/// Every transition keeps the session well-formed.
pub proof fn lemma_step_preserves_wf(m: SessionModel, input: SessionInput)
    requires
        model_wf(m),
    ensures
        model_wf(step_model(m, input).post),
{
    if m.phase is Connected {
        match input {
            SessionInput::SlotChanged(s) => {
                lemma_filter_push(m.observed, s@, |v: Seq<char>| v.len() != 0);
            },
            _ => {},
        }
    }
}

/// Every run keeps the session well-formed.
pub proof fn lemma_run_preserves_wf(m: SessionModel, inputs: Seq<SessionInput>)
    requires
        model_wf(m),
    ensures
        model_wf(run_model(m, inputs)),
    decreases inputs.len(),
{
    if inputs.len() > 0 {
        lemma_step_preserves_wf(m, inputs[0]);
        lemma_run_preserves_wf(step_model(m, inputs[0]).post, inputs.drop_first());
    }
}

/// The UI's three-state connectivity indicator.
#[derive(Clone, Copy, Debug, PartialEq, Eq, Structural)]
pub enum AdbConnectivity {
    Connected,
    Connecting,
    Disconnected,
}

/// How the indicator reacts to a lifecycle event, and whether the UI resets
/// the outgoing slot to the sentinel so a later session ignores stale text.
pub open spec fn spec_apply_lifecycle_event(
    state: AdbConnectivity,
    event: AdbServerRecipeEvent,
) -> (AdbConnectivity, bool) {
    match event {
        AdbServerRecipeEvent::Connected => (AdbConnectivity::Connected, false),
        AdbServerRecipeEvent::Disconnected => (AdbConnectivity::Disconnected, true),
        AdbServerRecipeEvent::Error => (AdbConnectivity::Disconnected, false),
    }
}

/// Drive the connectivity indicator by a lifecycle event: `Connected` lights
/// it, a terminal event clears it, and a clean disconnect also resets the
/// outgoing slot (the second component).
pub fn apply_lifecycle_event(state: AdbConnectivity, event: AdbServerRecipeEvent) -> (r: (
    AdbConnectivity,
    bool,
))
    ensures
        r == spec_apply_lifecycle_event(state, event),
        is_terminal_event(event) ==> r.0 is Disconnected,
{
    match event {
        AdbServerRecipeEvent::Connected => (AdbConnectivity::Connected, false),
        AdbServerRecipeEvent::Disconnected => (AdbConnectivity::Disconnected, true),
        AdbServerRecipeEvent::Error => (AdbConnectivity::Disconnected, false),
    }
}

/// What the connect checkbox does in each state.
pub open spec fn spec_toggle_connect(state: AdbConnectivity) -> (AdbConnectivity, bool) {
    match state {
        AdbConnectivity::Disconnected => (AdbConnectivity::Connecting, false),
        AdbConnectivity::Connecting => (AdbConnectivity::Connecting, false),
        AdbConnectivity::Connected => (AdbConnectivity::Disconnected, true),
    }
}

/// The user clicked the connect checkbox: disconnected arms a new session,
/// connected tears the current one down and resets the outgoing slot (the
/// second component), and a click while still connecting changes nothing.
pub fn toggle_connect(state: AdbConnectivity) -> (r: (AdbConnectivity, bool))
    ensures
        r == spec_toggle_connect(state),
{
    match state {
        AdbConnectivity::Disconnected => (AdbConnectivity::Connecting, false),
        AdbConnectivity::Connecting => (AdbConnectivity::Connecting, false),
        AdbConnectivity::Connected => (AdbConnectivity::Disconnected, true),
    }
}

/// `es` contains one terminal event and no other.
pub open spec fn exactly_one_terminal(es: Seq<AdbServerRecipeEvent>) -> bool {
    exists|i: int|
        #![trigger es[i]]
        0 <= i < es.len() && is_terminal_event(es[i]) && (forall|j: int|
            0 <= j < es.len() && j != i ==> !is_terminal_event(#[trigger] es[j]))
}

/// Once a session is finished, any further input produces no event, asks for
/// no work, and changes nothing: `Disconnected` and `Error` are terminal.
pub proof fn law_terminal_step_is_silent(m: SessionModel, input: SessionInput)
    requires
        model_wf(m),
        m.phase is Finished,
    ensures
        step_model(m, input).post == m,
        step_model(m, input).event is None,
        step_model(m, input).action is Stop,
{
}

/// Once a session is finished, no whole run of further inputs moves it: the
/// event trace stays exactly as it was.
pub proof fn law_terminal_events_are_final(m: SessionModel, inputs: Seq<SessionInput>)
    requires
        model_wf(m),
        m.phase is Finished,
    ensures
        run_model(m, inputs) == m,
    decreases inputs.len(),
{
    if inputs.len() > 0 {
        law_terminal_events_are_final(m, inputs.drop_first());
    }
}

/// Whenever a step emits `Disconnected` or `Error`, the session it leaves
/// behind is finished.
pub proof fn law_terminal_event_finishes(m: SessionModel, input: SessionInput)
    requires
        model_wf(m),
    ensures
        (match step_model(m, input).event {
            Some(e) => is_terminal_event(e) ==> step_model(m, input).post.phase is Finished,
            None => true,
        }),
{
}

/// However a session ends - setup failure, pipe failure, process death, or
/// the UI closing the slot at any point - once it is finished it has emitted
/// exactly one terminal event and holds no live subprocess.
pub proof fn law_single_terminal_event_no_leak(device: Seq<char>, inputs: Seq<SessionInput>)
    requires
        run_model(initial_model(device), inputs).phase is Finished,
    ensures
        exactly_one_terminal(run_model(initial_model(device), inputs).events),
        !run_model(initial_model(device), inputs).child_live,
{
    reveal(Seq::filter);
    lemma_run_preserves_wf(initial_model(device), inputs);
    let es = run_model(initial_model(device), inputs).events;
    if es.len() == 1 {
        assert(is_terminal_event(es[0]));
    } else {
        assert(is_terminal_event(es[1]));
    }
}

/// If the deployment push step reports failure, the session emits exactly
/// one `Error`, and no remote shell is spawned then or ever after.
pub proof fn law_push_failure_never_spawns(m: SessionModel, later: Seq<SessionInput>)
    requires
        model_wf(m),
        m.phase is Pushing,
    ensures
        ({
            let after = step_model(m, SessionInput::PushDone(false));
            &&& after.event == Some(AdbServerRecipeEvent::Error)
            &&& after.post.events =~= seq![AdbServerRecipeEvent::Error]
            &&& !after.post.spawn_requested
            &&& !run_model(after.post, later).spawn_requested
            &&& run_model(after.post, later).events =~= seq![AdbServerRecipeEvent::Error]
        }),
{
    let after = step_model(m, SessionInput::PushDone(false));
    lemma_step_preserves_wf(m, SessionInput::PushDone(false));
    law_terminal_events_are_final(after.post, later);
}

/// If the subprocess exits unexpectedly while connected, exactly one
/// `Disconnected` is emitted, and afterwards nothing more is relayed and no
/// write is ever requested again.
pub proof fn law_process_exit_is_clean(
    m: SessionModel,
    later: Seq<SessionInput>,
    next: SessionInput,
)
    requires
        model_wf(m),
        m.phase is Connected,
    ensures
        ({
            let after = step_model(m, SessionInput::ProcessExited);
            &&& after.event == Some(AdbServerRecipeEvent::Disconnected)
            &&& after.post.events =~= seq![
                AdbServerRecipeEvent::Connected,
                AdbServerRecipeEvent::Disconnected,
            ]
            &&& exactly_one_terminal(after.post.events)
            &&& run_model(after.post, later).sent == m.sent
            &&& !(step_model(run_model(after.post, later), next).action is Write)
        }),
{
    let after = step_model(m, SessionInput::ProcessExited);
    lemma_step_preserves_wf(m, SessionInput::ProcessExited);
    law_terminal_events_are_final(after.post, later);
    assert(is_terminal_event(after.post.events[1]));
}

/// `Connected` is emitted exactly once, and before any command is relayed.
pub proof fn law_connected_before_relay(m: SessionModel)
    requires
        model_wf(m),
        m.sent.len() > 0,
    ensures
        m.events.len() > 0,
        m.events[0] is Connected,
        forall|i: int| 1 <= i < m.events.len() ==> !((#[trigger] m.events[i]) is Connected),
{
    m.observed.lemma_filter_len(|v: Seq<char>| v.len() != 0);
}

/// What the session relays to the subprocess is a subsequence of what the UI
/// wrote to the slot, in the original relative order, and the empty-string
/// sentinel is never forwarded.
pub proof fn law_relay_subsequence(sl: SlotModel, m: SessionModel)
    requires
        slot_wf(sl),
        model_wf(m),
        m.observed == sl.taken,
    ensures
        is_subsequence_of(m.sent, sl.history),
        forall|i: int| 0 <= i < m.sent.len() ==> (#[trigger] m.sent[i]).len() != 0,
{
    let p = |v: Seq<char>| v.len() != 0;
    lemma_filter_is_subsequence(m.observed, p);
    lemma_taken_is_subsequence_of_history(sl);
    lemma_subsequence_transitive(m.sent, m.observed, sl.history);
    assert forall|i: int| 0 <= i < m.sent.len() implies (#[trigger] m.sent[i]).len() != 0 by {
        m.observed.lemma_filter_pred(p, i);
    }
}

} // verus!
