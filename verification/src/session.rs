//! The session with the audio server: what each answer of the server means
//! for the connection, for a pending request and for the guarded use of a
//! virtual sink. The caller talks to the server; the decisions are made here.

use crate::sink::{push_signed_decimal, signed_decimal, SinkSpec};
use vstd::prelude::*;

verus! {

/// Why a session with the audio server ended in failure.
#[derive(Clone, Copy, Debug, PartialEq, Eq, Structural)]
pub enum SessionError {
    /// The event loop was told to quit while an answer was awaited.
    MainloopQuit,
    /// An iteration of the event loop failed with the given code.
    IterationFailed(i32),
    /// The connection ended up failed or terminated instead of ready.
    ConnectionFailed,
    /// The server answered a load request with the failure sentinel.
    ModuleInitFailed,
}

impl SessionError {
    /// What the failure is reported as.
    pub open spec fn message_spec(self) -> Seq<char> {
        match self {
            SessionError::MainloopQuit => "Pulse Mainloop exited unexpectedly!"@,
            SessionError::IterationFailed(code) => "Pulse Mainloop iteration failed with code "@
                + signed_decimal(code as int),
            SessionError::ConnectionFailed => "Pulse context failed terminated!"@,
            SessionError::ModuleInitFailed => "Module initialization failed"@,
        }
    }

    /// What the failure is reported as.
    pub fn message(&self) -> (message: String)
        ensures
            message@ == self.message_spec(),
    {
        match self {
            SessionError::MainloopQuit => "Pulse Mainloop exited unexpectedly!".to_owned(),
            SessionError::IterationFailed(code) => {
                let mut message = "Pulse Mainloop iteration failed with code ".to_owned();
                push_signed_decimal(&mut message, *code);
                message
            },
            SessionError::ConnectionFailed => "Pulse context failed terminated!".to_owned(),
            SessionError::ModuleInitFailed => "Module initialization failed".to_owned(),
        }
    }
}

/// How one iteration of the audio server's event loop ended.
#[derive(Clone, Copy, Debug, PartialEq, Eq, Structural)]
pub enum IterateOutcome {
    /// The iteration went through and dispatched this many sources.
    Success(u32),
    /// The event loop was told to quit, with this return value.
    Quit(i32),
    /// The iteration failed with this code.
    Failed(i32),
}

/// The states that a connection to the audio server goes through.
#[derive(Clone, Copy, Debug, PartialEq, Eq, Structural)]
pub enum ContextState {
    Unconnected,
    Connecting,
    Authorizing,
    SettingName,
    Ready,
    Failed,
    Terminated,
}

/// What to do after an iteration of the event loop while connecting.
#[derive(Clone, Copy, Debug, PartialEq, Eq, Structural)]
pub enum ConnectStep {
    /// The connection is still being set up: iterate again.
    Pending,
    /// The connection is ready.
    Connected,
    /// The connection cannot be had. There is no retry.
    Failed(SessionError),
}

/// What an iteration of the event loop means for the one who waits on it.
pub open spec fn iteration_result(outcome: IterateOutcome) -> Result<(), SessionError> {
    match outcome {
        IterateOutcome::Success(_) => Ok(()),
        IterateOutcome::Quit(_) => Err(SessionError::MainloopQuit),
        IterateOutcome::Failed(code) => Err(SessionError::IterationFailed(code)),
    }
}

/// What to do while connecting, after an iteration that ended in `outcome`
/// left the connection in `state`.
pub open spec fn connect_step(outcome: IterateOutcome, state: ContextState) -> ConnectStep {
    match iteration_result(outcome) {
        Err(error) => ConnectStep::Failed(error),
        Ok(_) => match state {
            ContextState::Ready => ConnectStep::Connected,
            ContextState::Failed | ContextState::Terminated => ConnectStep::Failed(
                SessionError::ConnectionFailed,
            ),
            _ => ConnectStep::Pending,
        },
    }
}

/// Tells whether an iteration of the event loop went through.
pub fn iterate_mainloop(outcome: IterateOutcome) -> (result: Result<(), SessionError>)
    ensures
        result == iteration_result(outcome),
{
    match outcome {
        IterateOutcome::Success(_) => Ok(()),
        IterateOutcome::Quit(_) => Err(SessionError::MainloopQuit),
        IterateOutcome::Failed(code) => Err(SessionError::IterationFailed(code)),
    }
}

/// Decides how connecting goes on after one iteration of the event loop:
/// a failed iteration ends it, else the state of the connection decides.
pub fn create(outcome: IterateOutcome, state: ContextState) -> (step: ConnectStep)
    ensures
        step == connect_step(outcome, state),
{
    match iterate_mainloop(outcome) {
        Err(error) => ConnectStep::Failed(error),
        Ok(_) => match state {
            ContextState::Ready => ConnectStep::Connected,
            ContextState::Failed | ContextState::Terminated => ConnectStep::Failed(
                SessionError::ConnectionFailed,
            ),
            _ => ConnectStep::Pending,
        },
    }
}

/// The place where the answer to one pending request arrives. The first answer
/// stays; later ones are ignored.
pub struct ReplySlot<A> {
    reply: Option<A>,
}

/// What a slot holds after `replies` arrived, in order, at a slot that held
/// `held`.
pub open spec fn settled<A>(held: Option<A>, replies: Seq<A>) -> Option<A>
    decreases replies.len(),
{
    if replies.len() == 0 {
        held
    } else {
        settled(
            if held is Some {
                held
            } else {
                Some(replies[0])
            },
            replies.drop_first(),
        )
    }
}

impl<A> View for ReplySlot<A> {
    type V = Option<A>;

    closed spec fn view(&self) -> Option<A> {
        self.reply
    }
}

impl<A> ReplySlot<A> {
    /// A slot that waits for its answer.
    pub fn new() -> (slot: Self)
        ensures
            slot@ is None,
    {
        ReplySlot { reply: None }
    }

    /// Takes an answer from the server. It is kept only if none came before.
    pub fn offer(&mut self, reply: A)
        ensures
            final(self)@ == settled(old(self)@, seq![reply]),
    {
        assert(seq![reply].drop_first().len() == 0);
        assert(settled(self@, seq![reply]) == if self@ is Some {
            self@
        } else {
            Some(reply)
        }) by {
            reveal_with_fuel(settled, 2);
        }
        if self.reply.is_none() {
            self.reply = Some(reply);
        }
    }

    /// Whether the answer has arrived.
    pub fn is_resolved(&self) -> (resolved: bool)
        ensures
            resolved == (self@ is Some),
    {
        self.reply.is_some()
    }

    /// Hands out the answer, if it has arrived.
    pub fn take(self) -> (reply: Option<A>)
        ensures
            reply == self@,
    {
        self.reply
    }
}

/// The first answer wins: a waiting slot ends up with the first of the
/// answers that arrive, however many follow.
pub proof fn lemma_first_reply_wins<A>(replies: Seq<A>)
    ensures
        settled(None, replies) == if replies.len() == 0 {
            None
        } else {
            Some(replies[0])
        },
{
    if replies.len() > 0 {
        lemma_settled_keeps(replies[0], replies.drop_first());
    }
}

/// A slot that holds an answer holds it for good.
pub proof fn lemma_settled_keeps<A>(held: A, replies: Seq<A>)
    ensures
        settled(Some(held), replies) == Some(held),
    decreases replies.len(),
{
    if replies.len() > 0 {
        lemma_settled_keeps(held, replies.drop_first());
    }
}

/// What to do while the answer to a request is awaited.
#[derive(Clone, Copy, Debug, PartialEq, Eq, Structural)]
pub enum WaitStep {
    /// The answer has arrived.
    Done,
    /// The answer is still out: run one blocking iteration of the event loop.
    Iterate,
    /// The event loop failed while the answer was awaited.
    Failed(SessionError),
}

/// What to do while an answer is awaited, where `resolved` tells whether it
/// has arrived and `iterated` how the last iteration of the event loop
/// ended, if there was one since the request was made.
pub open spec fn next_wait_step(resolved: bool, iterated: Option<IterateOutcome>) -> WaitStep {
    match iterated {
        Some(outcome) if iteration_result(outcome) is Err => WaitStep::Failed(
            iteration_result(outcome)->Err_0,
        ),
        _ => if resolved {
            WaitStep::Done
        } else {
            WaitStep::Iterate
        },
    }
}

/// Decides how waiting for an answer goes on: a failed iteration ends it,
/// an answer that has arrived ends it in good order, and the event loop is
/// iterated as long as neither is the case.
pub fn wait_step(resolved: bool, iterated: Option<IterateOutcome>) -> (step: WaitStep)
    ensures
        step == next_wait_step(resolved, iterated),
{
    match iterated {
        Some(outcome) => match iterate_mainloop(outcome) {
            Err(error) => WaitStep::Failed(error),
            Ok(_) => if resolved {
                WaitStep::Done
            } else {
                WaitStep::Iterate
            },
        },
        None => if resolved {
            WaitStep::Done
        } else {
            WaitStep::Iterate
        },
    }
}

/// One answer of the server to the question who owns the sink of a given name.
#[derive(Clone, Copy, Debug, PartialEq, Eq, Structural)]
pub enum SinkInfoReply {
    /// Such a sink exists; the module that owns it may be unknown.
    Item { owner_module: Option<u32> },
    /// No sink is left to tell of.
    End,
    /// The question failed.
    Error,
}

/// What an answer tells of the sink asked for: `None` where it does not
/// exist, `Some(None)` where it exists and its owner is unknown, and
/// `Some(Some(id))` where module `id` owns it.
pub fn get_sink_owner_module_by_name(reply: SinkInfoReply) -> (owner: Option<Option<u32>>)
    ensures
        owner == match reply {
            SinkInfoReply::Item { owner_module } => Some(owner_module),
            SinkInfoReply::End | SinkInfoReply::Error => None::<Option<u32>>,
        },
{
    match reply {
        SinkInfoReply::Item { owner_module } => Some(owner_module),
        SinkInfoReply::End | SinkInfoReply::Error => None,
    }
}

/// The index that the server answers a load request with when it failed.
pub const INVALID_INDEX: u32 = 0xFFFF_FFFF;

/// Reads the server's answer to a load request: the handle of the loaded
/// module, or a failure where the answer is the sentinel with all bits set.
pub fn load_module(reply: u32) -> (module: Result<u32, SessionError>)
    ensures
        module == if reply == INVALID_INDEX {
            Err::<u32, SessionError>(SessionError::ModuleInitFailed)
        } else {
            Ok(reply)
        },
{
    if reply == INVALID_INDEX {
        Err(SessionError::ModuleInitFailed)
    } else {
        Ok(reply)
    }
}

/// The name of the audio server's module that provides a virtual sink.
pub open spec fn null_sink_module() -> Seq<char> {
    "module-null-sink"@
}

/// The request that opens the guarded use of a virtual sink.
#[derive(Debug, PartialEq, Eq)]
pub struct LoadRequest {
    pub module_name: String,
    pub arguments: String,
}

/// How the guarded body ended.
#[derive(Debug, PartialEq, Eq)]
pub enum BodyOutcome<T> {
    /// The body came back with its own result, a success or a failure.
    Returned(T),
    /// The body was cut short by an abnormal termination.
    Panicked,
}

/// Why the guarded use of a virtual sink did not hand out the body's result.
#[derive(Debug, PartialEq, Eq)]
pub enum GuardFailure<T> {
    /// The module could not be loaded. The body did not run.
    Load(SessionError),
    /// The body ended abnormally. The module was unloaded after it.
    BodyPanicked,
    /// Unloading failed, after the body had ended as `body` tells.
    Unload { cause: SessionError, body: BodyOutcome<T> },
}

impl<T> GuardFailure<T> {
    /// What the failure is reported as: the failure of the session where
    /// there was one, else that the body ended abnormally.
    pub open spec fn message_spec(self) -> Seq<char> {
        match self {
            GuardFailure::Load(cause) => cause.message_spec(),
            GuardFailure::BodyPanicked => "Program panicked while using Pulse module"@,
            GuardFailure::Unload { cause, .. } => cause.message_spec(),
        }
    }

    /// What the failure is reported as.
    pub fn message(&self) -> (message: String)
        ensures
            message@ == self.message_spec(),
    {
        match self {
            GuardFailure::Load(cause) => cause.message(),
            GuardFailure::BodyPanicked => "Program panicked while using Pulse module".to_owned(),
            GuardFailure::Unload { cause, .. } => cause.message(),
        }
    }
}

/// Where the guarded use of a virtual sink stands.
#[derive(Debug, PartialEq, Eq)]
pub enum NullSinkGuard<T> {
    /// The load request is with the server.
    Loading,
    /// The module is loaded and the body runs.
    Running { module: u32 },
    /// The body has ended and the unload request is with the server.
    Unloading { module: u32, body: BodyOutcome<T> },
    /// Nothing is left to do.
    Finished,
}

/// What the caller reports to the guard.
#[derive(Debug, PartialEq, Eq)]
pub enum GuardEvent<T> {
    /// The server answered the load request, or waiting for the answer failed.
    LoadReplied(Result<u32, SessionError>),
    /// The body ended.
    BodyFinished(BodyOutcome<T>),
    /// The server answered the unload request, or waiting for the answer
    /// failed.
    UnloadReplied(Result<bool, SessionError>),
}

/// What the guard asks of the caller next.
#[derive(Debug, PartialEq, Eq)]
pub enum GuardAction<T> {
    /// Run the body.
    RunBody,
    /// Ask the server to unload the module.
    UnloadModule { module: u32 },
    /// Hand this out as the result of the guarded use.
    Finish(Result<T, GuardFailure<T>>),
    /// The event does not belong here; nothing changes.
    Ignore,
}

/// The result of a guarded use whose module was unloaded without failure.
pub open spec fn body_result<T>(body: BodyOutcome<T>) -> Result<T, GuardFailure<T>> {
    match body {
        BodyOutcome::Returned(value) => Ok(value),
        BodyOutcome::Panicked => Err(GuardFailure::BodyPanicked),
    }
}

impl<T> NullSinkGuard<T> {
    /// The state that follows `self` on `event`.
    pub open spec fn next_state(self, event: GuardEvent<T>) -> NullSinkGuard<T> {
        match (self, event) {
            (NullSinkGuard::Loading, GuardEvent::LoadReplied(Ok(reply))) => if reply
                == INVALID_INDEX {
                NullSinkGuard::Finished
            } else {
                NullSinkGuard::Running { module: reply }
            },
            (NullSinkGuard::Loading, GuardEvent::LoadReplied(Err(_))) => NullSinkGuard::Finished,
            (NullSinkGuard::Running { module }, GuardEvent::BodyFinished(body)) => {
                NullSinkGuard::Unloading { module, body }
            },
            (NullSinkGuard::Unloading { .. }, GuardEvent::UnloadReplied(_)) => {
                NullSinkGuard::Finished
            },
            (state, _) => state,
        }
    }

    /// What `self` asks for on `event`.
    pub open spec fn action(self, event: GuardEvent<T>) -> GuardAction<T> {
        match (self, event) {
            (NullSinkGuard::Loading, GuardEvent::LoadReplied(Ok(reply))) => if reply
                == INVALID_INDEX {
                GuardAction::Finish(Err(GuardFailure::Load(SessionError::ModuleInitFailed)))
            } else {
                GuardAction::RunBody
            },
            (NullSinkGuard::Loading, GuardEvent::LoadReplied(Err(error))) => GuardAction::Finish(
                Err(GuardFailure::Load(error)),
            ),
            (NullSinkGuard::Running { module }, GuardEvent::BodyFinished(_)) => {
                GuardAction::UnloadModule { module }
            },
            (NullSinkGuard::Unloading { body, .. }, GuardEvent::UnloadReplied(Ok(_))) => {
                GuardAction::Finish(body_result(body))
            },
            (NullSinkGuard::Unloading { body, .. }, GuardEvent::UnloadReplied(Err(cause))) => {
                GuardAction::Finish(Err(GuardFailure::Unload { cause, body }))
            },
            _ => GuardAction::Ignore,
        }
    }

    /// The state reached from `self` by `events`, in order.
    pub open spec fn end(self, events: Seq<GuardEvent<T>>) -> NullSinkGuard<T>
        decreases events.len(),
    {
        if events.len() == 0 {
            self
        } else {
            self.next_state(events[0]).end(events.drop_first())
        }
    }

    /// What the guard asks for, in order, while `events` take it from `self`
    /// to the end.
    pub open spec fn actions(self, events: Seq<GuardEvent<T>>) -> Seq<GuardAction<T>>
        decreases events.len(),
    {
        if events.len() == 0 {
            Seq::empty()
        } else {
            seq![self.action(events[0])] + self.next_state(events[0]).actions(
                events.drop_first(),
            )
        }
    }

    /// The number of loaded modules that this state still has to unload.
    pub open spec fn owed(self) -> nat {
        if self is Running {
            1
        } else {
            0
        }
    }

    /// Opens the guarded use of the sink that `sink_spec` describes: the
    /// guard waits for the answer to the load request that is handed out.
    pub fn using_null_sink(sink_spec: &SinkSpec) -> (opened: (NullSinkGuard<T>, LoadRequest))
        ensures
            opened.0 is Loading,
            opened.1.module_name@ == null_sink_module(),
            opened.1.arguments@ == crate::sink::sink_arguments(
                sink_spec.sink_name@,
                sink_spec.description(),
                sink_spec.audio_format,
            ),
    {
        let request = LoadRequest {
            module_name: "module-null-sink".to_owned(),
            arguments: sink_spec.build_sink_arguments(),
        };
        (NullSinkGuard::Loading, request)
    }

    /// Takes one event and tells what to do next. A loaded module is always
    /// unloaded once the body has ended, however it ended, and the result is
    /// handed out only after the answer to the unload request.
    pub fn step(self, event: GuardEvent<T>) -> (next: (NullSinkGuard<T>, GuardAction<T>))
        ensures
            next.0 == self.next_state(event),
            next.1 == self.action(event),
    {
        match (self, event) {
            (NullSinkGuard::Loading, GuardEvent::LoadReplied(Ok(reply))) => match load_module(
                reply,
            ) {
                Ok(module) => (NullSinkGuard::Running { module }, GuardAction::RunBody),
                Err(error) => (
                    NullSinkGuard::Finished,
                    GuardAction::Finish(Err(GuardFailure::Load(error))),
                ),
            },
            (NullSinkGuard::Loading, GuardEvent::LoadReplied(Err(error))) => (
                NullSinkGuard::Finished,
                GuardAction::Finish(Err(GuardFailure::Load(error))),
            ),
            (NullSinkGuard::Running { module }, GuardEvent::BodyFinished(body)) => (
                NullSinkGuard::Unloading { module, body },
                GuardAction::UnloadModule { module },
            ),
            (NullSinkGuard::Unloading { body, .. }, GuardEvent::UnloadReplied(Ok(_))) => {
                let result = match body {
                    BodyOutcome::Returned(value) => Ok(value),
                    BodyOutcome::Panicked => Err(GuardFailure::BodyPanicked),
                };
                (NullSinkGuard::Finished, GuardAction::Finish(result))
            },
            (NullSinkGuard::Unloading { body, .. }, GuardEvent::UnloadReplied(Err(cause))) => (
                NullSinkGuard::Finished,
                GuardAction::Finish(Err(GuardFailure::Unload { cause, body })),
            ),
            (state, _) => (state, GuardAction::Ignore),
        }
    }
}

/// The number of modules loaded in a run: each successful load is followed
/// by the request to run the body.
pub open spec fn loads<T>(actions: Seq<GuardAction<T>>) -> nat
    decreases actions.len(),
{
    if actions.len() == 0 {
        0
    } else {
        (if actions[0] is RunBody {
            1nat
        } else {
            0nat
        }) + loads(actions.drop_first())
    }
}

/// The number of unload requests in a run.
pub open spec fn unloads<T>(actions: Seq<GuardAction<T>>) -> nat
    decreases actions.len(),
{
    if actions.len() == 0 {
        0
    } else {
        (if actions[0] is UnloadModule {
            1nat
        } else {
            0nat
        }) + unloads(actions.drop_first())
    }
}

/// Loads and unloads balance over every run: what was loaded, and what the
/// starting state still owed, is either unloaded or still owed at the end.
pub proof fn lemma_unloads_balance_loads<T>(state: NullSinkGuard<T>, events: Seq<GuardEvent<T>>)
    ensures
        loads(state.actions(events)) + state.owed() == unloads(state.actions(events)) + state.end(
            events,
        ).owed(),
    decreases events.len(),
{
    if events.len() > 0 {
        let next = state.next_state(events[0]);
        let rest = next.actions(events.drop_first());
        lemma_unloads_balance_loads(next, events.drop_first());
        assert(state.actions(events).drop_first() =~= rest);
    }
}

/// A guarded use loads at most one module, and asks for exactly one unload
/// for every module it loaded as soon as the body has ended: whatever the
/// server answers and however the body ends, a run that is not left in the
/// middle of the body has as many unloads as loads.
pub proof fn lemma_one_unload_per_load<T>(events: Seq<GuardEvent<T>>)
    ensures
        loads(NullSinkGuard::<T>::Loading.actions(events)) <= 1,
        !(NullSinkGuard::<T>::Loading.end(events) is Running) ==> unloads(
            NullSinkGuard::<T>::Loading.actions(events),
        ) == loads(NullSinkGuard::<T>::Loading.actions(events)),
{
    lemma_unloads_balance_loads(NullSinkGuard::<T>::Loading, events);
    lemma_loads_once(NullSinkGuard::<T>::Loading, events);
}

/// Only a guard that waits for the answer to its load request can load a
/// module, and it does so at most once.
pub proof fn lemma_loads_once<T>(state: NullSinkGuard<T>, events: Seq<GuardEvent<T>>)
    ensures
        loads(state.actions(events)) <= if state is Loading {
            1nat
        } else {
            0nat
        },
    decreases events.len(),
{
    if events.len() > 0 {
        let next = state.next_state(events[0]);
        lemma_loads_once(next, events.drop_first());
        assert(state.actions(events).drop_first() =~= next.actions(events.drop_first()));
    }
}

/// A guarded use from the answer to the load request to its end: the body
/// runs once, the module that was loaded is the one that is unloaded, and
/// the result is handed out last, however the body ended and whatever the
/// server answers to the unload request.
pub proof fn lemma_guarded_use_in_order<T>(
    module: u32,
    body: BodyOutcome<T>,
    unloaded: Result<bool, SessionError>,
)
    requires
        module != INVALID_INDEX,
    ensures
        NullSinkGuard::<T>::Loading.actions(
            seq![
                GuardEvent::LoadReplied(Ok(module)),
                GuardEvent::BodyFinished(body),
                GuardEvent::UnloadReplied(unloaded),
            ],
        ) == seq![
            GuardAction::RunBody,
            GuardAction::UnloadModule { module },
            GuardAction::Finish(
                match unloaded {
                    Ok(_) => body_result(body),
                    Err(cause) => Err(GuardFailure::Unload { cause, body }),
                },
            ),
        ],
        NullSinkGuard::<T>::Loading.end(
            seq![
                GuardEvent::LoadReplied(Ok(module)),
                GuardEvent::BodyFinished(body),
                GuardEvent::UnloadReplied(unloaded),
            ],
        ) is Finished,
{
    let events = seq![
        GuardEvent::<T>::LoadReplied(Ok(module)),
        GuardEvent::BodyFinished(body),
        GuardEvent::UnloadReplied(unloaded),
    ];
    assert(events.drop_first().len() == 2);
    assert(events.drop_first().drop_first().len() == 1);
    assert(events.drop_first().drop_first().drop_first().len() == 0);
    reveal_with_fuel(NullSinkGuard::actions, 4);
    reveal_with_fuel(NullSinkGuard::end, 4);
    assert(NullSinkGuard::<T>::Loading.actions(events) =~= seq![
        GuardAction::RunBody,
        GuardAction::UnloadModule { module },
        GuardAction::Finish(
            match unloaded {
                Ok(_) => body_result(body),
                Err(cause) => Err(GuardFailure::Unload { cause, body }),
            },
        ),
    ]);
}

/// A load that fails ends the guarded use at once: the body does not run
/// and nothing is unloaded.
pub proof fn lemma_failed_load_ends_the_use<T>(reply: Result<u32, SessionError>)
    requires
        reply matches Ok(module) ==> module == INVALID_INDEX,
    ensures
        NullSinkGuard::<T>::Loading.action(GuardEvent::LoadReplied(reply)) is Finish,
        NullSinkGuard::<T>::Loading.action(GuardEvent::LoadReplied(reply))->Finish_0 matches Err(
            GuardFailure::Load(_),
        ),
        NullSinkGuard::<T>::Loading.next_state(GuardEvent::LoadReplied(reply)) is Finished,
        forall|events: Seq<GuardEvent<T>>|
            unloads(#[trigger] NullSinkGuard::<T>::Finished.actions(events)) == 0 && loads(
                NullSinkGuard::<T>::Finished.actions(events),
            ) == 0,
{
    assert forall|events: Seq<GuardEvent<T>>|
        unloads(#[trigger] NullSinkGuard::<T>::Finished.actions(events)) == 0 && loads(
            NullSinkGuard::<T>::Finished.actions(events),
        ) == 0 by {
        lemma_unloads_balance_loads(NullSinkGuard::<T>::Finished, events);
        lemma_loads_once(NullSinkGuard::<T>::Finished, events);
        lemma_finished_stays(events);
    }
}

/// A guard that has finished stays so.
pub proof fn lemma_finished_stays<T>(events: Seq<GuardEvent<T>>)
    ensures
        NullSinkGuard::<T>::Finished.end(events) is Finished,
    decreases events.len(),
{
    if events.len() > 0 {
        lemma_finished_stays(events.drop_first());
    }
}

} // verus!
