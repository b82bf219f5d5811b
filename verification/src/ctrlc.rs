//! The cancellation context: a latch that records whether an interrupt was
//! seen while a guarded body ran, and the bracket that activates it.

use vstd::prelude::*;

verus! {

/// The handle through which a guarded body learns of an interrupt.
///
/// Only an activation makes one, with the flag cleared. The flag can be set
/// and never cleared again.
#[derive(Debug, PartialEq, Eq)]
pub struct CtrlCIgnoredContext {
    received: bool,
}

/// What an activation hands back: whether an interrupt was seen while the
/// body ran, and what the body returned.
#[derive(Debug, PartialEq, Eq)]
pub struct CtrlCIgnoredOutput<A> {
    pub has_received_ctrlc: bool,
    pub output: A,
}

/// The flag after `observations` were fed, in order, to a context whose flag
/// was `received`.
pub open spec fn latched(received: bool, observations: Seq<bool>) -> bool
    decreases observations.len(),
{
    if observations.len() == 0 {
        received
    } else {
        latched(received || observations[0], observations.drop_first())
    }
}

impl CtrlCIgnoredContext {
    /// Whether an interrupt was seen since activation.
    pub closed spec fn received(&self) -> bool {
        self.received
    }

    /// The context that an activation starts with: its flag is cleared.
    pub closed spec fn fresh() -> CtrlCIgnoredContext {
        CtrlCIgnoredContext { received: false }
    }

    /// The flag of a fresh context is cleared, and the flag is all that a
    /// context holds.
    pub proof fn lemma_fresh_is_cleared()
        ensures
            !Self::fresh().received(),
            forall|first: CtrlCIgnoredContext, second: CtrlCIgnoredContext|
                first.received() == second.received() ==> first == second,
    {
    }

    fn new() -> (context: Self)
        ensures
            context == Self::fresh(),
            !context.received(),
    {
        CtrlCIgnoredContext { received: false }
    }

    /// Whether an interrupt was seen since activation. Never blocks.
    pub fn has_received_ctrlc(&self) -> (received: bool)
        ensures
            received == self.received(),
    {
        self.received
    }

    /// Feeds the context what the interrupt source reports at this moment.
    /// A raised interrupt sets the flag; nothing clears it.
    pub fn observe(&mut self, raised: bool)
        ensures
            final(self).received() == latched(old(self).received(), seq![raised]),
    {
        assert(seq![raised].drop_first().len() == 0);
        assert(latched(self.received, seq![raised]) == (self.received || raised)) by {
            reveal_with_fuel(latched, 2);
        }
        if raised {
            self.received = true;
        }
    }
}

/// Feeding two runs of observations one after the other is feeding their
/// concatenation.
pub proof fn lemma_latched_concat(received: bool, first: Seq<bool>, second: Seq<bool>)
    ensures
        latched(latched(received, first), second) == latched(received, first + second),
    decreases first.len(),
{
    if first.len() == 0 {
        assert(first + second =~= second);
    } else {
        assert((first + second).drop_first() =~= first.drop_first() + second);
        lemma_latched_concat(received || first[0], first.drop_first(), second);
    }
}

/// The flag is set after a run of observations exactly if it was set before
/// or one of the observations was a raised interrupt. So an activation in
/// which no interrupt is raised ends with the flag cleared.
pub proof fn lemma_latched_iff_raised(received: bool, observations: Seq<bool>)
    ensures
        latched(received, observations) == (received || exists|at: int|
            0 <= at < observations.len() && observations[at]),
    decreases observations.len(),
{
    if observations.len() > 0 {
        let rest = observations.drop_first();
        lemma_latched_iff_raised(received || observations[0], rest);
        if exists|at: int| 0 <= at < observations.len() && observations[at] {
            let at = choose|at: int| 0 <= at < observations.len() && observations[at];
            if at > 0 {
                assert(rest[at - 1]);
            }
        }
        if exists|at: int| 0 <= at < rest.len() && rest[at] {
            let at = choose|at: int| 0 <= at < rest.len() && rest[at];
            assert(observations[at + 1]);
        }
    }
}

/// Once an interrupt was seen, the flag stays set for the remainder of the
/// activation, whatever is observed afterwards.
pub proof fn lemma_interrupt_is_sticky(before: Seq<bool>, at: int, after: Seq<bool>)
    requires
        0 <= at < before.len(),
        before[at],
    ensures
        latched(false, before),
        latched(false, before + after),
{
    lemma_latched_iff_raised(false, before);
    lemma_latched_concat(false, before, after);
    lemma_latched_iff_raised(latched(false, before), after);
}

/// Where an activation stands.
#[derive(Debug, PartialEq, Eq)]
pub enum Activation<H, A> {
    /// The interrupt handler is being put in place.
    Installing,
    /// The handler is in place and the body runs; `previous` is what undoes
    /// the handler.
    Running { previous: H },
    /// The body has ended and the handler is being taken out again.
    Restoring { context: CtrlCIgnoredContext, output: A },
    /// The handler is out and the interrupt source is looked at a last time.
    Recording { context: CtrlCIgnoredContext, output: A },
    /// Nothing is left to do.
    Finished,
}

/// What the caller reports to an activation.
#[derive(Debug, PartialEq, Eq)]
pub enum ActivationEvent<H, A, E> {
    /// Putting the handler in place succeeded, with what undoes it, or failed.
    Installed(Result<H, E>),
    /// The body ended: it gives back the context and its own result.
    BodyFinished(CtrlCIgnoredContext, A),
    /// Taking the handler out succeeded or failed.
    Restored(Result<(), E>),
    /// The interrupt source was looked at: whether it has seen an interrupt.
    Polled(bool),
}

/// What an activation asks of the caller next.
#[derive(Debug, PartialEq, Eq)]
pub enum ActivationAction<H, A, E> {
    /// Run the body with this context.
    RunBody(CtrlCIgnoredContext),
    /// Undo the handler with this.
    Restore(H),
    /// Look at the interrupt source.
    Poll,
    /// Hand this out as the result of the activation.
    Finish(Result<CtrlCIgnoredOutput<A>, E>),
    /// The event does not belong here; nothing changes.
    Ignore,
}

impl<H, A> Activation<H, A> {
    /// The state that follows `self` on `event`.
    pub open spec fn next_state<E>(self, event: ActivationEvent<H, A, E>) -> Activation<H, A> {
        match (self, event) {
            (Activation::Installing, ActivationEvent::Installed(Ok(previous))) => {
                Activation::Running { previous }
            },
            (Activation::Installing, ActivationEvent::Installed(Err(_))) => Activation::Finished,
            (Activation::Running { .. }, ActivationEvent::BodyFinished(context, output)) => {
                Activation::Restoring { context, output }
            },
            (Activation::Restoring { context, output }, ActivationEvent::Restored(Ok(_))) => {
                Activation::Recording { context, output }
            },
            (Activation::Restoring { .. }, ActivationEvent::Restored(Err(_))) => {
                Activation::Finished
            },
            (Activation::Recording { .. }, ActivationEvent::Polled(_)) => Activation::Finished,
            (state, _) => state,
        }
    }

    /// What `self` asks for on `event`.
    pub open spec fn action<E>(self, event: ActivationEvent<H, A, E>) -> ActivationAction<
        H,
        A,
        E,
    > {
        match (self, event) {
            (Activation::Installing, ActivationEvent::Installed(Ok(_))) => {
                ActivationAction::RunBody(CtrlCIgnoredContext::fresh())
            },
            (Activation::Installing, ActivationEvent::Installed(Err(error))) => {
                ActivationAction::Finish(Err(error))
            },
            (Activation::Running { previous }, ActivationEvent::BodyFinished(_, _)) => {
                ActivationAction::Restore(previous)
            },
            (Activation::Restoring { .. }, ActivationEvent::Restored(Ok(_))) => {
                ActivationAction::Poll
            },
            (Activation::Restoring { .. }, ActivationEvent::Restored(Err(error))) => {
                ActivationAction::Finish(Err(error))
            },
            (Activation::Recording { context, output }, ActivationEvent::Polled(raised)) => {
                ActivationAction::Finish(
                    Ok(
                        CtrlCIgnoredOutput {
                            has_received_ctrlc: latched(context.received(), seq![raised]),
                            output,
                        },
                    ),
                )
            },
            _ => ActivationAction::Ignore,
        }
    }

    /// The state reached from `self` by `events`, in order.
    pub open spec fn end<E>(self, events: Seq<ActivationEvent<H, A, E>>) -> Activation<H, A>
        decreases events.len(),
    {
        if events.len() == 0 {
            self
        } else {
            self.next_state(events[0]).end(events.drop_first())
        }
    }

    /// What the activation asks for, in order, while `events` take it from
    /// `self` to the end.
    pub open spec fn actions<E>(self, events: Seq<ActivationEvent<H, A, E>>) -> Seq<
        ActivationAction<H, A, E>,
    >
        decreases events.len(),
    {
        if events.len() == 0 {
            Seq::empty()
        } else {
            seq![self.action(events[0])] + self.next_state(events[0]).actions(
                events.drop_first(),
            )
        }
    }

    /// An activation before its first step: the handler is to be put in
    /// place.
    pub fn new() -> (activation: Activation<H, A>)
        ensures
            activation is Installing,
    {
        Activation::Installing
    }

    /// Takes one event and tells what to do next.
    ///
    /// The body runs only once the handler is in place, with the flag
    /// cleared. The handler is taken out as soon as the body has ended, with
    /// what putting it in place gave. The interrupt source is looked at after
    /// that, so that an interrupt that came at the very end is not missed, and
    /// the record tells of an interrupt where the body has seen one or the
    /// last look finds one. A failure to put the handler in place or to take
    /// it out ends the activation at once; neither is tried again.
    pub fn step<E>(self, event: ActivationEvent<H, A, E>) -> (next: (
        Activation<H, A>,
        ActivationAction<H, A, E>,
    ))
        ensures
            next.0 == self.next_state(event),
            next.1 == self.action(event),
    {
        match (self, event) {
            (Activation::Installing, ActivationEvent::Installed(Ok(previous))) => (
                Activation::Running { previous },
                ActivationAction::RunBody(CtrlCIgnoredContext::new()),
            ),
            (Activation::Installing, ActivationEvent::Installed(Err(error))) => (
                Activation::Finished,
                ActivationAction::Finish(Err(error)),
            ),
            (Activation::Running { previous }, ActivationEvent::BodyFinished(context, output)) => (
                Activation::Restoring { context, output },
                ActivationAction::Restore(previous),
            ),
            (Activation::Restoring { context, output }, ActivationEvent::Restored(Ok(_))) => (
                Activation::Recording { context, output },
                ActivationAction::Poll,
            ),
            (Activation::Restoring { .. }, ActivationEvent::Restored(Err(error))) => (
                Activation::Finished,
                ActivationAction::Finish(Err(error)),
            ),
            (Activation::Recording { context, output }, ActivationEvent::Polled(raised)) => {
                let mut context = context;
                context.observe(raised);
                (
                    Activation::Finished,
                    ActivationAction::Finish(
                        Ok(
                            CtrlCIgnoredOutput {
                                has_received_ctrlc: context.has_received_ctrlc(),
                                output,
                            },
                        ),
                    ),
                )
            },
            (state, _) => (state, ActivationAction::Ignore),
        }
    }
}

/// An activation that goes through, step by step: the handler is put in
/// place before the body runs, the body gets a context with the flag
/// cleared, the handler is taken out with what putting it in place gave as
/// soon as the body has ended, the interrupt source is looked at after that,
/// and the record comes last.
pub proof fn lemma_activation_in_order<H, A, E>(
    previous: H,
    context: CtrlCIgnoredContext,
    output: A,
    raised: bool,
)
    ensures
        Activation::<H, A>::Installing.actions::<E>(
            seq![
                ActivationEvent::Installed(Ok(previous)),
                ActivationEvent::BodyFinished(context, output),
                ActivationEvent::Restored(Ok(())),
                ActivationEvent::Polled(raised),
            ],
        ) == seq![
            ActivationAction::<H, A, E>::RunBody(CtrlCIgnoredContext::fresh()),
            ActivationAction::Restore(previous),
            ActivationAction::Poll,
            ActivationAction::Finish(
                Ok(
                    CtrlCIgnoredOutput {
                        has_received_ctrlc: context.received() || raised,
                        output,
                    },
                ),
            ),
        ],
        Activation::<H, A>::Installing.end::<E>(
            seq![
                ActivationEvent::Installed(Ok(previous)),
                ActivationEvent::BodyFinished(context, output),
                ActivationEvent::Restored(Ok(())),
                ActivationEvent::Polled(raised),
            ],
        ) is Finished,
        !CtrlCIgnoredContext::fresh().received(),
{
    let events = seq![
        ActivationEvent::<H, A, E>::Installed(Ok(previous)),
        ActivationEvent::BodyFinished(context, output),
        ActivationEvent::Restored(Ok(())),
        ActivationEvent::Polled(raised),
    ];
    assert(events.drop_first().len() == 3);
    assert(events.drop_first().drop_first().len() == 2);
    assert(events.drop_first().drop_first().drop_first().len() == 1);
    assert(events.drop_first().drop_first().drop_first().drop_first().len() == 0);
    assert(seq![raised].drop_first().len() == 0);
    assert(latched(context.received(), seq![raised]) == (context.received() || raised)) by {
        reveal_with_fuel(latched, 2);
    }
    reveal_with_fuel(Activation::actions, 5);
    reveal_with_fuel(Activation::end, 5);
    assert(Activation::<H, A>::Installing.actions::<E>(events) =~= seq![
        ActivationAction::<H, A, E>::RunBody(CtrlCIgnoredContext::fresh()),
        ActivationAction::Restore(previous),
        ActivationAction::Poll,
        ActivationAction::Finish(
            Ok(CtrlCIgnoredOutput { has_received_ctrlc: context.received() || raised, output }),
        ),
    ]);
}

/// The number of times that a run asks to run the body.
pub open spec fn body_runs<H, A, E>(actions: Seq<ActivationAction<H, A, E>>) -> nat
    decreases actions.len(),
{
    if actions.len() == 0 {
        0
    } else {
        (if actions[0] is RunBody {
            1nat
        } else {
            0nat
        }) + body_runs(actions.drop_first())
    }
}

/// The number of times that a run asks to take the handler out.
pub open spec fn restores<H, A, E>(actions: Seq<ActivationAction<H, A, E>>) -> nat
    decreases actions.len(),
{
    if actions.len() == 0 {
        0
    } else {
        (if actions[0] is Restore {
            1nat
        } else {
            0nat
        }) + restores(actions.drop_first())
    }
}

/// The body runs only while the handler is in place: in every run it is
/// asked for at most once and only by an activation that is putting the
/// handler in place, and the handler is taken out exactly once for every run
/// of the body that has ended. After a failed attempt to put the handler in
/// place the activation is finished, so the body never runs.
pub proof fn lemma_body_runs_under_the_handler<H, A, E>(
    state: Activation<H, A>,
    events: Seq<ActivationEvent<H, A, E>>,
)
    ensures
        body_runs(state.actions(events)) <= if state is Installing {
            1nat
        } else {
            0nat
        },
        body_runs(state.actions(events)) + (if state is Running {
            1nat
        } else {
            0nat
        }) == restores(state.actions(events)) + if state.end(events) is Running {
            1nat
        } else {
            0nat
        },
    decreases events.len(),
{
    if events.len() > 0 {
        let next = state.next_state(events[0]);
        lemma_body_runs_under_the_handler(next, events.drop_first());
        assert(state.actions(events).drop_first() =~= next.actions(events.drop_first()));
    }
}

/// An activation that went through: `install` handed out `previous`, `f` got
/// `start` with the flag cleared and gave back `end` and the record's output,
/// `restore` took `previous` and succeeded, `poll` then answered `raised`,
/// and the record tells of an interrupt where `end` or `raised` does.
pub open spec fn activated<A, H, E, I, R, P, F>(
    install: I,
    restore: R,
    poll: P,
    f: F,
    record: CtrlCIgnoredOutput<A>,
    previous: H,
    start: CtrlCIgnoredContext,
    end: CtrlCIgnoredContext,
    raised: bool,
) -> bool where
    I: FnOnce() -> Result<H, E>,
    R: FnOnce(H) -> Result<(), E>,
    P: FnOnce() -> bool,
    F: FnOnce(CtrlCIgnoredContext) -> (CtrlCIgnoredContext, A),
 {
    &&& call_ensures(install, (), Ok(previous))
    &&& !start.received()
    &&& call_ensures(f, (start,), (end, record.output))
    &&& call_ensures(restore, (previous,), Ok(()))
    &&& call_ensures(poll, (), raised)
    &&& record.has_received_ctrlc == (end.received() || raised)
}

/// Carries an activation through with closures: `install` puts the
/// interrupt handler in place and hands back what undoes it, `f` is the body,
/// `restore` undoes `install`, and `poll` tells whether the interrupt source
/// has seen an interrupt.
///
/// The calls are made as [`Activation::step`] asks for them, one after the
/// other; it is the contract of that function that fixes their order. What
/// is stated here is what comes out: a record only where `install` and
/// `restore` succeeded, made of what `f` gave back for a context with the
/// flag cleared and of what `poll` answered; else the failure of `install`,
/// or the failure of `restore` on what `install` handed out.
pub fn ignoring_ctrlc<A, H, E, I, R, P, F>(install: I, restore: R, poll: P, f: F) -> (outcome:
    Result<CtrlCIgnoredOutput<A>, E>) where
    I: FnOnce() -> Result<H, E>,
    R: FnOnce(H) -> Result<(), E>,
    P: FnOnce() -> bool,
    F: FnOnce(CtrlCIgnoredContext) -> (CtrlCIgnoredContext, A),

    requires
        call_requires(install, ()),
        forall|previous: H|
            call_ensures(install, (), Ok(previous)) ==> call_requires(restore, (previous,)),
        call_requires(poll, ()),
        forall|context: CtrlCIgnoredContext|
            !context.received() ==> call_requires(f, (context,)),
    ensures
        match outcome {
            Ok(record) => exists|
                previous: H,
                start: CtrlCIgnoredContext,
                end: CtrlCIgnoredContext,
                raised: bool,
            |
                activated(install, restore, poll, f, record, previous, start, end, raised),
            Err(error) => call_ensures(install, (), Err(error)) || exists|previous: H|
                call_ensures(install, (), Ok(previous)) && call_ensures(
                    restore,
                    (previous,),
                    Err(error),
                ),
        },
{
    let installed = install();
    let (running, asked) = Activation::<H, A>::new().step(ActivationEvent::Installed(installed));
    match asked {
        ActivationAction::RunBody(start) => {
            assert(installed is Ok);
            assert(start == CtrlCIgnoredContext::fresh());
            assert(!start.received());
            let ran = f(start);
            let end = ran.0;
            let output = ran.1;
            let (restoring, asked) = running.step(ActivationEvent::<H, A, E>::BodyFinished(end, output));
            match asked {
                ActivationAction::Restore(previous) => {
                    let restored = restore(previous);
                    let (recording, asked) = restoring.step(ActivationEvent::Restored(restored));
                    match asked {
                        ActivationAction::Poll => {
                            let raised = poll();
                            let (_, asked) = recording.step(
                                ActivationEvent::<H, A, E>::Polled(raised),
                            );
                            match asked {
                                ActivationAction::Finish(outcome) => {
                                    proof {
                                        assert(seq![raised].drop_first().len() == 0);
                                        assert(latched(end.received(), seq![raised]) == (
                                        end.received() || raised)) by {
                                            reveal_with_fuel(latched, 2);
                                        }
                                        assert(restored matches Ok(done) && done == ());
                                    }
                                    assert(outcome matches Ok(record) && activated(
                                        install,
                                        restore,
                                        poll,
                                        f,
                                        record,
                                        previous,
                                        start,
                                        end,
                                        raised,
                                    ));
                                    outcome
                                },
                                _ => vstd::pervasive::unreached(),
                            }
                        },
                        ActivationAction::Finish(outcome) => outcome,
                        _ => vstd::pervasive::unreached(),
                    }
                },
                _ => vstd::pervasive::unreached(),
            }
        },
        ActivationAction::Finish(outcome) => outcome,
        _ => vstd::pervasive::unreached(),
    }
}

} // verus!
