//! The negotiation orchestrator: the state machine that sequences one
//! participant's join handshake.
//!
//! The handshake is a fixed sequence of requests against the external
//! transport stack: create a session, register the inbound-track handler,
//! provision this participant's outbound track and attach it, apply the
//! remote offer, generate the answer, wait for network-path discovery to
//! finish, apply the answer locally, and read back the finalized local
//! description. The driver performs each request and reports its outcome;
//! the machine here decides what comes next. Any step's failure is terminal:
//! the handshake aborts with an error, with no retries and no rollback of
//! registry effects already committed. None of the machine's actions ever
//! registers a producer — that happens only when the session's inbound-track
//! event fires — so an aborted handshake leaves no forwarding work behind
//! for an inbound side that was never offered.

use vstd::prelude::*;

verus! {

/// Where one handshake stands: which request is outstanding, or that it
/// ended. Terminal states are `Complete` and `Failed`.
#[derive(Clone, Copy, PartialEq, Eq, Structural, Debug)]
pub enum HandshakeState {
    /// Creating the external transport session.
    CreatingSession,
    /// Registering the inbound-track event handler, before any negotiation
    /// step, so a fast remote sender cannot race past it.
    RegisteringHandler,
    /// Obtaining this participant's outbound track from the router and
    /// attaching it to the session.
    ProvisioningConsumer,
    /// Applying the caller-supplied remote offer.
    ApplyingRemote,
    /// Generating the local answer.
    CreatingAnswer,
    /// Waiting for network-path discovery to finish; descriptions are
    /// fully gathered, never trickled.
    Gathering,
    /// Applying the generated answer as the local description.
    ApplyingLocal,
    /// Reading back the finalized local description, with all discovered
    /// network paths embedded.
    ReadingDescription,
    /// The handshake succeeded; the finalized description is the answer.
    Complete,
    /// Some step failed; the handshake surfaces a single generic error.
    Failed,
}

/// The outcome the driver reports for the step it performed.
#[derive(Clone, Copy, PartialEq, Eq, Structural, Debug)]
pub enum StepOutcome {
    Success,
    Failure,
}

/// What the driver is to do next in a given state.
#[derive(Clone, Copy, PartialEq, Eq, Structural, Debug)]
pub enum HandshakeAction {
    CreateSession,
    RegisterTrackHandler,
    ProvisionConsumer,
    ApplyRemoteOffer,
    CreateAnswer,
    AwaitGathering,
    ApplyLocalAnswer,
    ReadLocalDescription,
    /// Terminal: return the finalized description to the caller.
    ReportAnswer,
    /// Terminal: return the generic signaling error to the caller.
    ReportError,
}

/// The transition table: the steps run in their fixed order, any step's
/// failure is terminal, and the terminal states absorb every outcome.
pub open spec fn spec_step(s: HandshakeState, o: StepOutcome) -> HandshakeState {
    match (s, o) {
        (HandshakeState::Complete, _) => HandshakeState::Complete,
        (HandshakeState::Failed, _) => HandshakeState::Failed,
        (_, StepOutcome::Failure) => HandshakeState::Failed,
        (HandshakeState::CreatingSession, StepOutcome::Success) => HandshakeState::RegisteringHandler,
        (HandshakeState::RegisteringHandler, StepOutcome::Success) => HandshakeState::ProvisioningConsumer,
        (HandshakeState::ProvisioningConsumer, StepOutcome::Success) => HandshakeState::ApplyingRemote,
        (HandshakeState::ApplyingRemote, StepOutcome::Success) => HandshakeState::CreatingAnswer,
        (HandshakeState::CreatingAnswer, StepOutcome::Success) => HandshakeState::Gathering,
        (HandshakeState::Gathering, StepOutcome::Success) => HandshakeState::ApplyingLocal,
        (HandshakeState::ApplyingLocal, StepOutcome::Success) => HandshakeState::ReadingDescription,
        (HandshakeState::ReadingDescription, StepOutcome::Success) => HandshakeState::Complete,
    }
}

/// The action owed in each state: the outstanding request, or the terminal
/// report.
pub open spec fn spec_action(s: HandshakeState) -> HandshakeAction {
    match s {
        HandshakeState::CreatingSession => HandshakeAction::CreateSession,
        HandshakeState::RegisteringHandler => HandshakeAction::RegisterTrackHandler,
        HandshakeState::ProvisioningConsumer => HandshakeAction::ProvisionConsumer,
        HandshakeState::ApplyingRemote => HandshakeAction::ApplyRemoteOffer,
        HandshakeState::CreatingAnswer => HandshakeAction::CreateAnswer,
        HandshakeState::Gathering => HandshakeAction::AwaitGathering,
        HandshakeState::ApplyingLocal => HandshakeAction::ApplyLocalAnswer,
        HandshakeState::ReadingDescription => HandshakeAction::ReadLocalDescription,
        HandshakeState::Complete => HandshakeAction::ReportAnswer,
        HandshakeState::Failed => HandshakeAction::ReportError,
    }
}

/// Advances the handshake by one step, exactly as the transition table says.
pub fn handshake_step(s: HandshakeState, o: StepOutcome) -> (next: HandshakeState)
    ensures
        next == spec_step(s, o),
{
    match (s, o) {
        (HandshakeState::Complete, _) => HandshakeState::Complete,
        (HandshakeState::Failed, _) => HandshakeState::Failed,
        (_, StepOutcome::Failure) => HandshakeState::Failed,
        (HandshakeState::CreatingSession, StepOutcome::Success) => HandshakeState::RegisteringHandler,
        (HandshakeState::RegisteringHandler, StepOutcome::Success) => HandshakeState::ProvisioningConsumer,
        (HandshakeState::ProvisioningConsumer, StepOutcome::Success) => HandshakeState::ApplyingRemote,
        (HandshakeState::ApplyingRemote, StepOutcome::Success) => HandshakeState::CreatingAnswer,
        (HandshakeState::CreatingAnswer, StepOutcome::Success) => HandshakeState::Gathering,
        (HandshakeState::Gathering, StepOutcome::Success) => HandshakeState::ApplyingLocal,
        (HandshakeState::ApplyingLocal, StepOutcome::Success) => HandshakeState::ReadingDescription,
        (HandshakeState::ReadingDescription, StepOutcome::Success) => HandshakeState::Complete,
    }
}

/// The action the driver is to perform in state `s`.
pub fn next_action(s: HandshakeState) -> (a: HandshakeAction)
    ensures
        a == spec_action(s),
{
    match s {
        HandshakeState::CreatingSession => HandshakeAction::CreateSession,
        HandshakeState::RegisteringHandler => HandshakeAction::RegisterTrackHandler,
        HandshakeState::ProvisioningConsumer => HandshakeAction::ProvisionConsumer,
        HandshakeState::ApplyingRemote => HandshakeAction::ApplyRemoteOffer,
        HandshakeState::CreatingAnswer => HandshakeAction::CreateAnswer,
        HandshakeState::Gathering => HandshakeAction::AwaitGathering,
        HandshakeState::ApplyingLocal => HandshakeAction::ApplyLocalAnswer,
        HandshakeState::ReadingDescription => HandshakeAction::ReadLocalDescription,
        HandshakeState::Complete => HandshakeAction::ReportAnswer,
        HandshakeState::Failed => HandshakeAction::ReportError,
    }
}

/// Whether the handshake ended, in success or in failure.
pub fn is_terminal(s: HandshakeState) -> (r: bool)
    ensures
        r == (s is Complete || s is Failed),
{
    match s {
        HandshakeState::Complete => true,
        HandshakeState::Failed => true,
        _ => false,
    }
}

/// The state after driving the handshake from `s0` through the outcomes of
/// `outcomes`, one step at a time.
pub open spec fn run_steps(s0: HandshakeState, outcomes: Seq<StepOutcome>) -> HandshakeState
    decreases outcomes.len(),
{
    if outcomes.len() == 0 {
        s0
    } else {
        spec_step(run_steps(s0, outcomes.drop_last()), outcomes.last())
    }
}

/// The states at or past the completion of network-path discovery.
pub open spec fn past_gathering(s: HandshakeState) -> bool {
    s is ApplyingLocal || s is ReadingDescription || s is Complete
}

/// A run reaches the states past discovery only by crossing the transition
/// in which the gathering wait reported success.
proof fn lemma_past_gathering_crossed(outcomes: Seq<StepOutcome>)
    requires
        past_gathering(run_steps(HandshakeState::CreatingSession, outcomes)),
    ensures
        exists|i: int|
            0 <= i < outcomes.len() && run_steps(HandshakeState::CreatingSession, outcomes.take(i))
                is Gathering && outcomes[i] is Success,
    decreases outcomes.len(),
{
    let s0 = HandshakeState::CreatingSession;
    let prev = run_steps(s0, outcomes.drop_last());
    if past_gathering(prev) {
        lemma_past_gathering_crossed(outcomes.drop_last());
        let i = choose|i: int|
            0 <= i < outcomes.drop_last().len() && run_steps(s0, outcomes.drop_last().take(i))
                is Gathering && outcomes.drop_last()[i] is Success;
        assert(outcomes.drop_last().take(i) =~= outcomes.take(i));
        assert(run_steps(s0, outcomes.take(i)) is Gathering && outcomes[i] is Success);
    } else {
        let i = outcomes.len() - 1;
        assert(outcomes.take(i) =~= outcomes.drop_last());
        assert(run_steps(s0, outcomes.take(i)) is Gathering && outcomes[i] is Success);
    }
}

/// Law: the handshake completes only after discovery finishes. Any run from
/// the start that ends `Complete` crossed the step in which the gathering
/// wait reported success; the answer is never reported before that.
pub proof fn lemma_complete_only_after_gathering(outcomes: Seq<StepOutcome>)
    requires
        run_steps(HandshakeState::CreatingSession, outcomes) is Complete,
    ensures
        exists|i: int|
            0 <= i < outcomes.len() && run_steps(HandshakeState::CreatingSession, outcomes.take(i))
                is Gathering && outcomes[i] is Success,
{
    lemma_past_gathering_crossed(outcomes);
}

/// The failed state absorbs every further outcome.
proof fn lemma_failed_absorbing(rest: Seq<StepOutcome>)
    ensures
        run_steps(HandshakeState::Failed, rest) is Failed,
    decreases rest.len(),
{
    if rest.len() > 0 {
        lemma_failed_absorbing(rest.drop_last());
    }
}

/// Running a run in two pieces is running it whole.
proof fn lemma_run_steps_compose(s0: HandshakeState, a: Seq<StepOutcome>, b: Seq<StepOutcome>)
    ensures
        run_steps(s0, a + b) == run_steps(run_steps(s0, a), b),
    decreases b.len(),
{
    if b.len() == 0 {
        assert(a + b =~= a);
    } else {
        lemma_run_steps_compose(s0, a, b.drop_last());
        assert((a + b).drop_last() =~= a + b.drop_last());
        assert((a + b).last() == b.last());
    }
}

/// Law: an invalid or unparseable offer fails the handshake for good. If
/// the remote-offer application reports failure, the run is in the failed
/// state whatever outcomes follow, and the only action left is to report
/// the error — no further request is made of the transport stack, and no
/// producer is registered by any handshake action.
pub proof fn lemma_offer_failure_terminal(prefix: Seq<StepOutcome>, rest: Seq<StepOutcome>)
    requires
        run_steps(HandshakeState::CreatingSession, prefix) is ApplyingRemote,
    ensures
        run_steps(
            HandshakeState::CreatingSession,
            prefix.push(StepOutcome::Failure) + rest,
        ) is Failed,
        spec_action(
            run_steps(HandshakeState::CreatingSession, prefix.push(StepOutcome::Failure) + rest),
        ) is ReportError,
{
    let s0 = HandshakeState::CreatingSession;
    lemma_run_steps_compose(s0, prefix.push(StepOutcome::Failure), rest);
    assert(prefix.push(StepOutcome::Failure).drop_last() =~= prefix);
    assert(run_steps(s0, prefix.push(StepOutcome::Failure)) is Failed);
    lemma_failed_absorbing(rest);
}

} // verus!
