//! When the orchestrator starts and stops the application's services.
//!
//! Leader services run while the node is leader: they start when the node
//! becomes leader and stop when it steps down or when the node shuts down.
//! The orchestrator stops following leadership changes only after it has
//! stopped the leader services.
use vstd::prelude::*;

verus! {

/// A change that the orchestrator is told of.
#[derive(Clone, Copy, Debug, PartialEq, Eq, Structural)]
pub enum LeaderEvent {
    /// The node became leader.
    BecameLeader,
    /// The node stepped down from leadership.
    SteppedDown,
    /// The node is shutting down.
    Shutdown,
}

/// What the orchestrator does about an event.
#[derive(Clone, Copy, Debug, PartialEq, Eq, Structural)]
pub enum LeaderAction {
    /// Build and start every leader service, under a fresh cancellation token.
    StartServices,
    /// Cancel the running leader services and wait for each of them.
    StopServices,
    /// Nothing.
    Ignore,
}

/// One step of the orchestrator's shutdown, in the order in which it happens.
#[derive(Clone, Copy, Debug, PartialEq, Eq, Structural)]
pub enum ShutdownStep {
    /// Stop the leader services, if they run.
    StopLeaderServices,
    /// Stop following leadership changes.
    CloseLeaderWatch,
    /// Wait for the static services.
    JoinStaticServices,
    /// Shut the application down.
    ShutdownApplication,
    /// Wait for the RPC server.
    JoinRpcServer,
    /// Shut Raft down.
    ShutdownRaft,
}

/// Whether leader services run.
#[derive(Clone, Copy, Debug, PartialEq, Eq, Structural)]
pub struct LeaderLifecycle {
    pub running: bool,
}

/// The lifecycle after an event, and what to do about it. Becoming leader
/// starts the leader services, even while some still run (those are
/// replaced, not stopped); stepping down and shutting down stop the running
/// services, and do nothing when none runs.
pub open spec fn leader_step(st: LeaderLifecycle, ev: LeaderEvent) -> (LeaderLifecycle, LeaderAction) {
    match ev {
        LeaderEvent::BecameLeader => (LeaderLifecycle { running: true }, LeaderAction::StartServices),
        LeaderEvent::SteppedDown | LeaderEvent::Shutdown => if st.running {
            (LeaderLifecycle { running: false }, LeaderAction::StopServices)
        } else {
            (st, LeaderAction::Ignore)
        },
    }
}

/// Whether an event stops the leader services.
pub open spec fn is_stop_event(ev: LeaderEvent) -> bool {
    ev == LeaderEvent::SteppedDown || ev == LeaderEvent::Shutdown
}

/// The lifecycle after a sequence of events.
pub open spec fn leader_run(st: LeaderLifecycle, evs: Seq<LeaderEvent>) -> LeaderLifecycle
    decreases evs.len(),
{
    if evs.len() == 0 {
        st
    } else {
        leader_run(leader_step(st, evs[0]).0, evs.drop_first())
    }
}

impl LeaderLifecycle {
    /// No leader service runs.
    pub fn new() -> (l: LeaderLifecycle)
        ensures
            !l.running,
    {
        LeaderLifecycle { running: false }
    }

    /// Takes an event and says what to do about it.
    pub fn on_event(&mut self, ev: LeaderEvent) -> (action: LeaderAction)
        ensures
            (*final(self), action) == leader_step(*old(self), ev),
    {
        match ev {
            LeaderEvent::BecameLeader => {
                self.running = true;
                LeaderAction::StartServices
            },
            LeaderEvent::SteppedDown | LeaderEvent::Shutdown => {
                if self.running {
                    self.running = false;
                    LeaderAction::StopServices
                } else {
                    LeaderAction::Ignore
                }
            },
        }
    }
}

/// The steps of the orchestrator's shutdown, in order.
pub fn shutdown_sequence() -> (steps: Vec<ShutdownStep>)
    ensures
        steps@ == seq![
            ShutdownStep::StopLeaderServices,
            ShutdownStep::CloseLeaderWatch,
            ShutdownStep::JoinStaticServices,
            ShutdownStep::ShutdownApplication,
            ShutdownStep::JoinRpcServer,
            ShutdownStep::ShutdownRaft,
        ],
{
    let mut steps: Vec<ShutdownStep> = Vec::new();
    steps.push(ShutdownStep::StopLeaderServices);
    steps.push(ShutdownStep::CloseLeaderWatch);
    steps.push(ShutdownStep::JoinStaticServices);
    steps.push(ShutdownStep::ShutdownApplication);
    steps.push(ShutdownStep::JoinRpcServer);
    steps.push(ShutdownStep::ShutdownRaft);
    assert(steps@ =~= seq![
        ShutdownStep::StopLeaderServices,
        ShutdownStep::CloseLeaderWatch,
        ShutdownStep::JoinStaticServices,
        ShutdownStep::ShutdownApplication,
        ShutdownStep::JoinRpcServer,
        ShutdownStep::ShutdownRaft,
    ]);
    steps
}

/// Stopping leaves nothing running, from any state: after a step-down or
/// a shutdown no leader service runs, and a second stop, of either kind,
/// is ignored. Services are stopped only while they run.
pub proof fn lemma_stop_leaves_nothing_running(st: LeaderLifecycle, ev: LeaderEvent, ev2: LeaderEvent)
    requires
        is_stop_event(ev),
        is_stop_event(ev2),
    ensures
        !leader_step(st, ev).0.running,
        leader_step(leader_step(st, ev).0, ev2) == (leader_step(st, ev).0, LeaderAction::Ignore),
        leader_step(st, ev).1 == LeaderAction::StopServices <==> st.running,
{
}

/// From the start, services run exactly when the last event that started or
/// stopped them started them: after a sequence ending in a stop, nothing runs.
pub proof fn lemma_run_ends_stopped(evs: Seq<LeaderEvent>)
    requires
        evs.len() > 0,
        is_stop_event(evs.last()),
    ensures
        !leader_run(LeaderLifecycle { running: false }, evs).running,
{
    lemma_run_last(LeaderLifecycle { running: false }, evs);
}

proof fn lemma_run_last(st: LeaderLifecycle, evs: Seq<LeaderEvent>)
    requires
        evs.len() > 0,
    ensures
        leader_run(st, evs) == leader_step(leader_run(st, evs.drop_last()), evs.last()).0,
    decreases evs.len(),
{
    if evs.len() == 1 {
        assert(evs.drop_last() =~= Seq::<LeaderEvent>::empty());
        assert(evs.drop_first() =~= Seq::<LeaderEvent>::empty());
        assert(evs.last() == evs[0]);
        assert(leader_run(leader_step(st, evs[0]).0, evs.drop_first()) == leader_step(st, evs[0]).0);
        assert(leader_run(st, evs.drop_last()) == st);
    } else {
        let next = leader_step(st, evs[0]).0;
        lemma_run_last(next, evs.drop_first());
        assert(evs.drop_first().drop_last() =~= evs.drop_last().drop_first());
        assert(evs.drop_first().last() == evs.last());
        assert(evs.drop_last()[0] == evs[0]);
        assert(leader_run(st, evs.drop_last()) == leader_run(next, evs.drop_last().drop_first()));
    }
}

} // verus!
