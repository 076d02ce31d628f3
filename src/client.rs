//! Decisions of the client worker: refreshing a light client before it
//! expires, and reacting to misbehaviour checks.
use vstd::prelude::*;

use crate::events::{IbcEvent, WorkerCmd};
use crate::worker::Next;

verus! {

/// Least time, in milliseconds, between two refresh attempts of a worker.
pub const REFRESH_BACKOFF_MS: u64 = 1000;

/// A client is due for refresh once its last update is at least two thirds
/// of its trusting period old.
pub open spec fn refresh_due(elapsed: u64, trusting_period: u64) -> bool {
    3 * (elapsed as int) >= 2 * (trusting_period as int)
}

/// Whether a client last updated `elapsed` ago, with the given trusting
/// period (both in the same unit), must be refreshed now.
pub fn needs_refresh(elapsed: u64, trusting_period: u64) -> (r: bool)
    ensures
        r == refresh_due(elapsed, trusting_period),
{
    3 * (elapsed as u128) >= 2 * (trusting_period as u128)
}

/// At exactly two thirds of the trusting period a refresh is due; one unit
/// of time earlier it is not.
pub proof fn lemma_refresh_boundary(trusting_period: u64)
    requires
        trusting_period % 3 == 0,
        trusting_period > 0,
    ensures
        refresh_due((trusting_period / 3 * 2) as u64, trusting_period),
        !refresh_due((trusting_period / 3 * 2 - 1) as u64, trusting_period),
{
}

/// What checking a client for misbehaviour found.
#[derive(Clone, Debug, PartialEq, Eq)]
pub enum MisbehaviourResults {
    /// No misbehaviour.
    ValidClient,
    /// The check could not complete; it may be tried again.
    VerificationError,
    /// Misbehaviour was found and evidence submitted, with this hash.
    EvidenceSubmitted(String),
    /// The chain cannot check misbehaviour.
    CannotExecute,
}

/// The check is over for good: evidence went in, or it cannot be done.
pub open spec fn is_terminal(result: MisbehaviourResults) -> bool {
    result is EvidenceSubmitted || result is CannotExecute
}

/// Whether misbehaviour checking for this client is finished.
pub fn misbehaviour_handled(result: &MisbehaviourResults) -> (r: bool)
    ensures
        r == is_terminal(*result),
{
    match result {
        MisbehaviourResults::ValidClient => false,
        MisbehaviourResults::VerificationError => false,
        MisbehaviourResults::EvidenceSubmitted(_) => true,
        MisbehaviourResults::CannotExecute => true,
    }
}

/// Events that call for a misbehaviour check: updates of the client.
pub fn needs_misbehaviour_check(event: &IbcEvent) -> (r: bool)
    ensures
        r == (*event is UpdateClient),
{
    match event {
        IbcEvent::UpdateClient { .. } => true,
        _ => false,
    }
}

/// The client updates among `events`, in order.
pub open spec fn client_updates(events: Seq<IbcEvent>) -> Seq<IbcEvent>
    decreases events.len(),
{
    if events.len() == 0 {
        Seq::empty()
    } else {
        let prev = client_updates(events.drop_last());
        if events.last() is UpdateClient {
            prev.push(events.last())
        } else {
            prev
        }
    }
}

fn copy_event(event: &IbcEvent) -> (r: IbcEvent)
    ensures
        r == *event,
{
    match event {
        IbcEvent::NewBlock { height } => IbcEvent::NewBlock { height: *height },
        IbcEvent::UpdateClient { client_id, consensus_height } => IbcEvent::UpdateClient {
            client_id: client_id.clone(),
            consensus_height: *consensus_height,
        },
        IbcEvent::SendPacket { channel_id, sequence } => IbcEvent::SendPacket {
            channel_id: channel_id.clone(),
            sequence: *sequence,
        },
        IbcEvent::WriteAcknowledgement { channel_id, sequence } =>
            IbcEvent::WriteAcknowledgement { channel_id: channel_id.clone(), sequence: *sequence },
        IbcEvent::TimedOutPacket { channel_id, sequence } => IbcEvent::TimedOutPacket {
            channel_id: channel_id.clone(),
            sequence: *sequence,
        },
        IbcEvent::Other => IbcEvent::Other,
    }
}

/// What the client worker does with a command: it stops on `Shutdown`, and
/// otherwise goes on after checking, in order, every client update that an
/// `IbcEvents` batch carries. No other event or command is checked.
pub fn process_cmd(cmd: &WorkerCmd) -> (r: (Next, Vec<IbcEvent>))
    ensures
        r.0 == Next::Abort <==> *cmd is Shutdown,
        match *cmd {
            WorkerCmd::IbcEvents { batch } => r.1@ == client_updates(batch.events@),
            _ => r.1@.len() == 0,
        },
{
    match cmd {
        WorkerCmd::Shutdown => (Next::Abort, Vec::new()),
        WorkerCmd::IbcEvents { batch } => {
            let ghost events = batch.events@;
            let mut updates: Vec<IbcEvent> = Vec::new();
            let mut i: usize = 0;
            while i < batch.events.len()
                invariant
                    i <= events.len(),
                    events == batch.events@,
                    updates@ == client_updates(events.take(i as int)),
                decreases events.len() - i,
            {
                assert(events.take(i + 1).drop_last() =~= events.take(i as int));
                assert(events.take(i + 1).last() == events[i as int]);
                if needs_misbehaviour_check(&batch.events[i]) {
                    updates.push(copy_event(&batch.events[i]));
                }
                i = i + 1;
            }
            assert(events.take(events.len() as int) =~= events);
            (Next::Continue, updates)
        },
        _ => (Next::Continue, Vec::new()),
    }
}

/// The misbehaviour checks of a batch's client updates, made one by one in
/// order until a result settles the client.
pub struct MisbehaviourScan {
    updates: Vec<IbcEvent>,
    next: usize,
    settled: bool,
}

impl MisbehaviourScan {
    pub closed spec fn updates(&self) -> Seq<IbcEvent> {
        self.updates@
    }

    /// How many updates were checked.
    pub closed spec fn checked(&self) -> nat {
        self.next as nat
    }

    /// A check settled the client.
    pub closed spec fn settled(&self) -> bool {
        self.settled
    }

    /// Another update is still to be checked.
    pub open spec fn has_next(&self) -> bool {
        !self.settled() && self.checked() < self.updates().len()
    }

    pub fn new(updates: Vec<IbcEvent>) -> (r: MisbehaviourScan)
        ensures
            r.updates() == updates@,
            r.checked() == 0,
            !r.settled(),
    {
        MisbehaviourScan { updates, next: 0, settled: false }
    }

    /// The update to check next: none once the client is settled or every
    /// update was checked.
    pub fn next_update(&self) -> (r: Option<&IbcEvent>)
        ensures
            r is Some <==> self.has_next(),
            r matches Some(e) ==> *e == self.updates()[self.checked() as int],
    {
        if !self.settled && self.next < self.updates.len() {
            Some(&self.updates[self.next])
        } else {
            None
        }
    }

    /// Records the result of checking the update that `next_update` gave. A
    /// terminal result settles the client and ends the scan.
    pub fn record(&mut self, result: &MisbehaviourResults) -> (r: Next)
        requires
            old(self).has_next(),
        ensures
            r == Next::Abort <==> is_terminal(*result),
            final(self).updates() == old(self).updates(),
            final(self).checked() == old(self).checked() + 1,
            final(self).settled() == is_terminal(*result),
    {
        let n = self.updates.len();
        assert(self.next < n);
        self.next = self.next + 1;
        self.settled = misbehaviour_handled(result);
        if self.settled {
            Next::Abort
        } else {
            Next::Continue
        }
    }
}

/// Once a check settles the client, no later update of the batch is
/// checked: the scan offers nothing more.
pub proof fn lemma_settled_scan_checks_nothing_more(scan: &MisbehaviourScan)
    requires
        scan.settled(),
    ensures
        !scan.has_next(),
{
}

/// The step of the misbehaviour task after a check: a terminal result ends
/// the task.
pub fn misbehaviour_step(result: &MisbehaviourResults) -> (r: Next)
    ensures
        r == Next::Abort <==> is_terminal(*result),
{
    if misbehaviour_handled(result) {
        Next::Abort
    } else {
        Next::Continue
    }
}

/// What a refresh attempt gave.
#[derive(Clone, Copy, Debug, PartialEq, Eq, Structural)]
pub enum RefreshOutcome {
    /// An update was sent.
    Updated,
    /// The client was recent enough.
    NotNeeded,
    /// The client expired or was frozen: it cannot be refreshed again.
    ExpiredOrFrozen,
    /// Another failure; the next attempt may succeed.
    Failed,
}

/// Which parts of client work are switched on.
#[derive(Clone, Copy, Debug, PartialEq, Eq, Structural)]
pub struct ClientsConfig {
    pub enabled: bool,
    pub refresh: bool,
    pub misbehaviour: bool,
}

/// The state of a client worker's loop.
#[derive(Clone, Copy, Debug, PartialEq, Eq, Structural)]
pub struct ClientWorkerState {
    pub config: ClientsConfig,
    /// Misbehaviour checking is off, or finished.
    pub skip_misbehaviour: bool,
    /// When the last refresh attempt ended, in milliseconds.
    pub last_refresh: Option<u64>,
}

impl ClientWorkerState {
    /// The state at start. `initial_check` is the result of the check of all
    /// past updates, made only when misbehaviour checking is on.
    pub fn new(config: ClientsConfig, initial_check: &Option<MisbehaviourResults>) -> (r:
        ClientWorkerState)
        ensures
            r.config == config,
            r.last_refresh is None,
            r.skip_misbehaviour == (!config.misbehaviour || (*initial_check matches Some(c)
                && is_terminal(c))),
    {
        let done = match initial_check {
            Some(c) => misbehaviour_handled(c),
            None => false,
        };
        ClientWorkerState {
            config,
            skip_misbehaviour: !config.misbehaviour || done,
            last_refresh: None,
        }
    }

    /// Whether to attempt a refresh at time `now`: refresh is on and more than
    /// the backoff has passed since the last attempt.
    pub fn should_refresh(&self, now: u64) -> (r: bool)
        ensures
            r == (self.config.refresh && match self.last_refresh {
                None => true,
                Some(t) => now >= t && now - t > REFRESH_BACKOFF_MS,
            }),
    {
        if !self.config.refresh {
            return false;
        }
        match self.last_refresh {
            None => true,
            Some(t) => now >= t && now - t > REFRESH_BACKOFF_MS,
        }
    }

    /// Records a refresh attempt that ended at `now`. An expired or frozen
    /// client ends the worker: its job is done.
    pub fn on_refresh(&mut self, now: u64, outcome: RefreshOutcome) -> (r: Next)
        ensures
            r == Next::Abort <==> outcome == RefreshOutcome::ExpiredOrFrozen,
            r == Next::Abort ==> *final(self) == *old(self),
            r == Next::Continue ==> *final(self) == (ClientWorkerState {
                last_refresh: Some(now),
                ..*old(self)
            }),
    {
        match outcome {
            RefreshOutcome::ExpiredOrFrozen => Next::Abort,
            _ => {
                self.last_refresh = Some(now);
                Next::Continue
            },
        }
    }

    /// Records the result of a misbehaviour check: a terminal one ends
    /// misbehaviour checking for good.
    pub fn on_misbehaviour_result(&mut self, result: &MisbehaviourResults)
        ensures
            final(self).skip_misbehaviour == (old(self).skip_misbehaviour || is_terminal(*result)),
            final(self).config == old(self).config,
            final(self).last_refresh == old(self).last_refresh,
    {
        if misbehaviour_handled(result) {
            self.skip_misbehaviour = true;
        }
    }

    /// Whether the worker reads commands: only while misbehaviour checking
    /// goes on.
    pub fn reads_commands(&self) -> (r: bool)
        ensures
            r == !self.skip_misbehaviour,
    {
        !self.skip_misbehaviour
    }
}

} // verus!
