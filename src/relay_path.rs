//! The schedule of one relay direction: operational data waiting to be
//! submitted, transactions waiting to be confirmed, and packet clearing.
use vstd::prelude::*;

use crate::events::{EventBatch, IbcEvent};
use crate::ids::{height_lt, Height};

verus! {

/// The packet message that an event calls for.
#[derive(Clone, Copy, Debug, PartialEq, Eq, Structural)]
pub enum PacketMsgKind {
    RecvPacket,
    Acknowledgement,
    Timeout,
}

/// Identifies one packet message: its kind, the source channel, the sequence.
/// The schedule never holds two messages with the same key.
#[derive(Clone, Debug, PartialEq, Eq)]
pub struct PacketKey {
    pub kind: PacketMsgKind,
    pub channel_id: String,
    pub sequence: u64,
}

pub type PacketKeyView = (PacketMsgKind, Seq<char>, u64);

impl View for PacketKey {
    type V = PacketKeyView;

    open spec fn view(&self) -> PacketKeyView {
        (self.kind, self.channel_id@, self.sequence)
    }
}

/// The side a batch of messages is submitted to.
#[derive(Clone, Copy, Debug, PartialEq, Eq, Structural)]
pub enum OperationalDataTarget {
    Source,
    Destination,
}

/// Messages to submit together: a client update to `proofs_height`, then
/// one message per packet key, proven at that height.
#[derive(Clone, Debug, PartialEq, Eq)]
pub struct OperationalData {
    pub target: OperationalDataTarget,
    pub proofs_height: Height,
    pub scheduled_time: u64,
    /// Not to be submitted before this time, for connection delays.
    pub conn_delay_deadline: Option<u64>,
    pub packets: Vec<PacketKey>,
}

pub struct OperationalDataView {
    pub target: OperationalDataTarget,
    pub proofs_height: Height,
    pub scheduled_time: u64,
    pub conn_delay_deadline: Option<u64>,
    pub packets: Seq<PacketKeyView>,
}

impl View for OperationalData {
    type V = OperationalDataView;

    open spec fn view(&self) -> OperationalDataView {
        OperationalDataView {
            target: self.target,
            proofs_height: self.proofs_height,
            scheduled_time: self.scheduled_time,
            conn_delay_deadline: self.conn_delay_deadline,
            packets: self.packets@.map_values(|k: PacketKey| k@),
        }
    }
}

/// A submitted transaction, by hash, with what it carried.
#[derive(Clone, Debug, PartialEq, Eq)]
pub struct PendingTx {
    pub tx_hash: String,
    pub data: OperationalData,
}

/// One relay direction.
pub struct RelayPath {
    pub src_operational_data: Vec<OperationalData>,
    pub dst_operational_data: Vec<OperationalData>,
    pub pending_txs: Vec<PendingTx>,
    /// Packets were cleared at least once.
    pub cleared_once: bool,
    /// A clearing has started and not yet finished.
    pub clearing_in_flight: bool,
    /// Delay, after scheduling, before messages may be submitted.
    pub connection_delay: u64,
}

pub struct RelayPathView {
    pub src: Seq<OperationalDataView>,
    pub dst: Seq<OperationalDataView>,
    pub pending: Seq<(Seq<char>, OperationalDataView)>,
    pub cleared_once: bool,
    pub clearing_in_flight: bool,
    pub connection_delay: u64,
}

pub open spec fn data_views(q: Seq<OperationalData>) -> Seq<OperationalDataView> {
    q.map_values(|d: OperationalData| d@)
}

impl View for RelayPath {
    type V = RelayPathView;

    open spec fn view(&self) -> RelayPathView {
        RelayPathView {
            src: data_views(self.src_operational_data@),
            dst: data_views(self.dst_operational_data@),
            pending: self.pending_txs@.map_values(|p: PendingTx| (p.tx_hash@, p.data@)),
            cleared_once: self.cleared_once,
            clearing_in_flight: self.clearing_in_flight,
            connection_delay: self.connection_delay,
        }
    }
}

pub open spec fn keys_have(keys: Seq<PacketKeyView>, k: PacketKeyView) -> bool {
    exists|j: int| 0 <= j < keys.len() && #[trigger] keys[j] == k
}

pub open spec fn queue_has(q: Seq<OperationalDataView>, k: PacketKeyView) -> bool {
    exists|i: int| 0 <= i < q.len() && keys_have(#[trigger] q[i].packets, k)
}

pub open spec fn pending_has(p: Seq<(Seq<char>, OperationalDataView)>, k: PacketKeyView) -> bool {
    exists|i: int| 0 <= i < p.len() && keys_have(#[trigger] p[i].1.packets, k)
}

/// A message with this key is already waiting or in flight.
pub open spec fn is_scheduled(s: RelayPathView, k: PacketKeyView) -> bool {
    queue_has(s.src, k) || queue_has(s.dst, k) || pending_has(s.pending, k)
}

/// The packet message an event calls for, if any.
pub open spec fn event_key(e: IbcEvent) -> Option<PacketKeyView> {
    match e {
        IbcEvent::SendPacket { channel_id, sequence } => Some(
            (PacketMsgKind::RecvPacket, channel_id@, sequence),
        ),
        IbcEvent::WriteAcknowledgement { channel_id, sequence } => Some(
            (PacketMsgKind::Acknowledgement, channel_id@, sequence),
        ),
        IbcEvent::TimedOutPacket { channel_id, sequence } => Some(
            (PacketMsgKind::Timeout, channel_id@, sequence),
        ),
        _ => None,
    }
}

/// Keys of the events, in order, leaving out those already scheduled and
/// repeats within the events.
pub open spec fn fresh_keys(s: RelayPathView, events: Seq<IbcEvent>) -> Seq<PacketKeyView>
    decreases events.len(),
{
    if events.len() == 0 {
        Seq::empty()
    } else {
        let prev = fresh_keys(s, events.drop_last());
        match event_key(events.last()) {
            Some(k) => if !is_scheduled(s, k) && !keys_have(prev, k) {
                prev.push(k)
            } else {
                prev
            },
            None => prev,
        }
    }
}

/// `now + delay`, capped at the largest time.
pub open spec fn deadline_after(now: u64, delay: u64) -> u64 {
    if now + delay > u64::MAX {
        u64::MAX
    } else {
        (now + delay) as u64
    }
}

/// The schedule after the events of a batch at `height` arrive at time `now`:
/// their fresh keys, if any, become one new entry at the tail of the
/// destination queue.
pub open spec fn schedule_after(
    s: RelayPathView,
    height: Height,
    events: Seq<IbcEvent>,
    now: u64,
) -> RelayPathView {
    let keys = fresh_keys(s, events);
    if keys.len() == 0 {
        s
    } else {
        RelayPathView {
            dst: s.dst.push(
                OperationalDataView {
                    target: OperationalDataTarget::Destination,
                    proofs_height: height,
                    scheduled_time: now,
                    conn_delay_deadline: if s.connection_delay == 0 {
                        None
                    } else {
                        Some(deadline_after(now, s.connection_delay))
                    },
                    packets: keys,
                },
            ),
            ..s
        }
    }
}

proof fn lemma_event_keys_covered(s: RelayPathView, events: Seq<IbcEvent>)
    ensures
        forall|j: int|
            0 <= j < events.len() && (#[trigger] event_key(events[j])) is Some ==> is_scheduled(
                s,
                event_key(events[j])->Some_0,
            ) || keys_have(fresh_keys(s, events), event_key(events[j])->Some_0),
    decreases events.len(),
{
    if events.len() > 0 {
        let init = events.drop_last();
        lemma_event_keys_covered(s, init);
        let prev = fresh_keys(s, init);
        let result = fresh_keys(s, events);
        assert forall|k: PacketKeyView| keys_have(prev, k) implies keys_have(result, k) by {
            let j = choose|j: int| 0 <= j < prev.len() && #[trigger] prev[j] == k;
            assert(result[j] == k);
        }
        assert forall|j: int|
            0 <= j < events.len() && (#[trigger] event_key(events[j])) is Some implies is_scheduled(
            s,
            event_key(events[j])->Some_0,
        ) || keys_have(result, event_key(events[j])->Some_0) by {
            let k = event_key(events[j])->Some_0;
            if j < events.len() - 1 {
                assert(init[j] == events[j]);
            } else if !is_scheduled(s, k) && !keys_have(prev, k) {
                assert(result[prev.len() as int] == k);
            }
        }
    }
}

proof fn lemma_nothing_fresh(s: RelayPathView, events: Seq<IbcEvent>)
    requires
        forall|j: int|
            0 <= j < events.len() && (#[trigger] event_key(events[j])) is Some ==> is_scheduled(
                s,
                event_key(events[j])->Some_0,
            ),
    ensures
        fresh_keys(s, events).len() == 0,
    decreases events.len(),
{
    if events.len() > 0 {
        let init = events.drop_last();
        assert forall|j: int|
            0 <= j < init.len() && (#[trigger] event_key(init[j])) is Some implies is_scheduled(
            s,
            event_key(init[j])->Some_0,
        ) by {
            assert(init[j] == events[j]);
        }
        lemma_nothing_fresh(s, init);
        assert(events.last() == events[events.len() - 1]);
    }
}

/// Replaying a batch changes nothing: its packets are already scheduled, so
/// handling it twice leaves the schedule as handling it once did.
pub proof fn lemma_replayed_batch_is_ignored(
    s: RelayPathView,
    height: Height,
    events: Seq<IbcEvent>,
    first: u64,
    second: u64,
)
    ensures
        schedule_after(schedule_after(s, height, events, first), height, events, second)
            == schedule_after(s, height, events, first),
{
    let s1 = schedule_after(s, height, events, first);
    let keys = fresh_keys(s, events);
    lemma_event_keys_covered(s, events);
    assert forall|k: PacketKeyView|
        is_scheduled(s, k) || keys_have(keys, k) implies #[trigger] is_scheduled(s1, k) by {
        if keys.len() > 0 {
            if queue_has(s.dst, k) {
                let i = choose|i: int| 0 <= i < s.dst.len() && keys_have(#[trigger] s.dst[i].packets, k);
                assert(s1.dst[i] == s.dst[i]);
            } else if !queue_has(s.src, k) && !pending_has(s.pending, k) {
                assert(s1.dst[s.dst.len() as int].packets == keys);
            }
        }
    }
    lemma_nothing_fresh(s1, events);
}

/// An entry after a refresh: if its proofs are older than the destination
/// client's trusted height, its client update and proofs move to `fresh`.
pub open spec fn refreshed(d: OperationalDataView, trusted: Height, fresh: Height) -> OperationalDataView {
    if height_lt(d.proofs_height, trusted) {
        OperationalDataView { proofs_height: fresh, ..d }
    } else {
        d
    }
}

/// What submitting an entry gave.
#[derive(Clone, Debug, PartialEq, Eq)]
pub enum SubmitOutcome {
    /// Broadcast and accepted for inclusion, under this hash.
    Accepted { tx_hash: String },
    /// A passing failure (network, full mempool): try again later.
    Retryable,
    /// The chain refused the messages as malformed: drop them.
    Validation,
    /// The destination client expired or is frozen.
    ClientFatal,
}

/// Why executing the schedule stopped early.
#[derive(Clone, Copy, Debug, PartialEq, Eq, Structural)]
pub enum ExecuteError {
    Retryable,
    ClientFatal,
}

/// The entry at the head of the destination queue may be submitted at `now`.
pub open spec fn head_ready(s: RelayPathView, now: u64) -> bool {
    s.dst.len() > 0 && match s.dst[0].conn_delay_deadline {
        None => true,
        Some(d) => d <= now,
    }
}

/// The schedule after the entry `d`, taken from the head of the destination
/// queue, was submitted with `outcome`: accepted entries wait for
/// confirmation, refused ones are dropped, and the others go back to the head.
pub open spec fn after_outcome(
    s: RelayPathView,
    d: OperationalDataView,
    outcome: SubmitOutcome,
) -> RelayPathView {
    match outcome {
        SubmitOutcome::Accepted { tx_hash } => RelayPathView {
            pending: s.pending.push((tx_hash@, d)),
            ..s
        },
        SubmitOutcome::Validation => s,
        _ => RelayPathView { dst: seq![d] + s.dst, ..s },
    }
}

fn same_key(a: &PacketKey, b: &PacketKey) -> (r: bool)
    ensures
        r == (a@ == b@),
{
    a.kind == b.kind && a.channel_id == b.channel_id && a.sequence == b.sequence
}

fn keys_contain(keys: &Vec<PacketKey>, k: &PacketKey) -> (r: bool)
    ensures
        r == keys_have(keys@.map_values(|x: PacketKey| x@), k@),
{
    let ghost kv = keys@.map_values(|x: PacketKey| x@);
    let mut j: usize = 0;
    while j < keys.len()
        invariant
            j <= keys@.len(),
            kv == keys@.map_values(|x: PacketKey| x@),
            forall|m: int| 0 <= m < j ==> kv[m] != k@,
        decreases keys@.len() - j,
    {
        if same_key(&keys[j], k) {
            assert(kv[j as int] == k@);
            return true;
        }
        j = j + 1;
    }
    false
}

fn queue_contains(q: &Vec<OperationalData>, k: &PacketKey) -> (r: bool)
    ensures
        r == queue_has(data_views(q@), k@),
{
    let ghost qv = data_views(q@);
    let mut i: usize = 0;
    while i < q.len()
        invariant
            i <= q@.len(),
            qv == data_views(q@),
            forall|m: int| 0 <= m < i ==> !keys_have(#[trigger] qv[m].packets, k@),
        decreases q@.len() - i,
    {
        if keys_contain(&q[i].packets, k) {
            assert(keys_have(qv[i as int].packets, k@));
            return true;
        }
        i = i + 1;
    }
    false
}

fn pending_contains(p: &Vec<PendingTx>, k: &PacketKey) -> (r: bool)
    ensures
        r == pending_has(p@.map_values(|t: PendingTx| (t.tx_hash@, t.data@)), k@),
{
    let ghost pv = p@.map_values(|t: PendingTx| (t.tx_hash@, t.data@));
    let mut i: usize = 0;
    while i < p.len()
        invariant
            i <= p@.len(),
            pv == p@.map_values(|t: PendingTx| (t.tx_hash@, t.data@)),
            forall|m: int| 0 <= m < i ==> !keys_have(#[trigger] pv[m].1.packets, k@),
        decreases p@.len() - i,
    {
        if keys_contain(&p[i].data.packets, k) {
            assert(keys_have(pv[i as int].1.packets, k@));
            return true;
        }
        i = i + 1;
    }
    false
}

fn event_key_of(e: &IbcEvent) -> (r: Option<PacketKey>)
    ensures
        match event_key(*e) {
            Some(k) => r matches Some(x) && x@ == k,
            None => r is None,
        },
{
    match e {
        IbcEvent::SendPacket { channel_id, sequence } => Some(
            PacketKey {
                kind: PacketMsgKind::RecvPacket,
                channel_id: channel_id.clone(),
                sequence: *sequence,
            },
        ),
        IbcEvent::WriteAcknowledgement { channel_id, sequence } => Some(
            PacketKey {
                kind: PacketMsgKind::Acknowledgement,
                channel_id: channel_id.clone(),
                sequence: *sequence,
            },
        ),
        IbcEvent::TimedOutPacket { channel_id, sequence } => Some(
            PacketKey {
                kind: PacketMsgKind::Timeout,
                channel_id: channel_id.clone(),
                sequence: *sequence,
            },
        ),
        _ => None,
    }
}

impl RelayPath {
    pub fn new(connection_delay: u64) -> (r: RelayPath)
        ensures
            r@.src.len() == 0,
            r@.dst.len() == 0,
            r@.pending.len() == 0,
            !r@.cleared_once,
            !r@.clearing_in_flight,
            r@.connection_delay == connection_delay,
            keys_unique(r@),
    {
        let r = RelayPath {
            src_operational_data: Vec::new(),
            dst_operational_data: Vec::new(),
            pending_txs: Vec::new(),
            cleared_once: false,
            clearing_in_flight: false,
            connection_delay,
        };
        assert forall|k: PacketKeyView| #[trigger] total_count(r@, k) <= 1 by {
            assert(queue_count(r@.src, k) == 0);
            assert(queue_count(r@.dst, k) == 0);
            assert(pending_count(r@.pending, k) == 0);
        }
        r
    }

    /// Whether a message with this key is already waiting or in flight.
    pub fn is_scheduled(&self, k: &PacketKey) -> (r: bool)
        ensures
            r == is_scheduled(self@, k@),
    {
        queue_contains(&self.src_operational_data, k) || queue_contains(
            &self.dst_operational_data,
            k,
        ) || pending_contains(&self.pending_txs, k)
    }

    /// Schedules the messages that the events of `batch` call for, skipping
    /// those already scheduled, as one entry at the tail of the destination
    /// queue.
    pub fn update_schedule(&mut self, batch: &EventBatch, now: u64)
        ensures
            final(self)@ == schedule_after(old(self)@, batch.height, batch.events@, now),
    {
        let ghost s = self@;
        let mut keys: Vec<PacketKey> = Vec::new();
        let mut i: usize = 0;
        while i < batch.events.len()
            invariant
                i <= batch.events@.len(),
                self@ == s,
                keys@.map_values(|x: PacketKey| x@) == fresh_keys(s, batch.events@.take(i as int)),
            decreases batch.events@.len() - i,
        {
            let ghost prefix = batch.events@.take(i as int);
            assert(batch.events@.take(i + 1).drop_last() =~= prefix);
            assert(batch.events@.take(i + 1).last() == batch.events@[i as int]);
            match event_key_of(&batch.events[i]) {
                Some(k) => {
                    if !self.is_scheduled(&k) && !keys_contain(&keys, &k) {
                        let ghost before = keys@;
                        keys.push(k);
                        assert(keys@.map_values(|x: PacketKey| x@) =~= before.map_values(
                            |x: PacketKey| x@,
                        ).push(k@));
                    }
                },
                None => {},
            }
            i = i + 1;
        }
        assert(batch.events@.take(batch.events@.len() as int) =~= batch.events@);
        if keys.len() > 0 {
            let deadline = if self.connection_delay == 0 {
                None
            } else if self.connection_delay > u64::MAX - now {
                Some(u64::MAX)
            } else {
                Some(now + self.connection_delay)
            };
            let data = OperationalData {
                target: OperationalDataTarget::Destination,
                proofs_height: batch.height,
                scheduled_time: now,
                conn_delay_deadline: deadline,
                packets: keys,
            };
            self.dst_operational_data.push(data);
            assert(self@.dst =~= s.dst.push(data@));
        }
    }

    /// Retargets the destination entries whose proofs are older than the
    /// destination client's trusted height to the fresher `fresh_height`,
    /// keeping their order.
    pub fn refresh_schedule(&mut self, trusted_height: Height, fresh_height: Height)
        ensures
            final(self)@ == (RelayPathView {
                dst: old(self)@.dst.map_values(
                    |d: OperationalDataView| refreshed(d, trusted_height, fresh_height),
                ),
                ..old(self)@
            }),
    {
        let ghost s = self@;
        let mut queue: Vec<OperationalData> = Vec::new();
        std::mem::swap(&mut queue, &mut self.dst_operational_data);
        let ghost target = s.dst.map_values(
            |d: OperationalDataView| refreshed(d, trusted_height, fresh_height),
        );
        for d in it: queue.into_iter()
            invariant
                it.seq() == queue@,
                data_views(queue@) == s.dst,
                self.src_operational_data@ == old(self).src_operational_data@,
                self.pending_txs@ == old(self).pending_txs@,
                self.cleared_once == old(self).cleared_once,
                self.clearing_in_flight == old(self).clearing_in_flight,
                self.connection_delay == old(self).connection_delay,
                s == old(self)@,
                target == s.dst.map_values(
                    |d: OperationalDataView| refreshed(d, trusted_height, fresh_height),
                ),
                data_views(self.dst_operational_data@) =~= target.take(it.index() as int),
        {
            let mut d = d;
            let ghost before = data_views(self.dst_operational_data@);
            let ghost k = it.index() as int;
            assert(d@ == s.dst[k]);
            if d.proofs_height.lt(&trusted_height) {
                d.proofs_height = fresh_height;
            }
            assert(target.len() == s.dst.len());
            assert(target[k] == refreshed(s.dst[k], trusted_height, fresh_height));
            assert(d@ == target[k]);
            self.dst_operational_data.push(d);
            assert(data_views(self.dst_operational_data@) =~= before.push(d@));
            assert(target.take(k + 1) =~= target.take(k).push(target[k]));
        }
        assert(target.take(target.len() as int) =~= target);
    }

    /// Whether the head of the destination queue may be submitted at `now`.
    pub fn head_ready(&self, now: u64) -> (r: bool)
        ensures
            r == head_ready(self@, now),
    {
        if self.dst_operational_data.len() == 0 {
            return false;
        }
        match self.dst_operational_data[0].conn_delay_deadline {
            None => true,
            Some(d) => d <= now,
        }
    }

    /// Takes the head of the destination queue for submission, if it is ready.
    pub fn take_ready(&mut self, now: u64) -> (r: Option<OperationalData>)
        ensures
            head_ready(old(self)@, now) ==> (r matches Some(d) && d@ == old(self)@.dst[0]
                && final(self)@ == (RelayPathView { dst: old(self)@.dst.drop_first(), ..old(self)@ })),
            !head_ready(old(self)@, now) ==> r is None && final(self)@ == old(self)@,
    {
        if !self.head_ready(now) {
            return None;
        }
        let ghost s = self@;
        let d = self.dst_operational_data.remove(0);
        assert(self@.dst =~= s.dst.drop_first());
        Some(d)
    }

    /// Records how submitting `data`, taken with `take_ready`, went. Accepted
    /// entries wait for confirmation and refused ones are dropped; both let
    /// execution go on. After a passing or a client failure the entry goes
    /// back to the head, and execution stops with that error.
    pub fn on_submitted(&mut self, data: OperationalData, outcome: SubmitOutcome) -> (r: Result<
        (),
        ExecuteError,
    >)
        ensures
            final(self)@ == after_outcome(old(self)@, data@, outcome),
            r is Ok <==> (outcome is Accepted || outcome is Validation),
            outcome is Retryable ==> r == Err::<(), ExecuteError>(ExecuteError::Retryable),
            outcome is ClientFatal ==> r == Err::<(), ExecuteError>(ExecuteError::ClientFatal),
    {
        let ghost s = self@;
        let ghost dv = data@;
        match outcome {
            SubmitOutcome::Accepted { tx_hash } => {
                self.pending_txs.push(PendingTx { tx_hash, data });
                assert(self@.pending =~= s.pending.push((tx_hash@, dv)));
                Ok(())
            },
            SubmitOutcome::Validation => Ok(()),
            SubmitOutcome::Retryable => {
                self.dst_operational_data.insert(0, data);
                assert(self@.dst =~= seq![dv] + s.dst);
                Err(ExecuteError::Retryable)
            },
            SubmitOutcome::ClientFatal => {
                self.dst_operational_data.insert(0, data);
                assert(self@.dst =~= seq![dv] + s.dst);
                Err(ExecuteError::ClientFatal)
            },
        }
    }

    /// Removes the first pending transaction with this hash once it is
    /// committed, handing back what it carried.
    pub fn remove_committed(&mut self, tx_hash: &String) -> (r: Option<OperationalData>)
        ensures
            (exists|i: int|
                0 <= i < old(self)@.pending.len() && #[trigger] old(self)@.pending[i].0
                    == tx_hash@) ==> exists|i: int|
                0 <= i < old(self)@.pending.len() && #[trigger] old(self)@.pending[i].0 == tx_hash@
                    && (forall|j: int| 0 <= j < i ==> old(self)@.pending[j].0 != tx_hash@)
                    && (r matches Some(d) && d@ == old(self)@.pending[i].1 && final(self)@ == (
                RelayPathView { pending: old(self)@.pending.remove(i), ..old(self)@ })),
            !(exists|i: int|
                0 <= i < old(self)@.pending.len() && #[trigger] old(self)@.pending[i].0
                    == tx_hash@) ==> r is None && final(self)@ == old(self)@,
    {
        let ghost s = self@;
        let mut i: usize = 0;
        while i < self.pending_txs.len()
            invariant
                i <= self.pending_txs@.len(),
                self@ == s,
                s == old(self)@,
                forall|j: int| 0 <= j < i ==> s.pending[j].0 != tx_hash@,
            decreases self.pending_txs@.len() - i,
        {
            if self.pending_txs[i].tx_hash == *tx_hash {
                assert(s.pending[i as int].0 == tx_hash@);
                let ghost dv = s.pending[i as int].1;
                let p = self.pending_txs.remove(i);
                assert(p.data@ == dv);
                assert(self@.pending =~= s.pending.remove(i as int));
                assert(self@ == (RelayPathView { pending: s.pending.remove(i as int), ..s }));
                return Some(p.data);
            }
            i = i + 1;
        }
        None
    }

    /// Starts a clearing of pending packets, unless one is already running, or
    /// packets were cleared before and the clearing is not forced.
    pub fn begin_clearing(&mut self, force: bool) -> (r: bool)
        ensures
            r == (!old(self)@.clearing_in_flight && (force || !old(self)@.cleared_once)),
            r ==> final(self)@ == (RelayPathView { clearing_in_flight: true, ..old(self)@ }),
            !r ==> final(self)@ == old(self)@,
    {
        if self.clearing_in_flight || (!force && self.cleared_once) {
            return false;
        }
        self.clearing_in_flight = true;
        true
    }

    /// Ends a clearing: what it found is scheduled, and packets count as
    /// cleared once.
    pub fn finish_clearing(&mut self, found: &EventBatch, now: u64)
        ensures
            final(self)@ == (RelayPathView {
                cleared_once: true,
                clearing_in_flight: false,
                ..schedule_after(old(self)@, found.height, found.events@, now)
            }),
    {
        self.update_schedule(found, now);
        self.cleared_once = true;
        self.clearing_in_flight = false;
    }

    /// Gives up a clearing that failed; a later one may start.
    pub fn abort_clearing(&mut self)
        ensures
            final(self)@ == (RelayPathView { clearing_in_flight: false, ..old(self)@ }),
    {
        self.clearing_in_flight = false;
    }
}

/// An entry taken from the head of the destination queue leaves it exactly
/// once. Accepted, it waits once among the pending transactions; refused, it
/// is dropped; after a passing or client failure the schedule is as before
/// the entry was taken, so it is still the next one to go.
pub proof fn lemma_taken_entry_leaves_once(s: RelayPathView, outcome: SubmitOutcome)
    requires
        s.dst.len() > 0,
    ensures
        ({
            let taken = RelayPathView { dst: s.dst.drop_first(), ..s };
            let after = after_outcome(taken, s.dst[0], outcome);
            &&& (outcome is Accepted || outcome is Validation) ==> after.dst == s.dst.drop_first()
            &&& outcome matches SubmitOutcome::Accepted { tx_hash } ==> after.pending
                == s.pending.push((tx_hash@, s.dst[0]))
            &&& outcome is Validation ==> after.pending == s.pending
            &&& (outcome is Retryable || outcome is ClientFatal) ==> after == s
        }),
{
    assert(seq![s.dst[0]] + s.dst.drop_first() =~= s.dst);
}

/// Occurrences of `k` among `keys`.
pub open spec fn key_count(keys: Seq<PacketKeyView>, k: PacketKeyView) -> nat
    decreases keys.len(),
{
    if keys.len() == 0 {
        0
    } else {
        key_count(keys.drop_last(), k) + if keys.last() == k {
            1nat
        } else {
            0nat
        }
    }
}

/// Occurrences of `k` among the entries of a queue.
pub open spec fn queue_count(q: Seq<OperationalDataView>, k: PacketKeyView) -> nat
    decreases q.len(),
{
    if q.len() == 0 {
        0
    } else {
        queue_count(q.drop_last(), k) + key_count(q.last().packets, k)
    }
}

/// Occurrences of `k` among the pending transactions.
pub open spec fn pending_count(p: Seq<(Seq<char>, OperationalDataView)>, k: PacketKeyView) -> nat
    decreases p.len(),
{
    if p.len() == 0 {
        0
    } else {
        pending_count(p.drop_last(), k) + key_count(p.last().1.packets, k)
    }
}

pub open spec fn total_count(s: RelayPathView, k: PacketKeyView) -> nat {
    queue_count(s.src, k) + queue_count(s.dst, k) + pending_count(s.pending, k)
}

/// Every packet message is held at most once: in one queue entry or one
/// pending transaction, never twice.
pub open spec fn keys_unique(s: RelayPathView) -> bool {
    forall|k: PacketKeyView| #[trigger] total_count(s, k) <= 1
}

proof fn lemma_key_count_has(keys: Seq<PacketKeyView>, k: PacketKeyView)
    ensures
        key_count(keys, k) > 0 <==> keys_have(keys, k),
    decreases keys.len(),
{
    if keys.len() > 0 {
        let init = keys.drop_last();
        lemma_key_count_has(init, k);
        if keys_have(init, k) {
            let j = choose|j: int| 0 <= j < init.len() && #[trigger] init[j] == k;
            assert(keys[j] == k);
        }
        if keys_have(keys, k) && keys.last() != k {
            let j = choose|j: int| 0 <= j < keys.len() && #[trigger] keys[j] == k;
            assert(init[j] == k);
        }
    }
}

proof fn lemma_queue_count_has(q: Seq<OperationalDataView>, k: PacketKeyView)
    ensures
        queue_count(q, k) > 0 <==> queue_has(q, k),
    decreases q.len(),
{
    if q.len() > 0 {
        let init = q.drop_last();
        lemma_queue_count_has(init, k);
        lemma_key_count_has(q.last().packets, k);
        if queue_has(init, k) {
            let i = choose|i: int| 0 <= i < init.len() && keys_have(#[trigger] init[i].packets, k);
            assert(q[i] == init[i]);
        }
        if queue_has(q, k) && !keys_have(q.last().packets, k) {
            let i = choose|i: int| 0 <= i < q.len() && keys_have(#[trigger] q[i].packets, k);
            assert(init[i] == q[i]);
        }
    }
}

proof fn lemma_pending_count_has(p: Seq<(Seq<char>, OperationalDataView)>, k: PacketKeyView)
    ensures
        pending_count(p, k) > 0 <==> pending_has(p, k),
    decreases p.len(),
{
    if p.len() > 0 {
        let init = p.drop_last();
        lemma_pending_count_has(init, k);
        lemma_key_count_has(p.last().1.packets, k);
        if pending_has(init, k) {
            let i = choose|i: int| 0 <= i < init.len() && keys_have(#[trigger] init[i].1.packets, k);
            assert(p[i] == init[i]);
        }
        if pending_has(p, k) && !keys_have(p.last().1.packets, k) {
            let i = choose|i: int| 0 <= i < p.len() && keys_have(#[trigger] p[i].1.packets, k);
            assert(init[i] == p[i]);
        }
    }
}

proof fn lemma_queue_count_front(q: Seq<OperationalDataView>, k: PacketKeyView)
    requires
        q.len() > 0,
    ensures
        queue_count(q, k) == key_count(q[0].packets, k) + queue_count(q.drop_first(), k),
    decreases q.len(),
{
    if q.len() > 1 {
        lemma_queue_count_front(q.drop_last(), k);
        assert(q.drop_last().drop_first() =~= q.drop_first().drop_last());
        assert(q.drop_first().last() == q.last());
        assert(q.drop_last()[0] == q[0]);
    } else {
        assert(q.drop_first().len() == 0);
        assert(q.drop_last().len() == 0);
        assert(queue_count(q.drop_first(), k) == 0);
        assert(queue_count(q.drop_last(), k) == 0);
        assert(q.last() == q[0]);
    }
}

proof fn lemma_pending_count_remove(p: Seq<(Seq<char>, OperationalDataView)>, i: int, k: PacketKeyView)
    requires
        0 <= i < p.len(),
    ensures
        pending_count(p, k) == pending_count(p.remove(i), k) + key_count(p[i].1.packets, k),
    decreases p.len(),
{
    if i < p.len() - 1 {
        lemma_pending_count_remove(p.drop_last(), i, k);
        assert(p.remove(i).drop_last() =~= p.drop_last().remove(i));
        assert(p.remove(i).last() == p.last());
    } else {
        assert(p.remove(i) =~= p.drop_last());
    }
}

proof fn lemma_queue_count_refreshed(
    q: Seq<OperationalDataView>,
    trusted: Height,
    fresh: Height,
    k: PacketKeyView,
)
    ensures
        queue_count(q.map_values(|d: OperationalDataView| refreshed(d, trusted, fresh)), k)
            == queue_count(q, k),
    decreases q.len(),
{
    let m = q.map_values(|d: OperationalDataView| refreshed(d, trusted, fresh));
    if q.len() > 0 {
        lemma_queue_count_refreshed(q.drop_last(), trusted, fresh, k);
        assert(m.drop_last() =~= q.drop_last().map_values(
            |d: OperationalDataView| refreshed(d, trusted, fresh),
        ));
        assert(m.last().packets == q.last().packets);
    }
}

proof fn lemma_fresh_keys_new_and_distinct(s: RelayPathView, events: Seq<IbcEvent>, k: PacketKeyView)
    ensures
        key_count(fresh_keys(s, events), k) <= 1,
        key_count(fresh_keys(s, events), k) > 0 ==> !is_scheduled(s, k),
    decreases events.len(),
{
    if events.len() > 0 {
        let prev = fresh_keys(s, events.drop_last());
        lemma_fresh_keys_new_and_distinct(s, events.drop_last(), k);
        lemma_key_count_has(prev, k);
        match event_key(events.last()) {
            Some(k2) => {
                if !is_scheduled(s, k2) && !keys_have(prev, k2) {
                    assert(prev.push(k2).drop_last() =~= prev);
                    assert(fresh_keys(s, events) == prev.push(k2));
                    assert(key_count(prev.push(k2), k) == key_count(prev, k) + if k2 == k {
                        1nat
                    } else {
                        0nat
                    });
                } else {
                    assert(fresh_keys(s, events) == prev);
                }
            },
            None => {
                assert(fresh_keys(s, events) == prev);
            },
        }
    } else {
        assert(key_count(fresh_keys(s, events), k) == 0);
    }
}

/// Scheduling a batch keeps every packet message held at most once.
pub proof fn lemma_update_keeps_keys_unique(
    s: RelayPathView,
    height: Height,
    events: Seq<IbcEvent>,
    now: u64,
)
    requires
        keys_unique(s),
    ensures
        keys_unique(schedule_after(s, height, events, now)),
{
    let s1 = schedule_after(s, height, events, now);
    assert forall|k: PacketKeyView| #[trigger] total_count(s1, k) <= 1 by {
        let keys = fresh_keys(s, events);
        if keys.len() > 0 {
            lemma_fresh_keys_new_and_distinct(s, events, k);
            assert(s1.dst.drop_last() =~= s.dst);
            assert(queue_count(s1.dst, k) == queue_count(s.dst, k) + key_count(keys, k));
            if key_count(keys, k) > 0 {
                lemma_queue_count_has(s.src, k);
                lemma_queue_count_has(s.dst, k);
                lemma_pending_count_has(s.pending, k);
            }
        }
        assert(total_count(s, k) <= 1);
    }
}

/// Taking the head entry and recording its submission keeps every packet
/// message held at most once, whatever the outcome.
pub proof fn lemma_submission_keeps_keys_unique(s: RelayPathView, outcome: SubmitOutcome)
    requires
        keys_unique(s),
        s.dst.len() > 0,
    ensures
        keys_unique(
            after_outcome(RelayPathView { dst: s.dst.drop_first(), ..s }, s.dst[0], outcome),
        ),
{
    let taken = RelayPathView { dst: s.dst.drop_first(), ..s };
    let after = after_outcome(taken, s.dst[0], outcome);
    lemma_taken_entry_leaves_once(s, outcome);
    assert forall|k: PacketKeyView| #[trigger] total_count(after, k) <= 1 by {
        lemma_queue_count_front(s.dst, k);
        assert(total_count(s, k) <= 1);
        match outcome {
            SubmitOutcome::Accepted { tx_hash } => {
                assert(after.pending.drop_last() =~= s.pending);
                assert(after.pending.last() == (tx_hash@, s.dst[0]));
            },
            _ => {},
        }
    }
}

/// Removing a committed transaction keeps every packet message held at most
/// once.
pub proof fn lemma_commit_keeps_keys_unique(s: RelayPathView, i: int)
    requires
        keys_unique(s),
        0 <= i < s.pending.len(),
    ensures
        keys_unique(RelayPathView { pending: s.pending.remove(i), ..s }),
{
    let after = RelayPathView { pending: s.pending.remove(i), ..s };
    assert forall|k: PacketKeyView| #[trigger] total_count(after, k) <= 1 by {
        lemma_pending_count_remove(s.pending, i, k);
        assert(total_count(s, k) <= 1);
    }
}

/// Retargeting stale entries keeps every packet message held at most once.
pub proof fn lemma_refresh_keeps_keys_unique(s: RelayPathView, trusted: Height, fresh: Height)
    requires
        keys_unique(s),
    ensures
        keys_unique(
            RelayPathView {
                dst: s.dst.map_values(|d: OperationalDataView| refreshed(d, trusted, fresh)),
                ..s
            },
        ),
{
    let after = RelayPathView {
        dst: s.dst.map_values(|d: OperationalDataView| refreshed(d, trusted, fresh)),
        ..s
    };
    assert forall|k: PacketKeyView| #[trigger] total_count(after, k) <= 1 by {
        lemma_queue_count_refreshed(s.dst, trusted, fresh, k);
        assert(total_count(s, k) <= 1);
    }
}

/// One change to a relay direction's schedule, as the packet and link tasks
/// make them.
pub enum ScheduleStep {
    /// A batch of events arrives (from the chain, or found by clearing).
    Update { height: Height, events: Seq<IbcEvent>, now: u64 },
    /// The head entry is taken and submitted with this outcome.
    Submit { outcome: SubmitOutcome },
    /// The pending transaction at `index` is committed.
    Commit { index: int },
    /// Stale entries are retargeted.
    Refresh { trusted: Height, fresh: Height },
}

pub open spec fn apply_step(s: RelayPathView, step: ScheduleStep) -> RelayPathView {
    match step {
        ScheduleStep::Update { height, events, now } => schedule_after(s, height, events, now),
        ScheduleStep::Submit { outcome } => if s.dst.len() > 0 {
            after_outcome(RelayPathView { dst: s.dst.drop_first(), ..s }, s.dst[0], outcome)
        } else {
            s
        },
        ScheduleStep::Commit { index } => if 0 <= index < s.pending.len() {
            RelayPathView { pending: s.pending.remove(index), ..s }
        } else {
            s
        },
        ScheduleStep::Refresh { trusted, fresh } => RelayPathView {
            dst: s.dst.map_values(|d: OperationalDataView| refreshed(d, trusted, fresh)),
            ..s
        },
    }
}

/// The schedule after `steps`, in order.
pub open spec fn run_steps(s: RelayPathView, steps: Seq<ScheduleStep>) -> RelayPathView
    decreases steps.len(),
{
    if steps.len() == 0 {
        s
    } else {
        apply_step(run_steps(s, steps.drop_last()), steps.last())
    }
}

/// Over any run of the tasks, every packet message is held at most once: an
/// entry is never queued twice, nor carried by two pending transactions, so
/// it is consumed (sent or dropped) at most once.
pub proof fn lemma_run_keeps_keys_unique(s: RelayPathView, steps: Seq<ScheduleStep>)
    requires
        keys_unique(s),
    ensures
        keys_unique(run_steps(s, steps)),
    decreases steps.len(),
{
    if steps.len() > 0 {
        lemma_run_keeps_keys_unique(s, steps.drop_last());
        let prev = run_steps(s, steps.drop_last());
        match steps.last() {
            ScheduleStep::Update { height, events, now } => {
                lemma_update_keeps_keys_unique(prev, height, events, now);
            },
            ScheduleStep::Submit { outcome } => {
                if prev.dst.len() > 0 {
                    lemma_submission_keeps_keys_unique(prev, outcome);
                }
            },
            ScheduleStep::Commit { index } => {
                if 0 <= index < prev.pending.len() {
                    lemma_commit_keeps_keys_unique(prev, index);
                }
            },
            ScheduleStep::Refresh { trusted, fresh } => {
                lemma_refresh_keeps_keys_unique(prev, trusted, fresh);
            },
        }
    }
}

} // verus!
