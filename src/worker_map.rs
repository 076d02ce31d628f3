//! The registry of live workers, at most one per object.
use vstd::prelude::*;

use crate::ids::{Object, ObjectView};
use crate::worker::WorkerId;

verus! {

/// A live worker: its identifier, the object it works on, and its handle.
pub struct WorkerEntry<H> {
    pub id: WorkerId,
    pub object: Object,
    pub handle: H,
}

/// Live workers in the order they were spawned, and the identifier the next
/// one will get.
pub struct WorkerMap<H> {
    entries: Vec<WorkerEntry<H>>,
    next_id: u64,
}

/// A worker as the registry sees it: object, identifier, handle.
pub type WorkerView<H> = (ObjectView, u64, H);

pub open spec fn objects_unique<H>(workers: Seq<WorkerView<H>>) -> bool {
    forall|i: int, j: int|
        0 <= i < workers.len() && 0 <= j < workers.len() && #[trigger] workers[i].0
            == #[trigger] workers[j].0 ==> i == j
}

pub open spec fn has_object<H>(workers: Seq<WorkerView<H>>, o: ObjectView) -> bool {
    exists|i: int| 0 <= i < workers.len() && #[trigger] workers[i].0 == o
}

/// A packet worker relaying from chain `chain_id`.
pub open spec fn is_packet_from(o: ObjectView, chain_id: Seq<char>) -> bool {
    o matches ObjectView::Packet { src_chain_id, .. } && src_chain_id == chain_id
}

/// Identifiers of the packet workers relaying from `chain_id`, in order.
pub open spec fn packet_ids_from<H>(workers: Seq<WorkerView<H>>, chain_id: Seq<char>) -> Seq<u64>
    decreases workers.len(),
{
    if workers.len() == 0 {
        Seq::empty()
    } else {
        let prev = packet_ids_from(workers.drop_last(), chain_id);
        if is_packet_from(workers.last().0, chain_id) {
            prev.push(workers.last().1)
        } else {
            prev
        }
    }
}

impl<H> View for WorkerMap<H> {
    type V = Seq<WorkerView<H>>;

    closed spec fn view(&self) -> Seq<WorkerView<H>> {
        self.entries@.map_values(|e: WorkerEntry<H>| (e.object@, e.id.0, e.handle))
    }
}

impl<H> WorkerMap<H> {
    /// The identifier the next spawned worker gets.
    pub closed spec fn next_id_spec(&self) -> u64 {
        self.next_id
    }

    /// Objects are unique, and identifiers increase in spawn order and stay
    /// below the next one.
    pub closed spec fn wf(&self) -> bool {
        &&& objects_unique(self@)
        &&& forall|i: int, j: int|
            0 <= i < j < self@.len() ==> #[trigger] self@[i].1 < #[trigger] self@[j].1
        &&& forall|i: int| 0 <= i < self@.len() ==> #[trigger] self@[i].1 < self.next_id
    }

    pub fn new() -> (r: WorkerMap<H>)
        ensures
            r.wf(),
            r@.len() == 0,
            r.next_id_spec() == 0,
    {
        WorkerMap { entries: Vec::new(), next_id: 0 }
    }

    pub fn len(&self) -> (r: usize)
        ensures
            r == self@.len(),
    {
        self.entries.len()
    }

    fn position(&self, object: &Object) -> (r: Option<usize>)
        ensures
            r matches Some(i) ==> i < self@.len() && self@[i as int].0 == object@,
            r is None ==> !has_object(self@, object@),
    {
        let mut i: usize = 0;
        while i < self.entries.len()
            invariant
                i <= self.entries@.len(),
                forall|k: int| 0 <= k < i ==> #[trigger] self@[k].0 != object@,
            decreases self.entries@.len() - i,
        {
            if self.entries[i].object.same_as(object) {
                return Some(i);
            }
            i = i + 1;
        }
        None
    }

    /// Whether a live worker works on `object`.
    pub fn contains(&self, object: &Object) -> (r: bool)
        ensures
            r == has_object(self@, object@),
    {
        self.position(object).is_some()
    }

    /// The handle of the worker on `object`, if there is one.
    pub fn get(&self, object: &Object) -> (r: Option<&H>)
        ensures
            r is Some <==> has_object(self@, object@),
            r matches Some(h) ==> exists|i: int|
                0 <= i < self@.len() && #[trigger] self@[i].0 == object@ && self@[i].2 == *h,
    {
        match self.position(object) {
            Some(i) => Some(&self.entries[i].handle),
            None => None,
        }
    }

    /// The identifier the next spawned worker will get.
    pub fn next_id(&self) -> (r: WorkerId)
        ensures
            r.0 == self.next_id_spec(),
    {
        WorkerId(self.next_id)
    }

    /// Registers the worker spawned for `object` under the next identifier.
    /// The handle comes back unregistered when a worker on `object` is
    /// already live, or when identifiers are exhausted.
    pub fn insert(&mut self, object: Object, handle: H) -> (r: Result<WorkerId, H>)
        requires
            old(self).wf(),
        ensures
            final(self).wf(),
            (has_object(old(self)@, object@) || old(self).next_id_spec() == u64::MAX) ==> r
                == Err::<WorkerId, H>(handle) && final(self)@ == old(self)@
                && final(self).next_id_spec() == old(self).next_id_spec(),
            !(has_object(old(self)@, object@) || old(self).next_id_spec() == u64::MAX) ==> r
                == Ok::<WorkerId, H>(WorkerId(old(self).next_id_spec())) && final(self)@ == old(
                self,
            )@.push((object@, old(self).next_id_spec(), handle)) && final(self).next_id_spec()
                == old(self).next_id_spec() + 1,
    {
        if self.contains(&object) || self.next_id == u64::MAX {
            return Err(handle);
        }
        let id = WorkerId(self.next_id);
        let ghost old_view = self@;
        self.entries.push(WorkerEntry { id, object, handle });
        self.next_id = self.next_id + 1;
        assert(self@ =~= old_view.push((object@, id.0, handle)));
        Ok(id)
    }

    /// Forgets the worker `id` on `object` once it has stopped, and hands back
    /// its handle. A message from an older worker on the same object, which a
    /// newer one has replaced, changes nothing.
    pub fn remove_stopped(&mut self, id: WorkerId, object: &Object) -> (r: Option<H>)
        requires
            old(self).wf(),
        ensures
            final(self).wf(),
            final(self).next_id_spec() == old(self).next_id_spec(),
            (exists|i: int|
                0 <= i < old(self)@.len() && #[trigger] old(self)@[i].0 == object@ && old(
                    self,
                )@[i].1 == id.0) ==> exists|i: int|
                0 <= i < old(self)@.len() && #[trigger] old(self)@[i].0 == object@ && old(
                    self,
                )@[i].1 == id.0 && r == Some(old(self)@[i].2) && final(self)@ == old(
                    self,
                )@.remove(i),
            !(exists|i: int|
                0 <= i < old(self)@.len() && #[trigger] old(self)@[i].0 == object@ && old(
                    self,
                )@[i].1 == id.0) ==> r is None && final(self)@ == old(self)@,
    {
        match self.position(object) {
            Some(i) => {
                if self.entries[i].id.0 == id.0 {
                    let ghost old_view = self@;
                    let e = self.entries.remove(i);
                    assert(self@ =~= old_view.remove(i as int));
                    Some(e.handle)
                } else {
                    proof {
                        assert forall|k: int|
                            0 <= k < self@.len() && #[trigger] self@[k].0 == object@ implies self@[k].1
                            != id.0 by {
                            assert(k == i as int);
                        }
                    }
                    None
                }
            },
            None => None,
        }
    }

    /// Identifiers of the packet workers relaying from chain `chain_id`, in
    /// spawn order: those that follow the chain's new blocks.
    pub fn packet_workers_from(&self, chain_id: &String) -> (r: Vec<WorkerId>)
        ensures
            r@.map_values(|w: WorkerId| w.0) == packet_ids_from(self@, chain_id@),
    {
        let mut r: Vec<WorkerId> = Vec::new();
        let mut k: usize = 0;
        while k < self.entries.len()
            invariant
                k <= self@.len(),
                r@.map_values(|w: WorkerId| w.0) == packet_ids_from(self@.take(k as int), chain_id@),
            decreases self@.len() - k,
        {
            let from_chain = match &self.entries[k].object {
                Object::Packet { src_chain_id, .. } => *src_chain_id == *chain_id,
                _ => false,
            };
            assert(self@.take(k + 1).drop_last() =~= self@.take(k as int));
            assert(self@.take(k + 1).last() == self@[k as int]);
            if from_chain {
                let ghost before = r@;
                r.push(self.entries[k].id);
                assert(r@.map_values(|w: WorkerId| w.0) =~= before.map_values(|w: WorkerId| w.0).push(
                    self@[k as int].1,
                ));
            }
            k = k + 1;
        }
        assert(self@.take(self@.len() as int) =~= self@);
        r
    }

    /// The handle of the live worker `id`, if there is one.
    pub fn get_by_id(&self, id: WorkerId) -> (r: Option<&H>)
        ensures
            r is Some <==> exists|k: int| 0 <= k < self@.len() && (#[trigger] self@[k]).1 == id.0,
            r matches Some(h) ==> exists|k: int|
                0 <= k < self@.len() && (#[trigger] self@[k]).1 == id.0 && self@[k].2 == *h,
    {
        let mut k: usize = 0;
        while k < self.entries.len()
            invariant
                k <= self@.len(),
                forall|m: int| 0 <= m < k ==> (#[trigger] self@[m]).1 != id.0,
            decreases self@.len() - k,
        {
            if self.entries[k].id.0 == id.0 {
                assert(self@[k as int].1 == id.0);
                return Some(&self.entries[k].handle);
            }
            k = k + 1;
        }
        None
    }

    /// Empties the registry on shutdown, handing back every handle in spawn
    /// order.
    pub fn take_all(&mut self) -> (r: Vec<H>)
        requires
            old(self).wf(),
        ensures
            final(self).wf(),
            final(self)@.len() == 0,
            final(self).next_id_spec() == old(self).next_id_spec(),
            r@ == old(self)@.map_values(|w: WorkerView<H>| w.2),
    {
        let mut handles: Vec<H> = Vec::new();
        let ghost old_view = self@;
        let mut entries: Vec<WorkerEntry<H>> = Vec::new();
        std::mem::swap(&mut entries, &mut self.entries);
        assert(entries@.map_values(|e: WorkerEntry<H>| (e.object@, e.id.0, e.handle)) == old_view);
        for e in it: entries.into_iter()
            invariant
                it.seq() == entries@,
                entries@.map_values(|e: WorkerEntry<H>| (e.object@, e.id.0, e.handle)) == old_view,
                handles@ =~= old_view.take(it.index() as int).map_values(|w: WorkerView<H>| w.2),
                self.entries@.len() == 0,
        {
            let ghost before = handles@;
            handles.push(e.handle);
            proof {
                let k = it.index() as int;
                assert(old_view[k].2 == entries@[k].handle);
                assert(old_view.take(k + 1).map_values(|w: WorkerView<H>| w.2) =~= before.push(
                    e.handle,
                ));
            }
        }
        assert(old_view.take(old_view.len() as int) =~= old_view);
        handles
    }
}

/// A well-formed registry holds at most one live worker per object. Every
/// registry is well formed: `new` makes one, and `insert`, `remove_stopped`
/// and `take_all` keep it so.
pub proof fn lemma_at_most_one_worker_per_object<H>(map: &WorkerMap<H>, object: ObjectView)
    requires
        map.wf(),
    ensures
        forall|i: int, j: int|
            0 <= i < map@.len() && 0 <= j < map@.len() && #[trigger] map@[i].0 == object
                && #[trigger] map@[j].0 == object ==> i == j,
{
}

/// Registering a worker for an object that has no live worker leaves exactly
/// one worker on it, and the registry still holds one worker per object.
pub proof fn lemma_registration_leaves_one_worker<H>(
    workers: Seq<WorkerView<H>>,
    object: ObjectView,
    id: u64,
    handle: H,
)
    requires
        objects_unique(workers),
        !has_object(workers, object),
    ensures
        objects_unique(workers.push((object, id, handle))),
        has_object(workers.push((object, id, handle)), object),
        forall|i: int|
            0 <= i <= workers.len() && (#[trigger] workers.push((object, id, handle))[i]).0
                == object ==> i == workers.len(),
{
    let after = workers.push((object, id, handle));
    assert(after[workers.len() as int].0 == object);
    assert forall|i: int| 0 <= i < workers.len() implies #[trigger] after[i] == workers[i] by {}
}

/// Forgetting a stopped worker keeps one worker per object.
pub proof fn lemma_removal_keeps_one_worker<H>(workers: Seq<WorkerView<H>>, i: int)
    requires
        objects_unique(workers),
        0 <= i < workers.len(),
    ensures
        objects_unique(workers.remove(i)),
{
    let after = workers.remove(i);
    assert forall|a: int, b: int|
        0 <= a < after.len() && 0 <= b < after.len() && #[trigger] after[a].0
            == #[trigger] after[b].0 implies a == b by {
        let a0 = if a < i { a } else { a + 1 };
        let b0 = if b < i { b } else { b + 1 };
        assert(after[a] == workers[a0]);
        assert(after[b] == workers[b0]);
    }
}

} // verus!
