//! The supervisor's routing: events grouped by the object they concern, in
//! the order they arrived.
use vstd::prelude::*;

use crate::events::IbcEvent;
use crate::ids::{Object, ObjectView};

verus! {

/// The events of `pairs` that concern `o`, in order.
pub open spec fn events_for(pairs: Seq<(Object, IbcEvent)>, o: ObjectView) -> Seq<IbcEvent>
    decreases pairs.len(),
{
    if pairs.len() == 0 {
        Seq::empty()
    } else {
        let prev = events_for(pairs.drop_last(), o);
        if pairs.last().0@ == o {
            prev.push(pairs.last().1)
        } else {
            prev
        }
    }
}

/// The objects of `pairs`, each once, in order of first appearance.
pub open spec fn objects_in_order(pairs: Seq<(Object, IbcEvent)>) -> Seq<ObjectView>
    decreases pairs.len(),
{
    if pairs.len() == 0 {
        Seq::empty()
    } else {
        let prev = objects_in_order(pairs.drop_last());
        if prev.contains(pairs.last().0@) {
            prev
        } else {
            prev.push(pairs.last().0@)
        }
    }
}

proof fn lemma_objects_in_order_distinct(pairs: Seq<(Object, IbcEvent)>)
    ensures
        objects_in_order(pairs).no_duplicates(),
    decreases pairs.len(),
{
    if pairs.len() > 0 {
        lemma_objects_in_order_distinct(pairs.drop_last());
    }
}

/// Groups events by the object they concern: one group per object, objects in
/// order of first appearance, each group's events in arrival order. Every
/// command to a worker then carries the events of its object only, and the
/// worker sees them in the order the chain emitted them.
pub fn group_by_object(pairs: Vec<(Object, IbcEvent)>) -> (r: Vec<(Object, Vec<IbcEvent>)>)
    ensures
        r@.map_values(|g: (Object, Vec<IbcEvent>)| g.0@) == objects_in_order(pairs@),
        objects_in_order(pairs@).no_duplicates(),
        forall|i: int|
            0 <= i < r@.len() ==> (#[trigger] r@[i]).1@ == events_for(pairs@, r@[i].0@),
{
    let ghost ps = pairs@;
    let mut objects: Vec<Object> = Vec::new();
    let mut groups: Vec<Vec<IbcEvent>> = Vec::new();
    let mut idx: usize = 0;
    let count = pairs.len();
    for pair in it: pairs.into_iter()
        invariant
            count == ps.len(),
            it.seq() == ps,
            idx == it.index(),
            idx <= ps.len(),
            objects@.len() == groups@.len(),
            objects@.map_values(|o: Object| o@) == objects_in_order(ps.take(idx as int)),
            forall|i: int|
                0 <= i < groups@.len() ==> (#[trigger] groups@[i])@ == events_for(
                    ps.take(idx as int),
                    objects@[i]@,
                ),
    {
        let ghost prefix = ps.take(idx as int);
        let ghost next = ps.take(idx + 1);
        assert(next.drop_last() =~= prefix);
        assert(next.last() == pair);
        let (object, event) = pair;
        let ghost ov = objects@.map_values(|o: Object| o@);
        let found = find_object(&objects, &object);
        match found {
            Some(j) => {
                let ghost old_groups = groups@;
                let mut g = groups.remove(j);
                g.push(event);
                groups.insert(j, g);
                assert(ov[j as int] == object@);
                assert(ov.contains(object@));
                assert forall|i: int| 0 <= i < groups@.len() implies (#[trigger] groups@[i])@
                    == events_for(next, objects@[i]@) by {
                    if i != j {
                        assert(groups@[i] == old_groups[i]);
                        assert(ov[i] != object@) by {
                            lemma_objects_in_order_distinct(prefix);
                        }
                    }
                }
            },
            None => {
                assert(!ov.contains(object@)) by {
                    if ov.contains(object@) {
                        let w = choose|w: int| 0 <= w < ov.len() && ov[w] == object@;
                        assert(objects@[w]@ == object@);
                    }
                }
                let ghost old_groups = groups@;
                let mut g: Vec<IbcEvent> = Vec::new();
                g.push(event);
                objects.push(object);
                groups.push(g);
                assert(objects@.map_values(|o: Object| o@) =~= ov.push(object@));
                assert forall|i: int| 0 <= i < groups@.len() implies (#[trigger] groups@[i])@
                    == events_for(next, objects@[i]@) by {
                    if i < old_groups.len() {
                        assert(groups@[i] == old_groups[i]);
                        assert(ov[i] != object@);
                    } else {
                        assert(events_for(prefix, object@) =~= Seq::<IbcEvent>::empty()) by {
                            lemma_absent_object_has_no_events(prefix, object@);
                        }
                        assert(g@ =~= seq![event]);
                    }
                }
            },
        }
        assert(idx < count);
        idx = idx + 1;
    }
    assert(ps.take(ps.len() as int) =~= ps);
    proof {
        lemma_objects_in_order_distinct(ps);
    }
    let mut result: Vec<(Object, Vec<IbcEvent>)> = Vec::new();
    let ghost ov = objects@.map_values(|o: Object| o@);
    let ghost gs = groups@;
    let n = objects.len();
    let mut k: usize = 0;
    while k < n
        invariant
            k <= n,
            n == ov.len(),
            n == gs.len(),
            objects@.len() == n - k,
            groups@.len() == n - k,
            forall|m: int| 0 <= m < n - k ==> (#[trigger] objects@[m])@ == ov[k + m],
            forall|m: int| 0 <= m < n - k ==> #[trigger] groups@[m] == gs[k + m],
            result@.len() == k,
            forall|m: int|
                0 <= m < k ==> (#[trigger] result@[m]).0@ == ov[m] && result@[m].1 == gs[m],
        decreases n - k,
    {
        let o = objects.remove(0);
        let g = groups.remove(0);
        result.push((o, g));
        k = k + 1;
    }
    assert(result@.map_values(|g: (Object, Vec<IbcEvent>)| g.0@) =~= ov);
    result
}

fn find_object(objects: &Vec<Object>, object: &Object) -> (r: Option<usize>)
    ensures
        r matches Some(j) ==> j < objects@.len() && objects@[j as int]@ == object@,
        r is None ==> forall|m: int| 0 <= m < objects@.len() ==> (#[trigger] objects@[m])@ != object@,
{
    let mut j: usize = 0;
    while j < objects.len()
        invariant
            j <= objects@.len(),
            forall|m: int| 0 <= m < j ==> (#[trigger] objects@[m])@ != object@,
        decreases objects@.len() - j,
    {
        if objects[j].same_as(object) {
            return Some(j);
        }
        j = j + 1;
    }
    None
}

proof fn lemma_absent_object_has_no_events(pairs: Seq<(Object, IbcEvent)>, o: ObjectView)
    requires
        !objects_in_order(pairs).contains(o),
    ensures
        events_for(pairs, o) == Seq::<IbcEvent>::empty(),
    decreases pairs.len(),
{
    if pairs.len() > 0 {
        let prev = objects_in_order(pairs.drop_last());
        let cur = objects_in_order(pairs);
        assert(forall|w: int| 0 <= w < prev.len() ==> cur[w] == prev[w]);
        if prev.contains(o) {
            let w = choose|w: int| 0 <= w < prev.len() && prev[w] == o;
            assert(cur[w] == o);
        }
        if !prev.contains(pairs.last().0@) {
            assert(objects_in_order(pairs) == prev.push(pairs.last().0@));
            assert(objects_in_order(pairs)[prev.len() as int] == pairs.last().0@);
        } else {
            let w = choose|w: int| 0 <= w < prev.len() && prev[w] == pairs.last().0@;
            assert(objects_in_order(pairs)[w] == pairs.last().0@);
        }
        lemma_absent_object_has_no_events(pairs.drop_last(), o);
    }
}

} // verus!
