//! How a task's instances are brought to the number of replicas it should
//! have: more are created where there are too few; where there are too
//! many, the surplus is drained, idle instances before busy ones and older
//! before newer.
use vstd::prelude::*;
use crate::runtime_config::texts;

verus! {

/// What reconciliation reads of an instance: its id, whether an execution
/// is running on it, and when it was created (milliseconds since the Unix
/// epoch).
#[derive(Debug)]
pub struct InstanceView {
    pub id: String,
    pub busy: bool,
    pub created_at_ms: u64,
}

/// Whether instance `a` is drained before instance `b`: idle before busy,
/// then older before newer.
pub open spec fn drained_before(a: InstanceView, b: InstanceView) -> bool {
    (!a.busy && b.busy) || (a.busy == b.busy && a.created_at_ms < b.created_at_ms)
}

/// `s`, in draining order, with `x` placed after every instance not drained
/// after it.
pub open spec fn insert_drain_order(s: Seq<InstanceView>, x: InstanceView) -> Seq<InstanceView>
    decreases s.len(),
{
    if s.len() == 0 {
        seq![x]
    } else if drained_before(x, s[0]) {
        seq![x] + s
    } else {
        seq![s[0]] + insert_drain_order(s.drop_first(), x)
    }
}

/// `s` in draining order; instances equal in the order keep their order.
pub open spec fn drain_order(s: Seq<InstanceView>) -> Seq<InstanceView>
    decreases s.len(),
{
    if s.len() == 0 {
        Seq::empty()
    } else {
        insert_drain_order(drain_order(s.drop_last()), s.last())
    }
}

/// Where [`insert_drain_order`] places `x`.
pub open spec fn drain_slot(s: Seq<InstanceView>, x: InstanceView) -> int
    decreases s.len(),
{
    if s.len() == 0 {
        0
    } else if drained_before(x, s[0]) {
        0
    } else {
        1 + drain_slot(s.drop_first(), x)
    }
}

proof fn lemma_insert_drain_order(s: Seq<InstanceView>, x: InstanceView)
    ensures
        0 <= drain_slot(s, x) <= s.len(),
        insert_drain_order(s, x) == s.take(drain_slot(s, x)).push(x) + s.skip(drain_slot(s, x)),
        forall|j: int| 0 <= j < drain_slot(s, x) ==> !drained_before(x, #[trigger] s[j]),
        drain_slot(s, x) < s.len() ==> drained_before(x, s[drain_slot(s, x)]),
    decreases s.len(),
{
    if s.len() > 0 {
        lemma_insert_drain_order(s.drop_first(), x);
        let p = drain_slot(s, x);
        if drained_before(x, s[0]) {
            assert(s.take(0).push(x) + s.skip(0) =~= seq![x] + s);
        } else {
            let t = s.drop_first();
            let q = drain_slot(t, x);
            assert(seq![s[0]] + (t.take(q).push(x) + t.skip(q)) =~= s.take(p).push(x) + s.skip(p));
            assert forall|j: int| 0 <= j < p implies !drained_before(x, #[trigger] s[j]) by {
                if j > 0 {
                    assert(s[j] == t[j - 1]);
                }
            }
        }
    } else {
        assert(s.take(0).push(x) + s.skip(0) =~= seq![x]);
    }
}

/// The instances at positions `order` of `inst`.
pub open spec fn order_view(order: Seq<usize>, inst: Seq<InstanceView>) -> Seq<InstanceView> {
    Seq::new(order.len(), |i: int| inst[order[i] as int])
}

/// What reconciliation does.
#[derive(Debug)]
pub enum ReplicaPlan {
    /// Create this many more instances.
    Create(u32),
    /// Drain and remove these instances, in this order.
    Drain(Vec<String>),
    /// The count is right.
    Keep,
}

/// The ids of `s`.
pub open spec fn ids_of(s: Seq<InstanceView>) -> Seq<Seq<char>> {
    s.map_values(|v: InstanceView| v.id@)
}

/// What bringing `instances` to `desired` replicas takes: creating the
/// missing ones, draining the surplus (the first ones in
/// [`drain_order`]), or nothing.
pub fn plan_replicas(instances: &Vec<InstanceView>, desired: u32) -> (r: ReplicaPlan)
    requires
        instances@.len() <= u32::MAX,
    ensures
        instances@.len() < desired ==> (r matches ReplicaPlan::Create(n) && n == desired - instances@.len()),
        instances@.len() == desired ==> r is Keep,
        instances@.len() > desired ==> (r matches ReplicaPlan::Drain(ids) && texts(ids@) == ids_of(
            drain_order(instances@),
        ).take(instances@.len() - desired)),
{
    let n = instances.len() as u32;
    if n < desired {
        return ReplicaPlan::Create(desired - n);
    }
    if n == desired {
        return ReplicaPlan::Keep;
    }
    // The positions of `instances` in draining order.
    let mut order: Vec<usize> = Vec::new();
    let mut k: usize = 0;
    while k < instances.len()
        invariant
            0 <= k <= instances@.len(),
            order@.len() == k,
            forall|i: int| 0 <= i < k ==> (#[trigger] order@[i]) < instances@.len(),
            order_view(order@, instances@) == drain_order(instances@.take(k as int)),
        decreases instances@.len() - k,
    {
        let x = &instances[k];
        let ghost pre = instances@.take(k as int);
        let ghost e = drain_order(pre);
        proof {
            assert(instances@.take(k + 1).drop_last() =~= pre);
            assert(instances@.take(k + 1).last() == instances@[k as int]);
            lemma_insert_drain_order(e, *x);
        }
        let mut p: usize = 0;
        while p < order.len() && !((!x.busy && instances[order[p]].busy) || (x.busy == instances[order[p]].busy
            && x.created_at_ms < instances[order[p]].created_at_ms))
            invariant
                0 <= p <= order@.len(),
                forall|i: int| 0 <= i < order@.len() ==> (#[trigger] order@[i]) < instances@.len(),
                order_view(order@, instances@) == e,
                p <= drain_slot(e, *x),
                drain_slot(e, *x) <= e.len(),
                forall|j: int| 0 <= j < drain_slot(e, *x) ==> !drained_before(*x, #[trigger] e[j]),
                drain_slot(e, *x) < e.len() ==> drained_before(*x, e[drain_slot(e, *x)]),
            decreases order@.len() - p,
        {
            assert(e[p as int] == instances@[order@[p as int] as int]);
            p = p + 1;
        }
        assert(p == drain_slot(e, *x)) by {
            if p < drain_slot(e, *x) {
                assert(e[p as int] == instances@[order@[p as int] as int]);
            }
        }
        let ghost o0 = order@;
        order.insert(p, k);
        proof {
            let ins = insert_drain_order(e, *x);
            assert(order_view(order@, instances@) =~= ins) by {
                assert forall|i: int| 0 <= i < order@.len() implies #[trigger] order_view(order@, instances@)[i] == ins[i] by {
                    if i < p {
                        assert(order@[i] == o0[i]);
                        assert(ins[i] == e[i]);
                    } else if i == p {
                    } else {
                        assert(order@[i] == o0[i - 1]);
                        assert(ins[i] == e[i - 1]);
                    }
                }
            }
        }
        k = k + 1;
    }
    proof {
        assert(instances@.take(k as int) =~= instances@);
    }
    let surplus = (n - desired) as usize;
    let mut ids: Vec<String> = Vec::new();
    let mut j: usize = 0;
    while j < surplus
        invariant
            0 <= j <= surplus,
            surplus == instances@.len() - desired,
            surplus <= order@.len(),
            forall|i: int| 0 <= i < order@.len() ==> (#[trigger] order@[i]) < instances@.len(),
            order_view(order@, instances@) == drain_order(instances@),
            texts(ids@) == ids_of(drain_order(instances@)).take(j as int),
        decreases surplus - j,
    {
        let id = instances[order[j]].id.clone();
        let ghost before = ids@;
        proof {
            assert(drain_order(instances@)[j as int] == order_view(order@, instances@)[j as int]);
            assert(id@ == drain_order(instances@)[j as int].id@);
        }
        ids.push(id);
        proof {
            assert(ids@ == before.push(id));
            assert(texts(ids@) =~= texts(before).push(id@));
            assert(ids_of(drain_order(instances@)).take(j + 1) =~= ids_of(drain_order(instances@)).take(j as int).push(
                id@,
            ));
        }
        j = j + 1;
    }
    ReplicaPlan::Drain(ids)
}

} // verus!
