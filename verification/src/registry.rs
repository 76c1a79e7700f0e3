//! The subscription registry and the dispatcher.
//!
//! The registry is the sole authority on subscription lifetime: a handler is
//! visible to the dispatcher exactly while its subscription is held here.
//! Registration order is preserved per selector, and dispatch of one event is
//! a strictly sequential, ordered fold over the matching subscriptions —
//! `spec_dispatch` — so ordering and unsubscribe timing are stated and proved
//! once, as laws, rather than observed.

use vstd::prelude::*;

use crate::event::{emits_model, Emit, Event, EventModel, EventSelector, spec_selector_matches};
use crate::handler::{spec_handler_step, FlowDirective, Handler};

verus! {

/// One registered subscription: a stable identifier, the selector it wants,
/// and the handler it owns.
pub struct Subscription {
    pub id: u64,
    pub selector: EventSelector,
    pub handler: Handler,
}

/// The mathematical shadow of a subscription.
#[verifier::ext_equal]
pub struct SubModel {
    pub id: u64,
    pub selector: Seq<Seq<char>>,
    pub handler: crate::handler::HandlerModel,
}

impl View for Subscription {
    type V = SubModel;

    open spec fn view(&self) -> SubModel {
        SubModel { id: self.id, selector: self.selector@, handler: self.handler@ }
    }
}

/// Identifiers strictly increase along the registration order; in particular
/// they are unique.
pub open spec fn ids_strictly_increasing(subs: Seq<SubModel>) -> bool {
    forall|a: int, b: int| 0 <= a < b < subs.len() ==> subs[a].id < subs[b].id
}

/// Every identifier lies below the bound.
pub open spec fn ids_below(subs: Seq<SubModel>, bound: u64) -> bool {
    forall|k: int| 0 <= k < subs.len() ==> subs[k].id < bound
}

/// Whether some subscription carries the identifier.
pub open spec fn contains_id(subs: Seq<SubModel>, id: u64) -> bool {
    exists|k: int| 0 <= k < subs.len() && subs[k].id == id
}

/// The registration list with the identified subscription removed (with
/// unique identifiers, at most one is).
pub open spec fn remove_id(subs: Seq<SubModel>, id: u64) -> Seq<SubModel>
    decreases subs.len(),
{
    if subs.len() == 0 {
        Seq::empty()
    } else if subs[0].id == id {
        subs.drop_first()
    } else {
        seq![subs[0]] + remove_id(subs.drop_first(), id)
    }
}

/// Dispatch of one event over a registration list, front to back: each
/// subscription whose selector matches the event's URI is invoked — its
/// handler steps and its emissions are appended — and it stays registered
/// exactly when its directive is `Continue`. A subscription whose selector
/// does not match is untouched. The result is the registration list after the
/// event and everything emitted, in invocation order.
pub open spec fn spec_dispatch(subs: Seq<SubModel>, e: EventModel) -> (
    Seq<SubModel>,
    Seq<crate::event::EmitModel>,
)
    decreases subs.len(),
{
    if subs.len() == 0 {
        (Seq::<SubModel>::empty(), Seq::<crate::event::EmitModel>::empty())
    } else {
        let first = subs[0];
        let rest = spec_dispatch(subs.drop_first(), e);
        if spec_selector_matches(first.selector, e.uri) {
            let step = spec_handler_step(first.handler, e);
            if step.1 == FlowDirective::Continue {
                (seq![SubModel { handler: step.0, ..first }] + rest.0, step.2 + rest.1)
            } else {
                (rest.0, step.2 + rest.1)
            }
        } else {
            (seq![first] + rest.0, rest.1)
        }
    }
}

/// The registry: the ordered list of live subscriptions and the next fresh
/// identifier.
pub struct Registry {
    pub subs: Vec<Subscription>,
    pub next_id: u64,
}

impl View for Registry {
    type V = Seq<SubModel>;

    open spec fn view(&self) -> Seq<SubModel> {
        self.subs@.map_values(|s: Subscription| s@)
    }
}

impl Registry {
    /// Well-formedness: identifiers strictly increase in registration order
    /// and stay below the next fresh one.
    pub open spec fn wf(&self) -> bool {
        &&& ids_strictly_increasing(self@)
        &&& ids_below(self@, self.next_id)
    }

    /// An empty registry.
    pub fn new() -> (r: Registry)
        ensures
            r.wf(),
            r@ =~= Seq::<SubModel>::empty(),
            r.next_id == 0,
    {
        Registry { subs: Vec::new(), next_id: 0 }
    }

    /// Register a handler for a selector. Order is preserved: the new
    /// subscription stands last, behind every earlier one, and gets a fresh
    /// identifier.
    pub fn subscribe(&mut self, selector: EventSelector, handler: Handler) -> (id: u64)
        requires
            old(self).wf(),
            old(self).next_id < u64::MAX,
        ensures
            final(self).wf(),
            id == old(self).next_id,
            final(self).next_id == id + 1,
            final(self)@ == old(self)@.push(
                SubModel { id, selector: selector@, handler: handler@ },
            ),
    {
        let id = self.next_id;
        let sub = Subscription { id, selector, handler };
        let ghost entry = sub@;
        self.subs.push(sub);
        self.next_id = id + 1;
        proof {
            assert(self@ =~= old(self)@.push(entry));
            assert forall|a: int, b: int| 0 <= a < b < self@.len() implies self@[a].id
                < self@[b].id by {
                if b < self@.len() - 1 {
                    assert(old(self)@[a].id < old(self)@[b].id);
                }
            }
        }
        id
    }

    /// Drop the identified subscription, if it is held: the rest keep their
    /// order. Returns whether it was held.
    pub fn unsubscribe(&mut self, id: u64) -> (found: bool)
        requires
            old(self).wf(),
        ensures
            final(self).wf(),
            final(self).next_id == old(self).next_id,
            found == contains_id(old(self)@, id),
            final(self)@ == remove_id(old(self)@, id),
    {
        let n = self.subs.len();
        let mut i: usize = 0;
        while i < n
            invariant
                n == self.subs@.len(),
                0 <= i <= n,
                *self == *old(self),
                self.wf(),
                forall|j: int| 0 <= j < i ==> (#[trigger] self@[j]).id != id,
            decreases n - i,
        {
            if self.subs[i].id == id {
                let ghost pre = self@;
                let ghost idx = i as int;
                self.subs.remove(i);
                proof {
                    lemma_remove_id_skip(pre, id, idx);
                    assert(pre.skip(idx)[0] == pre[idx]);
                    assert(pre.skip(idx).drop_first() =~= pre.skip(idx + 1));
                    assert(remove_id(pre.skip(idx), id) == pre.skip(idx + 1));
                    assert(self@ =~= pre.take(idx) + pre.skip(idx + 1));
                    assert(remove_id(pre, id) =~= self@);
                    lemma_sorted_remove_mid(pre, idx);
                    assert(contains_id(pre, id));
                }
                return true;
            }
            i += 1;
        }
        proof {
            lemma_remove_id_skip(self@, id, n as int);
            assert(self@.skip(n as int) =~= Seq::<SubModel>::empty());
            assert(self@.take(n as int) =~= self@);
            assert(remove_id(self@, id) =~= self@);
        }
        false
    }

    /// Deliver one event: invoke every matching handler in registration
    /// order, appending its emissions, and apply each directive immediately
    /// after its own invocation — a handler that unsubscribes still sees the
    /// event that triggered its removal, and is gone before the next one.
    pub fn dispatch(&mut self, e: &Event) -> (emits: Vec<Emit>)
        requires
            old(self).wf(),
        ensures
            final(self).wf(),
            final(self).next_id == old(self).next_id,
            final(self)@ == spec_dispatch(old(self)@, e@).0,
            emits_model(emits@) == spec_dispatch(old(self)@, e@).1,
    {
        let mut emits: Vec<Emit> = Vec::new();
        let mut i: usize = 0;
        proof {
            assert(self@.take(0) =~= Seq::<SubModel>::empty());
            assert(self@.skip(0) =~= self@);
            assert(emits_model(emits@) =~= Seq::<crate::event::EmitModel>::empty());
        }
        while i < self.subs.len()
            invariant
                old(self).wf(),
                self.next_id == old(self).next_id,
                ids_strictly_increasing(self@),
                ids_below(self@, self.next_id),
                0 <= i <= self.subs@.len(),
                spec_dispatch(old(self)@, e@).0 == self@.take(i as int) + spec_dispatch(
                    self@.skip(i as int),
                    e@,
                ).0,
                spec_dispatch(old(self)@, e@).1 == emits_model(emits@) + spec_dispatch(
                    self@.skip(i as int),
                    e@,
                ).1,
            decreases self.subs@.len() - i,
        {
            let ghost cur = self@;
            let ghost idx = i as int;
            let ghost tail = cur.skip(idx);
            proof {
                assert(tail[0] == cur[idx]);
                assert(tail.drop_first() =~= cur.skip(idx + 1));
            }
            let matched = self.subs[i].selector.matches(&e.uri);
            if matched {
                let ghost step = spec_handler_step(cur[idx].handler, e@);
                let mut sub = self.subs.remove(i);
                let (d, mut es) = sub.handler.handle(e);
                let ghost old_emits = emits_model(emits@);
                emits.append(&mut es);
                proof {
                    assert(emits_model(emits@) =~= old_emits + step.2);
                    assert(sub@ == SubModel { handler: step.0, ..cur[idx] });
                }
                match d {
                    FlowDirective::Continue => {
                        self.subs.insert(i, sub);
                        proof {
                            assert(self@ =~= cur.update(idx, SubModel { handler: step.0, ..cur[idx] }));
                            lemma_sorted_same_ids(cur, self@);
                            assert(self@.take(idx + 1) =~= cur.take(idx).push(
                                SubModel { handler: step.0, ..cur[idx] },
                            ));
                            assert(self@.skip(idx + 1) =~= cur.skip(idx + 1));
                            assert(spec_dispatch(old(self)@, e@).0 =~= self@.take(idx + 1)
                                + spec_dispatch(self@.skip(idx + 1), e@).0);
                            assert(spec_dispatch(old(self)@, e@).1 =~= emits_model(emits@)
                                + spec_dispatch(self@.skip(idx + 1), e@).1);
                        }
                        i += 1;
                    },
                    FlowDirective::Unsubscribe => {
                        proof {
                            assert(self@ =~= cur.take(idx) + cur.skip(idx + 1));
                            lemma_sorted_remove_mid(cur, idx);
                            assert(self@.take(idx) =~= cur.take(idx));
                            assert(self@.skip(idx) =~= cur.skip(idx + 1));
                            assert(spec_dispatch(old(self)@, e@).0 =~= self@.take(idx)
                                + spec_dispatch(self@.skip(idx), e@).0);
                            assert(spec_dispatch(old(self)@, e@).1 =~= emits_model(emits@)
                                + spec_dispatch(self@.skip(idx), e@).1);
                        }
                    },
                }
            } else {
                proof {
                    assert(self@.take(idx + 1) =~= cur.take(idx).push(cur[idx]));
                    assert(spec_dispatch(old(self)@, e@).0 =~= self@.take(idx + 1)
                        + spec_dispatch(self@.skip(idx + 1), e@).0);
                    assert(spec_dispatch(old(self)@, e@).1 =~= emits_model(emits@)
                        + spec_dispatch(self@.skip(idx + 1), e@).1);
                }
                i += 1;
            }
        }
        proof {
            let n = self.subs@.len() as int;
            assert(self@.skip(n) =~= Seq::<SubModel>::empty());
            assert(self@.take(n) =~= self@);
        }
        emits
    }
}

/// If no subscription among the first `i` carries `id`, removal is decided by
/// the rest of the list.
pub proof fn lemma_remove_id_skip(subs: Seq<SubModel>, id: u64, i: int)
    requires
        0 <= i <= subs.len(),
        forall|j: int| 0 <= j < i ==> (#[trigger] subs[j]).id != id,
    ensures
        remove_id(subs, id) == subs.take(i) + remove_id(subs.skip(i), id),
    decreases i,
{
    if i == 0 {
        assert(subs.skip(0) =~= subs);
        assert(subs.take(0) + remove_id(subs, id) =~= remove_id(subs, id));
    } else {
        lemma_remove_id_skip(subs, id, i - 1);
        let t = subs.skip(i - 1);
        assert(t[0] == subs[i - 1]);
        assert(t.drop_first() =~= subs.skip(i));
        assert(remove_id(t, id) == seq![t[0]] + remove_id(subs.skip(i), id));
        assert(subs.take(i - 1) + (seq![subs[i - 1]] + remove_id(subs.skip(i), id)) =~= subs.take(
            i,
        ) + remove_id(subs.skip(i), id));
    }
}

/// Removing a middle element keeps identifiers strictly increasing.
pub proof fn lemma_sorted_remove_mid(s: Seq<SubModel>, i: int)
    requires
        0 <= i < s.len(),
        ids_strictly_increasing(s),
    ensures
        ids_strictly_increasing(s.take(i) + s.skip(i + 1)),
{
    let t = s.take(i) + s.skip(i + 1);
    assert forall|a: int, b: int| 0 <= a < b < t.len() implies t[a].id < t[b].id by {
        let a2: int = if a < i { a } else { a + 1 };
        let b2: int = if b < i { b } else { b + 1 };
        assert(t[a] == s[a2]);
        assert(t[b] == s[b2]);
        assert(s[a2].id < s[b2].id);
    }
}

/// A list with the same identifiers at the same places is sorted whenever the
/// first is.
pub proof fn lemma_sorted_same_ids(s: Seq<SubModel>, t: Seq<SubModel>)
    requires
        s.len() == t.len(),
        forall|k: int| 0 <= k < s.len() ==> (#[trigger] t[k]).id == s[k].id,
        ids_strictly_increasing(s),
    ensures
        ids_strictly_increasing(t),
{
}

/// Dispatch distributes over concatenation: what an earlier block of
/// subscriptions emits stands, in full, before anything a later block emits,
/// and the surviving subscriptions keep their relative order. This is the
/// ordering law: for subscriptions A then B registered for the same selector,
/// A's handler observes any matching event strictly before B's.
pub proof fn lemma_dispatch_append(s1: Seq<SubModel>, s2: Seq<SubModel>, e: EventModel)
    ensures
        spec_dispatch(s1 + s2, e).0 == spec_dispatch(s1, e).0 + spec_dispatch(s2, e).0,
        spec_dispatch(s1 + s2, e).1 == spec_dispatch(s1, e).1 + spec_dispatch(s2, e).1,
    decreases s1.len(),
{
    if s1.len() == 0 {
        assert(s1 + s2 =~= s2);
        assert(spec_dispatch(s1, e).0 + spec_dispatch(s2, e).0 =~= spec_dispatch(s2, e).0);
        assert(spec_dispatch(s1, e).1 + spec_dispatch(s2, e).1 =~= spec_dispatch(s2, e).1);
    } else {
        let whole = s1 + s2;
        assert(whole[0] == s1[0]);
        assert(whole.drop_first() =~= s1.drop_first() + s2);
        lemma_dispatch_append(s1.drop_first(), s2, e);
        let r1 = spec_dispatch(s1.drop_first(), e);
        let r2 = spec_dispatch(s2, e);
        if spec_selector_matches(s1[0].selector, e.uri) {
            let step = spec_handler_step(s1[0].handler, e);
            if step.1 == FlowDirective::Continue {
                assert(spec_dispatch(whole, e).0 =~= spec_dispatch(s1, e).0 + r2.0);
            } else {
                assert(spec_dispatch(whole, e).0 =~= spec_dispatch(s1, e).0 + r2.0);
            }
            assert(spec_dispatch(whole, e).1 =~= spec_dispatch(s1, e).1 + r2.1);
        } else {
            assert(spec_dispatch(whole, e).0 =~= spec_dispatch(s1, e).0 + r2.0);
            assert(spec_dispatch(whole, e).1 =~= spec_dispatch(s1, e).1 + r2.1);
        }
    }
}

/// What one subscription alone emits under dispatch: its handler's emissions
/// when its selector matches, nothing otherwise.
pub proof fn lemma_dispatch_singleton(x: SubModel, e: EventModel)
    ensures
        spec_selector_matches(x.selector, e.uri) ==> spec_dispatch(seq![x], e).1
            == spec_handler_step(x.handler, e).2,
        !spec_selector_matches(x.selector, e.uri) ==> spec_dispatch(seq![x], e).1 == Seq::<
            crate::event::EmitModel,
        >::empty(),
{
    let s = seq![x];
    assert(s[0] == x);
    assert(s.drop_first() =~= Seq::<SubModel>::empty());
    if spec_selector_matches(x.selector, e.uri) {
        let step = spec_handler_step(x.handler, e);
        assert(spec_dispatch(s, e).1 == step.2 + spec_dispatch(s.drop_first(), e).1);
        assert(step.2 + spec_dispatch(s.drop_first(), e).1 =~= step.2);
    } else {
        assert(spec_dispatch(s, e).1 == spec_dispatch(s.drop_first(), e).1);
        assert(spec_dispatch(s.drop_first(), e).1 =~= Seq::<crate::event::EmitModel>::empty());
    }
}

/// Ordering, concretely: dispatching to subscriptions A then B for the same
/// selector yields exactly A's emissions followed by B's.
pub proof fn lemma_registration_order(a: SubModel, b: SubModel, e: EventModel)
    requires
        spec_selector_matches(a.selector, e.uri),
        b.selector == a.selector,
    ensures
        spec_dispatch(seq![a, b], e).1 == spec_handler_step(a.handler, e).2 + spec_handler_step(
            b.handler,
            e,
        ).2,
{
    let pair = seq![a, b];
    assert(pair =~= seq![a] + seq![b]);
    lemma_dispatch_append(seq![a], seq![b], e);
    lemma_dispatch_singleton(a, e);
    lemma_dispatch_singleton(b, e);
}

/// Every subscription that survives a dispatch carries the identifier of one
/// that went in.
pub proof fn lemma_dispatch_ids(subs: Seq<SubModel>, e: EventModel)
    ensures
        forall|x: SubModel| #[trigger] spec_dispatch(subs, e).0.contains(x) ==> exists|k: int|
            0 <= k < subs.len() && subs[k].id == x.id,
    decreases subs.len(),
{
    if subs.len() > 0 {
        lemma_dispatch_ids(subs.drop_first(), e);
        assert forall|x: SubModel| #[trigger] spec_dispatch(subs, e).0.contains(x) implies exists|
            k: int,
        | 0 <= k < subs.len() && subs[k].id == x.id by {
            let rest = spec_dispatch(subs.drop_first(), e).0;
            if rest.contains(x) {
                let tail = subs.drop_first();
                let k0 = choose|k0: int| 0 <= k0 < tail.len() && tail[k0].id == x.id;
                assert(subs[k0 + 1].id == x.id);
            } else {
                assert(subs[0].id == x.id);
            }
        }
    }
}

/// Unsubscribe timing: a matching handler whose directive for event N is
/// `Unsubscribe` is still invoked for event N — its emissions stand in the
/// output, exactly after those of the subscriptions registered before it —
/// and its subscription is absent from the registry afterwards, so it cannot
/// be invoked for event N+1.
pub proof fn lemma_unsubscribe_timing(subs: Seq<SubModel>, i: int, e: EventModel)
    requires
        0 <= i < subs.len(),
        ids_strictly_increasing(subs),
        spec_selector_matches(subs[i].selector, e.uri),
        spec_handler_step(subs[i].handler, e).1 == FlowDirective::Unsubscribe,
    ensures
        spec_dispatch(subs, e).1 == spec_dispatch(subs.take(i), e).1 + spec_handler_step(
            subs[i].handler,
            e,
        ).2 + spec_dispatch(subs.skip(i + 1), e).1,
        forall|j: int| 0 <= j < spec_dispatch(subs, e).0.len() ==> (#[trigger] spec_dispatch(
            subs,
            e,
        ).0[j]).id != subs[i].id,
{
    let front = subs.take(i);
    let back = subs.skip(i + 1);
    let mid = seq![subs[i]];
    assert(subs =~= front + (mid + back));
    lemma_dispatch_append(front, mid + back, e);
    assert((mid + back)[0] == subs[i]);
    assert((mid + back).drop_first() =~= back);
    assert(spec_dispatch(mid + back, e).0 =~= spec_dispatch(back, e).0);
    assert(spec_dispatch(mid + back, e).1 =~= spec_handler_step(subs[i].handler, e).2
        + spec_dispatch(back, e).1);
    assert(spec_dispatch(subs, e).1 =~= spec_dispatch(front, e).1 + spec_handler_step(
        subs[i].handler,
        e,
    ).2 + spec_dispatch(back, e).1);
    lemma_dispatch_ids(front, e);
    lemma_dispatch_ids(back, e);
    assert forall|j: int| 0 <= j < spec_dispatch(subs, e).0.len() implies (#[trigger] spec_dispatch(
        subs,
        e,
    ).0[j]).id != subs[i].id by {
        let x = spec_dispatch(subs, e).0[j];
        assert(spec_dispatch(subs, e).0 =~= spec_dispatch(front, e).0 + spec_dispatch(back, e).0);
        if j < spec_dispatch(front, e).0.len() {
            assert(spec_dispatch(front, e).0.contains(x));
            let k = choose|k: int| 0 <= k < front.len() && front[k].id == x.id;
            assert(subs[k].id == x.id);
            assert(subs[k].id < subs[i].id);
        } else {
            assert(spec_dispatch(back, e).0.contains(x));
            let k = choose|k: int| 0 <= k < back.len() && back[k].id == x.id;
            assert(subs[k + i + 1].id == x.id);
            assert(subs[i].id < subs[k + i + 1].id);
        }
    }
}

} // verus!
