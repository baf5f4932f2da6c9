//! The event bus: one queue per registered event kind.

use vstd::prelude::*;
use crate::error::EventError;

verus! {

/// An event together with the kind under which it is queued.
pub struct Raised<E> {
    pub kind: u64,
    pub event: E,
}

/// Per-kind event queues. A kind is a stable token chosen by whoever defines
/// the event; `E` is the type that carries the events' data. The library's
/// own events have the kinds below one thousand.
///
/// The view maps every registered kind to its queue, oldest event first.
pub struct Events<E> {
    kinds: Vec<u64>,
    queues: Vec<Vec<E>>,
}

impl<E> View for Events<E> {
    type V = Map<u64, Seq<E>>;

    closed spec fn view(&self) -> Map<u64, Seq<E>> {
        Map::new(
            |kind: u64| self.kinds@.contains(kind),
            |kind: u64| self.queues@[self.kinds@.index_of(kind)]@,
        )
    }
}

/// The queues after `raised` have been pushed one after the other, each to
/// the queue of its kind; an event of a kind without a queue changes nothing.
pub open spec fn pushed<E>(queues: Map<u64, Seq<E>>, raised: Seq<Raised<E>>) -> Map<u64, Seq<E>>
    decreases raised.len(),
{
    if raised.len() == 0 {
        queues
    } else {
        let before = pushed(queues, raised.drop_last());
        let last = raised.last();
        if before.dom().contains(last.kind) {
            before.insert(last.kind, before[last.kind].push(last.event))
        } else {
            before
        }
    }
}

/// The number of events at the front of `raised` whose kinds are all in `kinds`.
pub open spec fn accepted<E>(kinds: Set<u64>, raised: Seq<Raised<E>>) -> int
    decreases raised.len(),
{
    if raised.len() == 0 {
        0
    } else {
        let before = accepted(kinds, raised.drop_last());
        if before == raised.len() - 1 && kinds.contains(raised.last().kind) {
            before + 1
        } else {
            before
        }
    }
}

impl<E> Events<E> {
    /// Every registered kind has exactly one queue.
    pub closed spec fn wf(&self) -> bool {
        &&& self.kinds@.len() == self.queues@.len()
        &&& self.kinds@.no_duplicates()
    }

    /// The registered kinds in the order of their first registration.
    pub closed spec fn registered(&self) -> Seq<u64> {
        self.kinds@
    }

    /// A bus without any registered kind.
    pub fn new() -> (bus: Events<E>)
        ensures
            bus.wf(),
            bus@ == Map::<u64, Seq<E>>::empty(),
            bus.registered() == Seq::<u64>::empty(),
    {
        let bus = Events { kinds: Vec::new(), queues: Vec::new() };
        assert(bus@ =~= Map::<u64, Seq<E>>::empty());
        bus
    }

    /// The place of `kind` among the registered kinds.
    pub(crate) fn position(&self, kind: u64) -> (at: Option<usize>)
        requires
            self.wf(),
        ensures
            match at {
                Some(i) => i < self.registered().len() && self.registered()[i as int] == kind
                    && self.registered().index_of(kind) == i,
                None => !self.registered().contains(kind),
            },
    {
        let mut i: usize = 0;
        while i < self.kinds.len()
            invariant
                i <= self.kinds.len(),
                self.kinds@.no_duplicates(),
                forall|j: int| 0 <= j < i ==> self.kinds@[j] != kind,
            decreases self.kinds.len() - i,
        {
            if self.kinds[i] == kind {
                proof {
                    let j = self.kinds@.index_of(kind);
                    assert(self.kinds@.contains(kind));
                    assert(0 <= j < self.kinds@.len() && self.kinds@[j] == kind);
                }
                return Some(i);
            }
            i += 1;
        }
        None
    }

    /// Whether `kind` has a queue.
    pub fn is_registered(&self, kind: u64) -> (b: bool)
        requires
            self.wf(),
        ensures
            b == self@.dom().contains(kind),
    {
        self.position(kind).is_some()
    }
}

impl<E> Events<E> {
    /// The registered kinds are the kinds that have a queue, each once.
    pub proof fn lemma_registered(&self)
        requires
            self.wf(),
        ensures
            self.registered().no_duplicates(),
            forall|kind: u64| #[trigger]
                self@.dom().contains(kind) ==> self.registered().contains(kind),
            forall|kind: u64| #[trigger]
                self.registered().contains(kind) ==> self@.dom().contains(kind),
    {
    }

    /// The view, position by position.
    proof fn lemma_view(&self)
        requires
            self.wf(),
        ensures
            forall|i: int|
                0 <= i < self.kinds@.len() ==> self@.dom().contains(#[trigger] self.kinds@[i])
                    && self@[self.kinds@[i]] == self.queues@[i]@,
            forall|k: u64|
                #[trigger] self@.dom().contains(k) ==> 0 <= self.kinds@.index_of(k)
                    < self.kinds@.len() && self.kinds@[self.kinds@.index_of(k)] == k,
            forall|k: u64| self@.dom().contains(k) <==> self.kinds@.contains(k),
    {
        assert forall|i: int| 0 <= i < self.kinds@.len() implies self@.dom().contains(
            #[trigger] self.kinds@[i],
        ) && self@[self.kinds@[i]] == self.queues@[i]@ by {
            let k = self.kinds@[i];
            assert(self.kinds@.contains(k));
            let j = self.kinds@.index_of(k);
            assert(self.kinds@[j] == k);
        }
    }

    /// Creates an empty queue for `kind`. If the kind has a queue already,
    /// that queue is emptied.
    pub fn register_event(&mut self, kind: u64)
        requires
            old(self).wf(),
        ensures
            final(self).wf(),
            final(self)@ == old(self)@.insert(kind, Seq::<E>::empty()),
            final(self).registered() == if old(self)@.dom().contains(kind) {
                old(self).registered()
            } else {
                old(self).registered().push(kind)
            },
    {
        proof {
            old(self).lemma_view();
        }
        match self.position(kind) {
            Some(i) => {
                self.queues[i].clear();
            },
            None => {
                self.kinds.push(kind);
                self.queues.push(Vec::new());
            },
        }
        proof {
            self.lemma_view();
            let want = old(self)@.insert(kind, Seq::<E>::empty());
            assert forall|k: u64| self@.dom().contains(k) implies
                #[trigger] self@[k] == want[k] by {
                let j = self.kinds@.index_of(k);
                assert(self.kinds@[j] == k);
                if k != kind {
                    assert(old(self).kinds@[j] == k);
                }
            }
            assert forall|k: u64| want.dom().contains(k) implies self@.dom().contains(k) by {
                if k != kind {
                    let j = old(self).kinds@.index_of(k);
                    assert(self.kinds@[j] == k);
                } else {
                    if old(self)@.dom().contains(kind) {
                    } else {
                        assert(self.kinds@[old(self).kinds@.len() as int] == kind);
                    }
                }
            }
            assert forall|k: u64| self@.dom().contains(k) implies want.dom().contains(k) by {
                let j = self.kinds@.index_of(k);
                if k != kind {
                    assert(old(self).kinds@[j] == k);
                }
            }
            assert(self@ =~= want);
        }
    }

    /// Appends `event` to the queue of `kind`, which must be registered.
    pub fn push_event(&mut self, kind: u64, event: E) -> (r: Result<(), EventError>)
        requires
            old(self).wf(),
        ensures
            final(self).wf(),
            final(self).registered() == old(self).registered(),
            match r {
                Ok(()) => old(self)@.dom().contains(kind) && final(self)@ == old(self)@.insert(
                    kind,
                    old(self)@[kind].push(event),
                ),
                Err(e) => e == EventError::EventNotRegistered && !old(self)@.dom().contains(kind)
                    && final(self)@ == old(self)@,
            },
    {
        proof {
            old(self).lemma_view();
        }
        match self.position(kind) {
            Some(i) => {
                self.queues[i].push(event);
                proof {
                    self.lemma_view();
                    let want = old(self)@.insert(kind, old(self)@[kind].push(event));
                    assert forall|k: u64| self@.dom().contains(k) implies #[trigger] self@[k]
                        == want[k] by {
                        let j = self.kinds@.index_of(k);
                        assert(self.kinds@[j] == k);
                    }
                    assert(self@ =~= want);
                }
                Ok(())
            },
            None => Err(EventError::EventNotRegistered),
        }
    }

    /// The queue of `kind`, oldest event first. Reading does not empty it.
    pub fn get_events(&self, kind: u64) -> (r: Result<&Vec<E>, EventError>)
        requires
            self.wf(),
        ensures
            match r {
                Ok(queue) => self@.dom().contains(kind) && queue@ == self@[kind],
                Err(e) => e == EventError::EventNotRegistered && !self@.dom().contains(kind),
            },
    {
        proof {
            self.lemma_view();
        }
        match self.position(kind) {
            Some(i) => Ok(&self.queues[i]),
            None => Err(EventError::EventNotRegistered),
        }
    }

    /// Empties every queue. The kinds stay registered.
    pub fn clear_events(&mut self)
        requires
            old(self).wf(),
        ensures
            final(self).wf(),
            final(self).registered() == old(self).registered(),
            final(self)@.dom() == old(self)@.dom(),
            forall|kind: u64| #[trigger]
                final(self)@.dom().contains(kind) ==> final(self)@[kind] == Seq::<E>::empty(),
    {
        let mut i: usize = 0;
        while i < self.queues.len()
            invariant
                self.wf(),
                self.kinds == old(self).kinds,
                i <= self.queues.len(),
                forall|j: int| 0 <= j < i ==> (#[trigger] self.queues@[j])@ == Seq::<E>::empty(),
            decreases self.queues.len() - i,
        {
            self.queues[i].clear();
            i += 1;
        }
        proof {
            self.lemma_view();
            old(self).lemma_view();
            assert(self@.dom() =~= old(self)@.dom());
            assert forall|kind: u64| #[trigger] self@.dom().contains(kind) implies self@[kind]
                == Seq::<E>::empty() by {
                let j = self.kinds@.index_of(kind);
                assert(self.kinds@[j] == kind);
                assert(self.queues@[j]@ == Seq::<E>::empty());
            }
        }
    }
}

/// `after` has the queues of `before`, each with the events it had and
/// possibly more behind them.
pub open spec fn extends<E>(before: Map<u64, Seq<E>>, after: Map<u64, Seq<E>>) -> bool {
    &&& after.dom() == before.dom()
    &&& forall|kind: u64| #[trigger]
        before.dom().contains(kind) ==> before[kind].is_prefix_of(after[kind])
}

/// Pushing events only appends to queues.
pub proof fn lemma_pushed_extends<E>(queues: Map<u64, Seq<E>>, raised: Seq<Raised<E>>)
    ensures
        extends(queues, pushed(queues, raised)),
    decreases raised.len(),
{
    if raised.len() > 0 {
        lemma_pushed_extends(queues, raised.drop_last());
        let before = pushed(queues, raised.drop_last());
        let after = pushed(queues, raised);
        let last = raised.last();
        if before.dom().contains(last.kind) {
            assert(after.dom() =~= queues.dom());
            assert forall|kind: u64| #[trigger] queues.dom().contains(kind) implies
                queues[kind].is_prefix_of(after[kind]) by {
                assert(queues[kind].is_prefix_of(before[kind]));
                if kind == last.kind {
                    assert(before[kind].is_prefix_of(before[kind].push(last.event)));
                }
            }
        }
    } else {
        assert forall|kind: u64| #[trigger] queues.dom().contains(kind) implies
            queues[kind].is_prefix_of(queues[kind]) by {}
    }
}

/// The events of `kind` among `raised`, in their order.
pub open spec fn events_of<E>(raised: Seq<Raised<E>>, kind: u64) -> Seq<E> {
    raised.filter(|r: Raised<E>| r.kind == kind).map_values(|r: Raised<E>| r.event)
}

/// Queues are first in, first out: after `raised` have been pushed, the
/// queue of a registered kind holds what it held, and behind that the
/// events of its kind in the order in which they were pushed.
pub proof fn lemma_pushed_is_fifo<E>(queues: Map<u64, Seq<E>>, raised: Seq<Raised<E>>, kind: u64)
    requires
        queues.dom().contains(kind),
    ensures
        pushed(queues, raised).dom() == queues.dom(),
        pushed(queues, raised)[kind] == queues[kind] + events_of(raised, kind),
    decreases raised.len(),
{
    let of_kind = |r: Raised<E>| r.kind == kind;
    let event = |r: Raised<E>| r.event;
    lemma_pushed_extends(queues, raised);
    reveal(Seq::filter);
    if raised.len() == 0 {
        assert(raised.filter(of_kind) =~= Seq::<Raised<E>>::empty());
        assert(events_of(raised, kind) =~= Seq::<E>::empty());
        assert(queues[kind] + events_of(raised, kind) =~= queues[kind]);
    } else {
        let init = raised.drop_last();
        let last = raised.last();
        lemma_pushed_is_fifo(queues, init, kind);
        let before = pushed(queues, init);
        if last.kind == kind {
            assert(raised.filter(of_kind) == init.filter(of_kind).push(last));
            assert(init.filter(of_kind).push(last).map_values(event) =~= init.filter(
                of_kind,
            ).map_values(event).push(last.event));
            assert(before[kind].push(last.event) =~= queues[kind] + events_of(raised, kind));
        } else {
            assert(raised.filter(of_kind) == init.filter(of_kind));
        }
    }
}

/// Queues that grew twice grew.
pub proof fn lemma_extends_twice<E>(
    a: Map<u64, Seq<E>>,
    b: Map<u64, Seq<E>>,
    c: Map<u64, Seq<E>>,
)
    requires
        extends(a, b),
        extends(b, c),
    ensures
        extends(a, c),
{
    assert forall|kind: u64| #[trigger] a.dom().contains(kind) implies a[kind].is_prefix_of(
        c[kind],
    ) by {
        assert(b.dom().contains(kind));
        assert(a[kind].is_prefix_of(b[kind]));
        assert(b[kind].is_prefix_of(c[kind]));
    }
}

/// The kinds of `order` whose queue in `queues` holds an event.
pub open spec fn pending_kinds<E>(order: Seq<u64>, queues: Map<u64, Seq<E>>) -> Seq<u64> {
    order.filter(|kind: u64| queues.dom().contains(kind) && queues[kind].len() > 0)
}

/// Filtering a list in which nothing occurs twice leaves such a list.
pub proof fn lemma_filter_no_duplicates<A>(s: Seq<A>, keep: spec_fn(A) -> bool)
    requires
        s.no_duplicates(),
    ensures
        s.filter(keep).no_duplicates(),
    decreases s.len(),
{
    reveal(Seq::filter);
    if s.len() > 0 {
        let rest = s.drop_last();
        lemma_filter_no_duplicates(rest, keep);
        if rest.filter(keep).contains(s.last()) {
            rest.lemma_filter_contains_rev(keep, s.last());
            let at = choose|at: int| 0 <= at < rest.len() && rest[at] == s.last();
            assert(s[at] == s[s.len() - 1]);
        }
    }
}

/// The pending kinds are the kinds of `order` whose queue holds an event,
/// each as often as it stands in `order`. Where no queue holds an event, no
/// kind is pending.
pub proof fn lemma_pending_kinds<E>(order: Seq<u64>, queues: Map<u64, Seq<E>>)
    ensures
        forall|kind: u64|
            order.contains(kind) && queues.dom().contains(kind) && queues[kind].len() > 0
                ==> #[trigger] pending_kinds(order, queues).contains(kind),
        order.no_duplicates() ==> pending_kinds(order, queues).no_duplicates(),
        forall|i: int|
            0 <= i < pending_kinds(order, queues).len() ==> order.contains(
                #[trigger] pending_kinds(order, queues)[i],
            ) && queues.dom().contains(pending_kinds(order, queues)[i]) && queues[pending_kinds(
                order,
                queues,
            )[i]].len() > 0,
        (forall|kind: u64| #[trigger] queues.dom().contains(kind) ==> queues[kind].len() == 0)
            ==> pending_kinds(order, queues).len() == 0,
{
    let holds = |kind: u64| queues.dom().contains(kind) && queues[kind].len() > 0;
    let pending = pending_kinds(order, queues);
    assert(pending == order.filter(holds));
    order.filter_lemma(holds);
    assert forall|i: int| 0 <= i < pending.len() implies order.contains(#[trigger] pending[i]) by {
        assert(order.filter(holds).contains(pending[i]));
        order.lemma_filter_contains_rev(holds, pending[i]);
    }
    if pending.len() > 0 {
        assert(holds(pending[0]));
    }
    assert forall|kind: u64|
        order.contains(kind) && queues.dom().contains(kind) && queues[kind].len()
            > 0 implies #[trigger] pending.contains(kind) by {
        let at = order.index_of(kind);
        assert(holds(order[at]));
    }
    if order.no_duplicates() {
        lemma_filter_no_duplicates(order, holds);
    }
}

impl<E> Events<E> {
    /// The kinds whose queue is not empty, in the order of registration.
    pub fn pending(&self) -> (kinds: Vec<u64>)
        requires
            self.wf(),
        ensures
            kinds@ == pending_kinds(self.registered(), self@),
    {
        let ghost holds = |kind: u64| self@.dom().contains(kind) && self@[kind].len() > 0;
        let mut kinds: Vec<u64> = Vec::new();
        let mut i: usize = 0;
        proof {
            self.lemma_view();
            assert(self.kinds@.take(0) =~= Seq::<u64>::empty());
        }
        while i < self.kinds.len()
            invariant
                self.wf(),
                i <= self.kinds.len(),
                holds == |kind: u64| self@.dom().contains(kind) && self@[kind].len() > 0,
                kinds@ == self.kinds@.take(i as int).filter(holds),
            decreases self.kinds.len() - i,
        {
            proof {
                self.lemma_view();
                let next = self.kinds@.take(i + 1);
                assert(next.drop_last() =~= self.kinds@.take(i as int));
                assert(next.last() == self.kinds@[i as int]);
                reveal(Seq::filter);
            }
            if self.queues[i].len() > 0 {
                kinds.push(self.kinds[i]);
            }
            i += 1;
        }
        proof {
            assert(self.kinds@.take(i as int) =~= self.kinds@);
        }
        kinds
    }

    /// Pushes `raised` in order and stops at the first event whose kind is
    /// not registered: the events before it are queued, it and the events
    /// after it are dropped and the error is returned.
    pub fn push_all(&mut self, raised: Vec<Raised<E>>) -> (r: Result<(), EventError>)
        requires
            old(self).wf(),
        ensures
            final(self).wf(),
            final(self).registered() == old(self).registered(),
            final(self)@ == pushed(
                old(self)@,
                raised@.take(accepted(old(self)@.dom(), raised@)),
            ),
            extends(old(self)@, final(self)@),
            match r {
                Ok(()) => accepted(old(self)@.dom(), raised@) == raised@.len(),
                Err(e) => e == EventError::EventNotRegistered && accepted(
                    old(self)@.dom(),
                    raised@,
                ) < raised@.len(),
            },
    {
        let ghost all = raised@;
        let ghost dom = self@.dom();

        let mut input = raised;
        let mut rest: Vec<Raised<E>> = Vec::new();
        while input.len() > 0
            invariant
                input@.len() + rest@.len() == all.len(),
                input@ =~= all.take(input@.len() as int),
                forall|j: int| 0 <= j < rest@.len() ==> rest@[j] == all[all.len() - 1 - j],
            decreases input@.len(),
        {
            let last = input.pop();
            match last {
                Some(item) => {
                    rest.push(item);
                },
                None => {},
            }
        }
        let mut done: usize = 0;
        let n = rest.len();
        proof {
            assert(all.take(0) =~= Seq::<Raised<E>>::empty());
        }
        while rest.len() > 0
            invariant
                self.wf(),
                all == raised@,
                all.len() == n,
                done + rest@.len() == n,
                forall|j: int| 0 <= j < rest@.len() ==> rest@[j] == all[n - 1 - j],
                self.registered() == old(self).registered(),
                self@.dom() == dom,
                dom == old(self)@.dom(),
                self@ == pushed(old(self)@, all.take(done as int)),
                accepted(dom, all.take(done as int)) == done,
            decreases rest@.len(),
        {
            let ghost before = rest@;
            let next = rest.pop();
            match next {
                Some(item) => {
                    proof {
                        assert(before[before.len() - 1] == item);
                        assert(all[done as int] == item);
                        assert(all.take(done + 1).drop_last() =~= all.take(done as int));
                        assert(all.take(done + 1).last() == item);
                    }
                    match self.push_event(item.kind, item.event) {
                        Ok(()) => {
                            done += 1;
                        },
                        Err(e) => {
                            proof {
                                lemma_accepted_stops(dom, all, done as int);
                                lemma_pushed_extends(old(self)@, all.take(done as int));
                            }
                            return Err(e);
                        },
                    }
                },
                None => {},
            }
        }
        proof {
            assert(all.take(done as int) =~= all);
            lemma_pushed_extends(old(self)@, all);
        }
        Ok(())
    }
}

/// Nothing is accepted beyond the first event of an unregistered kind.
proof fn lemma_accepted_stops<E>(kinds: Set<u64>, raised: Seq<Raised<E>>, at: int)
    requires
        0 <= at < raised.len(),
        accepted(kinds, raised.take(at)) == at,
        !kinds.contains(raised[at].kind),
    ensures
        accepted(kinds, raised) == at,
    decreases raised.len(),
{
    if raised.len() - 1 == at {
        assert(raised.drop_last() =~= raised.take(at));
    } else {
        assert(raised.drop_last().take(at) =~= raised.take(at));
        lemma_accepted_stops(kinds, raised.drop_last(), at);
    }
}

} // verus!
