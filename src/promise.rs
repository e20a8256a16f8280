//! Single-threaded promises whose completions arrive as host callbacks.
//!
//! The promises of one part of a program live in one `Promises` set and are
//! named by `Promise` handles. A continuation runs synchronously, inside the
//! call that resolves its source.
use vstd::pervasive::VecAdditionalExecFns;
use vstd::prelude::*;

verus! {

/// The state of a promise: terminal once it leaves `Pending`.
#[derive(Clone, Debug, PartialEq)]
pub enum PromiseState<T> {
    Pending,
    Fulfilled(T),
    Rejected(String),
}

/// An all-of join as mathematical values: one slot per input, in input order,
/// and the first rejection reason once one is seen.
pub struct AllOfView<T> {
    pub slots: Seq<Option<T>>,
    pub rejection: Option<String>,
}

pub open spec fn all_filled<T>(slots: Seq<Option<T>>) -> bool {
    forall|i: int| 0 <= i < slots.len() ==> #[trigger] slots[i] is Some
}

/// The values of `slots`, in slot order.
pub open spec fn filled_values<T>(slots: Seq<Option<T>>) -> Seq<T> {
    slots.map_values(|o: Option<T>| o->Some_0)
}

/// What a join's inputs have decided so far.
pub open spec fn all_of_outcome<T>(s: AllOfView<T>) -> PromiseState<Seq<T>> {
    match s.rejection {
        Some(r) => PromiseState::Rejected(r),
        None => if all_filled(s.slots) {
            PromiseState::Fulfilled(filled_values(s.slots))
        } else {
            PromiseState::Pending
        },
    }
}

/// Input `i` fulfilled with `v`: recorded in its slot while the join is
/// undecided, ignored once it is.
pub open spec fn all_of_fulfill<T>(s: AllOfView<T>, i: int, v: T) -> AllOfView<T> {
    if all_of_outcome(s) is Pending && s.slots[i] is None {
        AllOfView { slots: s.slots.update(i, Some(v)), ..s }
    } else {
        s
    }
}

/// An input rejected: the first rejection decides the join; any later
/// completion is ignored.
pub open spec fn all_of_reject<T>(s: AllOfView<T>, reason: String) -> AllOfView<T> {
    if all_of_outcome(s) is Pending {
        AllOfView { rejection: Some(reason), ..s }
    } else {
        s
    }
}

pub open spec fn count_empty<T>(s: Seq<Option<T>>) -> nat
    decreases s.len(),
{
    if s.len() == 0 {
        0
    } else {
        count_empty(s.drop_last()) + if s.last() is None {
            1nat
        } else {
            0nat
        }
    }
}

proof fn lemma_count_update<T>(s: Seq<Option<T>>, i: int, v: T)
    requires
        0 <= i < s.len(),
        s[i] is None,
    ensures
        count_empty(s.update(i, Some(v))) + 1 == count_empty(s),
    decreases s.len(),
{
    if i == s.len() - 1 {
        assert(s.update(i, Some(v)).drop_last() =~= s.drop_last());
    } else {
        lemma_count_update(s.drop_last(), i, v);
        assert(s.update(i, Some(v)).drop_last() =~= s.drop_last().update(i, Some(v)));
    }
}

proof fn lemma_count_zero<T>(s: Seq<Option<T>>)
    ensures
        count_empty(s) == 0 <==> all_filled(s),
    decreases s.len(),
{
    if s.len() > 0 {
        lemma_count_zero(s.drop_last());
        if all_filled(s) {
            assert forall|i: int| 0 <= i < s.drop_last().len() implies #[trigger] s.drop_last()[i]
                is Some by {
                assert(s[i] is Some);
            }
            assert(s[s.len() - 1] is Some);
        }
        if all_filled(s.drop_last()) && s.last() is Some {
            assert forall|i: int| 0 <= i < s.len() implies #[trigger] s[i] is Some by {
                if i < s.len() - 1 {
                    assert(s.drop_last()[i] is Some);
                }
            }
        }
    }
}

/// The bookkeeping of an all-of join: a slot per input and a count of the
/// inputs still pending.
pub struct AllOf<T> {
    slots: Vec<Option<T>>,
    remaining: usize,
    rejection: Option<String>,
}

impl<T> View for AllOf<T> {
    type V = AllOfView<T>;

    closed spec fn view(&self) -> AllOfView<T> {
        AllOfView { slots: self.slots@, rejection: self.rejection }
    }
}

impl<T: Clone> AllOf<T> {
    pub closed spec fn wf(&self) -> bool {
        self.remaining == count_empty(self.slots@)
    }

    /// A join of `n` inputs, none complete yet.
    pub fn new(n: usize) -> (r: AllOf<T>)
        ensures
            r.wf(),
            r@.slots == Seq::new(n as nat, |i: int| None::<T>),
            r@.rejection is None,
    {
        let mut slots: Vec<Option<T>> = Vec::new();
        let mut i: usize = 0;
        while i < n
            invariant
                i <= n,
                slots@ == Seq::new(i as nat, |k: int| None::<T>),
                count_empty(slots@) == i,
            decreases n - i,
        {
            slots.push(None);
            i = i + 1;
            assert(slots@.drop_last() =~= Seq::new((i - 1) as nat, |k: int| None::<T>));
            assert(slots@ =~= Seq::new(i as nat, |k: int| None::<T>));
        }
        AllOf { slots, remaining: n, rejection: None }
    }

    pub fn len(&self) -> (r: usize)
        ensures
            r == self@.slots.len(),
    {
        self.slots.len()
    }

    /// The first rejection reason, once an input has rejected.
    pub fn rejection(&self) -> (r: &Option<String>)
        ensures
            *r == self@.rejection,
    {
        &self.rejection
    }

    /// Whether the join is still undecided.
    pub fn is_pending(&self) -> (r: bool)
        requires
            self.wf(),
        ensures
            r == (all_of_outcome(self@) is Pending),
    {
        proof {
            lemma_count_zero(self@.slots);
        }
        self.rejection.is_none() && self.remaining > 0
    }

    /// Records that input `i` fulfilled with `v`; true when this completes
    /// the join.
    pub fn fulfill(&mut self, i: usize, v: T) -> (completed: bool)
        requires
            old(self).wf(),
            i < old(self)@.slots.len(),
        ensures
            final(self).wf(),
            final(self)@ == all_of_fulfill(old(self)@, i as int, v),
            completed <==> (all_of_outcome(old(self)@) is Pending && all_of_outcome(
                final(self)@,
            ) is Fulfilled),
    {
        proof {
            lemma_count_zero(self@.slots);
        }
        if self.rejection.is_some() || self.remaining == 0 {
            return false;
        }
        if self.slots[i].is_some() {
            return false;
        }
        proof {
            lemma_count_update(self@.slots, i as int, v);
        }
        self.slots.set(i, Some(v));
        self.remaining = self.remaining - 1;
        proof {
            lemma_count_zero(self@.slots);
        }
        self.remaining == 0
    }

    /// Records a rejection; true when it is the one that decides the join.
    pub fn reject(&mut self, reason: String) -> (first: bool)
        requires
            old(self).wf(),
        ensures
            final(self).wf(),
            final(self)@ == all_of_reject(old(self)@, reason),
            first <==> all_of_outcome(old(self)@) is Pending,
    {
        proof {
            lemma_count_zero(self@.slots);
        }
        if self.rejection.is_some() || self.remaining == 0 {
            return false;
        }
        self.rejection = Some(reason);
        true
    }

    /// The values of a complete join, in input order.
    pub fn values(&self) -> (r: Vec<T>)
        requires
            all_filled(self@.slots),
        ensures
            r@.len() == self@.slots.len(),
            forall|i: int|
                0 <= i < r@.len() ==> cloned(#[trigger] filled_values(self@.slots)[i], r@[i]),
    {
        let mut out: Vec<T> = Vec::new();
        let mut i: usize = 0;
        while i < self.slots.len()
            invariant
                i <= self@.slots.len(),
                all_filled(self@.slots),
                out@.len() == i,
                forall|k: int|
                    0 <= k < i ==> cloned(#[trigger] filled_values(self@.slots)[k], out@[k]),
            decreases self@.slots.len() - i,
        {
            assert(self@.slots[i as int] is Some);
            match &self.slots[i] {
                Some(v) => out.push(v.clone()),
                None => {},
            }
            i = i + 1;
        }
        out
    }
}

/// Whatever order two inputs of a two-input join fulfill in, the join's
/// values come in input order.
pub proof fn lemma_all_of_input_order<T>(s: AllOfView<T>, a: T, b: T)
    requires
        s.slots == seq![None::<T>, None::<T>],
        s.rejection is None,
    ensures
        all_of_outcome(all_of_fulfill(all_of_fulfill(s, 0, a), 1, b)) == PromiseState::Fulfilled(
            seq![a, b],
        ),
        all_of_outcome(all_of_fulfill(all_of_fulfill(s, 1, b), 0, a)) == PromiseState::Fulfilled(
            seq![a, b],
        ),
{
    let s1 = all_of_fulfill(s, 0, a);
    assert(!all_filled(s.slots) && s.slots[0] is None);
    assert(s1.slots =~= seq![Some(a), None]);
    assert(!all_filled(s1.slots) && s1.slots[1] is None);
    let s2 = all_of_fulfill(s1, 1, b);
    assert(s2.slots =~= seq![Some(a), Some(b)]);
    assert(filled_values(s2.slots) =~= seq![a, b]);
    let t1 = all_of_fulfill(s, 1, b);
    assert(t1.slots =~= seq![None, Some(b)]);
    assert(!all_filled(t1.slots) && t1.slots[0] is None);
    let t2 = all_of_fulfill(t1, 0, a);
    assert(t2.slots =~= seq![Some(a), Some(b)]);
    assert(filled_values(t2.slots) =~= seq![a, b]);
}

/// Once an input rejects, the join is rejected with that reason, and a later
/// fulfillment or rejection of another input changes nothing.
pub proof fn lemma_all_of_first_rejection<T>(
    s: AllOfView<T>,
    reason: String,
    i: int,
    v: T,
    later: String,
)
    requires
        all_of_outcome(s) is Pending,
        0 <= i < s.slots.len(),
    ensures
        all_of_outcome(all_of_reject(s, reason)) == PromiseState::<Seq<T>>::Rejected(reason),
        all_of_fulfill(all_of_reject(s, reason), i, v) == all_of_reject(s, reason),
        all_of_reject(all_of_reject(s, reason), later) == all_of_reject(s, reason),
{
}

/// All promises of one part of a program, with their continuations.
/// `F` continues a promise's value, `G` a join's values, and `C` handles a
/// rejection.
pub struct Promises<T, F, G, C> {
    states: Vec<PromiseState<T>>,
    links: Vec<Link>,
    on_value: Vec<Option<F>>,
    on_error: Vec<Option<C>>,
    joins: Vec<AllOf<T>>,
    join_targets: Vec<Option<usize>>,
    join_on_value: Vec<Option<G>>,
    join_on_error: Vec<Option<C>>,
    races: Vec<Race>,
}

/// A handle on a promise of a `Promises` set.
#[derive(Clone, Copy, Debug, PartialEq, Eq)]
pub struct Promise {
    index: usize,
}

/// A handle on an all-of join of a `Promises` set.
#[derive(Clone, Copy, Debug, PartialEq, Eq)]
pub struct Join {
    index: usize,
}

/// Where a resolved promise passes its outcome on.
#[derive(Clone, Copy)]
enum Link {
    Idle,
    Then(usize),
    JoinSlot(usize, usize),
    RaceInput(usize),
}

/// The bookkeeping of an any-of race: how many inputs have not rejected, and
/// the first rejection reason.
struct Race {
    out: usize,
    remaining: usize,
    first_error: Option<String>,
}

/// Where link `link` of promise `p` may point: to later promises only, and to
/// existing joins, slots and races.
spec fn link_ok(
    link: Link,
    p: int,
    n: int,
    join_lens: Seq<nat>,
    join_targets: Seq<Option<usize>>,
    race_outs: Seq<usize>,
) -> bool {
    match link {
        Link::Idle => true,
        Link::Then(t) => p < t < n,
        Link::JoinSlot(j, slot) => j < join_lens.len() && slot < join_lens[j as int] && (
        join_targets[j as int] matches Some(t) ==> p < t),
        Link::RaceInput(r) => r < race_outs.len() && p < race_outs[r as int],
    }
}

spec fn links_to_join(link: Link, j: int) -> bool {
    link matches Link::JoinSlot(jj, _) && jj == j
}

/// How many of `inputs` are rejected in `states`.
pub open spec fn rejected_count<T>(states: Seq<PromiseState<T>>, inputs: Seq<Promise>) -> nat
    decreases inputs.len(),
{
    if inputs.len() == 0 {
        0
    } else {
        rejected_count(states, inputs.drop_last()) + if states[inputs.last().at()] is Rejected {
            1nat
        } else {
            0nat
        }
    }
}

/// The reason of the first of `inputs` that is rejected in `states`.
pub open spec fn first_rejection<T>(states: Seq<PromiseState<T>>, inputs: Seq<Promise>) -> Option<
    String,
>
    decreases inputs.len(),
{
    if inputs.len() == 0 {
        None
    } else {
        match first_rejection(states, inputs.drop_last()) {
            Some(reason) => Some(reason),
            None => match states[inputs.last().at()] {
                PromiseState::Rejected(reason) => Some(reason),
                _ => None,
            },
        }
    }
}

proof fn lemma_rejected_count_bound<T>(states: Seq<PromiseState<T>>, inputs: Seq<Promise>)
    ensures
        rejected_count(states, inputs) <= inputs.len(),
    decreases inputs.len(),
{
    if inputs.len() > 0 {
        lemma_rejected_count_bound(states, inputs.drop_last());
    }
}

proof fn lemma_all_rejected<T>(states: Seq<PromiseState<T>>, inputs: Seq<Promise>)
    requires
        rejected_count(states, inputs) == inputs.len(),
    ensures
        forall|k: int| 0 <= k < inputs.len() ==> #[trigger] states[inputs[k].at()] is Rejected,
    decreases inputs.len(),
{
    if inputs.len() > 0 {
        let init = inputs.drop_last();
        lemma_rejected_count_bound(states, init);
        lemma_all_rejected(states, init);
        assert forall|k: int| 0 <= k < inputs.len() implies #[trigger] states[inputs[k].at()]
            is Rejected by {
            if k < inputs.len() - 1 {
                assert(init[k] == inputs[k]);
            }
        }
    }
}

/// `state` holds `g` applied to clones of the values of the complete join `join`.
pub open spec fn joined_value<T: Clone, G: Fn(Vec<T>) -> T>(
    join: AllOfView<T>,
    g: G,
    state: PromiseState<T>,
) -> bool {
    state is Fulfilled && exists|vals: Vec<T>|
        vals@.len() == join.slots.len() && (forall|i: int|
            0 <= i < vals@.len() ==> cloned(#[trigger] filled_values(join.slots)[i], vals@[i]))
            && g.ensures((vals,), state->Fulfilled_0)
}

/// The first rejection reason of a race once `reason` is seen.
pub open spec fn first_reason(seen: Option<String>, reason: String) -> String {
    match seen {
        Some(first) => first,
        None => reason,
    }
}

/// Promise `q` is resolved by another one: as the target of a continuation,
/// of a join, or as the promise of a race.
spec fn derived(
    links: Seq<Link>,
    join_targets: Seq<Option<usize>>,
    race_outs: Seq<usize>,
    q: int,
) -> bool {
    (exists|u: int| 0 <= u < links.len() && #[trigger] links[u] == Link::Then(q as usize)) || (
    exists|j: int| 0 <= j < join_targets.len() && #[trigger] join_targets[j] == Some(q as usize))
        || (exists|r: int| 0 <= r < race_outs.len() && #[trigger] race_outs[r] == q as usize)
}

/// Some promise from index `from` on is an input of race `r`.
spec fn feeds_race(links: Seq<Link>, from: int, r: int) -> bool {
    exists|q: int| from <= q < links.len() && #[trigger] links[q] == Link::RaceInput(r as usize)
}

/// Every link of `links` is as `link_ok` asks.
spec fn links_ok(
    links: Seq<Link>,
    n: int,
    join_lens: Seq<nat>,
    join_targets: Seq<Option<usize>>,
    race_outs: Seq<usize>,
) -> bool {
    forall|p: int|
        0 <= p < links.len() ==> #[trigger] link_ok(links[p], p, n, join_lens, join_targets, race_outs)
}

impl Promise {
    pub closed spec fn at(self) -> int {
        self.index as int
    }
}

impl Join {
    pub closed spec fn at(self) -> int {
        self.index as int
    }
}

impl<T: Clone, F: Fn(T) -> T, G: Fn(Vec<T>) -> T, C: Fn(String)> Promises<T, F, G, C> {
    /// The state of each promise, by handle index.
    pub closed spec fn states(&self) -> Seq<PromiseState<T>> {
        self.states@
    }

    /// The bookkeeping of each join, by handle index.
    pub closed spec fn joins(&self) -> Seq<AllOfView<T>> {
        self.joins@.map_values(|a: AllOf<T>| a@)
    }

    pub closed spec fn join_lens(&self) -> Seq<nat> {
        self.joins@.map_values(|a: AllOf<T>| a@.slots.len())
    }

    pub closed spec fn race_outs(&self) -> Seq<usize> {
        self.races@.map_values(|r: Race| r.out)
    }

    /// The `then` continuation waiting on promise `p`: the promise it
    /// resolves and the function it applies.
    pub closed spec fn continuation(&self, p: int) -> Option<(int, F)> {
        match self.links@[p] {
            Link::Then(t) => match self.on_value@[p] {
                Some(f) => Some((t as int, f)),
                None => None,
            },
            _ => None,
        }
    }

    /// The race promise `p` is an input of, if any.
    pub closed spec fn race_of(&self, p: int) -> Option<int> {
        match self.links@[p] {
            Link::RaceInput(r) => Some(r as int),
            _ => None,
        }
    }

    /// Race `r`: its promise, how many of its inputs have not rejected, and
    /// the first rejection reason.
    pub closed spec fn race_state(&self, r: int) -> (int, int, Option<String>) {
        (
            self.races@[r].out as int,
            self.races@[r].remaining as int,
            self.races@[r].first_error,
        )
    }

    /// The race promise `p` is an input of, if any, as `race_state` gives it.
    pub open spec fn race_at(&self, p: int) -> Option<(int, int, Option<String>)> {
        match self.race_of(p) {
            Some(r) => Some(self.race_state(r)),
            None => None,
        }
    }

    /// How many races the set holds.
    pub closed spec fn race_count(&self) -> int {
        self.races@.len() as int
    }

    /// Some promise from index `from` on is an input of join `j`.
    pub closed spec fn join_fed_from(&self, from: int, j: int) -> bool {
        exists|q: int|
            from <= q < self.links@.len() && #[trigger] links_to_join(self.links@[q], j)
    }

    /// Some promise from index `from` on is an input of race `r`.
    pub closed spec fn race_fed_from(&self, from: int, r: int) -> bool {
        feeds_race(self.links@, from, r)
    }

    /// The handler waiting on a rejection of promise `p`, if any.
    pub closed spec fn rejection_handler(&self, p: int) -> Option<C> {
        self.on_error@[p]
    }

    /// Promise `q` is resolved by another promise of the set, not directly.
    pub closed spec fn is_derived(&self, q: int) -> bool {
        derived(self.links@, self.join_targets@, self.race_outs(), q)
    }

    /// The promise a continuation of join `j` resolves, if one was attached.
    pub closed spec fn join_target(&self, j: int) -> Option<int> {
        match self.join_targets@[j] {
            Some(t) => Some(t as int),
            None => None,
        }
    }

    /// The continuation waiting on join `j`: the promise it resolves and the
    /// function it applies to the join's values.
    pub closed spec fn join_continuation(&self, j: int) -> Option<(int, G)> {
        match (self.join_targets@[j], self.join_on_value@[j]) {
            (Some(t), Some(g)) => Some((t as int, g)),
            _ => None,
        }
    }

    /// The join and slot that promise `p` completes, if any.
    pub closed spec fn joined_at(&self, p: int) -> Option<(int, int)> {
        match self.links@[p] {
            Link::JoinSlot(j, slot) => Some((j as int, slot as int)),
            _ => None,
        }
    }

    /// `new_states` shows value `v` of promise `p` carried down its chain of
    /// `then` continuations, as this set stands: each pending promise of the
    /// chain is fulfilled with its function's result on a clone of the value
    /// before it.
    pub open spec fn then_chain(&self, new_states: Seq<PromiseState<T>>, p: int, v: T) -> bool
        decreases self.states().len() - p,
    {
        match self.continuation(p) {
            Some((t, f)) => if p < t < self.states().len() && self.states()[t] is Pending {
                &&& new_states[t] is Fulfilled
                &&& exists|v2: T| cloned(v, v2) && f.ensures((v2,), new_states[t]->Fulfilled_0)
                &&& self.then_chain(new_states, t, new_states[t]->Fulfilled_0)
            } else {
                true
            },
            None => true,
        }
    }

    /// No promise at or after a join's target completes that join.
    proof fn lemma_no_link_after_target(s: &Self, j: int, t: int)
        requires
            s.wf(),
            0 <= j < s.joins@.len(),
            0 <= t,
            s.join_targets@[j] == Some(t as usize),
        ensures
            forall|q: int| t <= q < s.states().len() ==> !links_to_join(s.links@[q], j),
    {
        assert forall|q: int| t <= q < s.states().len() implies !links_to_join(
            s.links@[q],
            j,
        ) by {
            assert(link_ok(
                s.links@[q],
                q,
                s.states@.len() as int,
                s.join_lens(),
                s.join_targets@,
                s.race_outs(),
            ));
        }
    }

    proof fn lemma_race_frame_step(pre: &Self, post: &Self, p: int, t: int)
        requires
            p < t,
            forall|r: int|
                0 <= r < pre.races@.len() && !feeds_race(pre.links@, t, r)
                    ==> #[trigger] post.race_state(r) == pre.race_state(r),
        ensures
            forall|r: int|
                0 <= r < pre.races@.len() && !feeds_race(pre.links@, p, r)
                    ==> #[trigger] post.race_state(r) == pre.race_state(r),
    {
        assert forall|r: int|
            0 <= r < pre.races@.len() && !feeds_race(pre.links@, p, r) implies #[trigger] post.race_state(
            r,
        ) == pre.race_state(r) by {
            if feeds_race(pre.links@, t, r) {
                let q = choose|q: int|
                    t <= q < pre.links@.len() && #[trigger] pre.links@[q] == Link::RaceInput(
                        r as usize,
                    );
                assert(p <= q);
            }
        }
    }

    proof fn lemma_then_chain_frame(
        a: &Self,
        b: &Self,
        new_states: Seq<PromiseState<T>>,
        t: int,
        v: T,
    )
        requires
            a.states().len() == b.states().len(),
            0 <= t,
            forall|q: int|
                t <= q < a.states().len() ==> a.continuation(q) == b.continuation(q)
                    && a.states()[q] == b.states()[q],
        ensures
            a.then_chain(new_states, t, v) == b.then_chain(new_states, t, v),
        decreases a.states().len() - t,
    {
        if t < a.states().len() {
            match a.continuation(t) {
                Some((t2, f)) => {
                    if t < t2 < a.states().len() {
                        Self::lemma_then_chain_frame(
                            a,
                            b,
                            new_states,
                            t2,
                            new_states[t2]->Fulfilled_0,
                        );
                    }
                },
                None => {},
            }
        }
    }

    pub closed spec fn wf(&self) -> bool {
        let n = self.states@.len();
        &&& self.links@.len() == n
        &&& self.on_value@.len() == n
        &&& self.on_error@.len() == n
        &&& self.join_targets@.len() == self.joins@.len()
        &&& self.join_on_value@.len() == self.joins@.len()
        &&& self.join_on_error@.len() == self.joins@.len()
        &&& links_ok(self.links@, n as int, self.join_lens(), self.join_targets@, self.race_outs())
        &&& forall|j: int| 0 <= j < self.joins@.len() ==> (#[trigger] self.joins@[j]).wf()
        &&& forall|j: int|
            0 <= j < self.joins@.len() ==> (#[trigger] self.join_targets@[j] matches Some(t) ==> t
                < n)
        &&& forall|r: int| 0 <= r < self.races@.len() ==> #[trigger] self.race_outs()[r] < n
        &&& forall|p: int|
            0 <= p < n ==> (#[trigger] self.on_value@[p] matches Some(f) ==> forall|x: T|
                f.requires((x,)))
        &&& forall|p: int|
            0 <= p < n ==> (#[trigger] self.on_error@[p] matches Some(c) ==> forall|e: String|
                c.requires((e,)))
        &&& forall|j: int|
            0 <= j < self.joins@.len() ==> (#[trigger] self.join_on_value@[j] matches Some(g)
                ==> forall|xs: Vec<T>| g.requires((xs,)))
        &&& forall|j: int|
            0 <= j < self.joins@.len() ==> (#[trigger] self.join_on_error@[j] matches Some(c)
                ==> forall|e: String| c.requires((e,)))
    }

    /// An empty set.
    pub fn new() -> (r: Self)
        ensures
            r.wf(),
            r.states().len() == 0,
            r.joins().len() == 0,
    {
        Promises {
            states: Vec::new(),
            links: Vec::new(),
            on_value: Vec::new(),
            on_error: Vec::new(),
            joins: Vec::new(),
            join_targets: Vec::new(),
            join_on_value: Vec::new(),
            join_on_error: Vec::new(),
            races: Vec::new(),
        }
    }

    /// Adds a pending promise with no continuation.
    fn push_pending(&mut self) -> (d: usize)
        requires
            old(self).wf(),
        ensures
            final(self).wf(),
            d == old(self).states().len(),
            final(self).states() == old(self).states().push(PromiseState::Pending),
            final(self).joins() == old(self).joins(),
            final(self).races@ == old(self).races@,
            final(self).join_targets@ == old(self).join_targets@,
            final(self).links@ == old(self).links@.push(Link::Idle),
            final(self).on_error@ == old(self).on_error@.push(None),
            final(self).on_value@ == old(self).on_value@.push(None),
            final(self).joins@ == old(self).joins@,
            final(self).join_on_value@ == old(self).join_on_value@,
            final(self).join_on_error@ == old(self).join_on_error@,
    {
        let d = self.states.len();
        self.states.push(PromiseState::Pending);
        self.links.push(Link::Idle);
        self.on_value.push(None);
        self.on_error.push(None);
        proof {
            assert(self.join_lens() =~= old(self).join_lens());
            assert(self.race_outs() =~= old(self).race_outs());
            assert forall|q: int| 0 <= q < self.links@.len() implies #[trigger] link_ok(
                self.links@[q],
                q,
                self.states@.len() as int,
                self.join_lens(),
                self.join_targets@,
                self.race_outs(),
            ) by {
                if q < d {
                    assert(link_ok(
                        old(self).links@[q],
                        q,
                        d as int,
                        old(self).join_lens(),
                        old(self).join_targets@,
                        old(self).race_outs(),
                    ));
                }
            }
            assert forall|p: int| 0 <= p < self.states@.len() implies (#[trigger] self.on_value@[p] matches Some(f) ==> forall|x: T|
                f.requires((x,))) by {
                if p < d {
                    assert(self.on_value@[p] == old(self).on_value@[p]);
                }
            }
            assert forall|p: int| 0 <= p < self.states@.len() implies (#[trigger] self.on_error@[p] matches Some(c) ==> forall|e: String|
                c.requires((e,))) by {
                if p < d {
                    assert(self.on_error@[p] == old(self).on_error@[p]);
                }
            }
        }
        d
    }

    /// Resolves promise `p` with `outcome` if it is pending, and passes the
    /// outcome on along its link. A resolved promise never changes again.
    fn settle(&mut self, p: usize, outcome: PromiseState<T>)
        requires
            old(self).wf(),
            p < old(self).states().len(),
            !(outcome is Pending),
        ensures
            final(self).wf(),
            final(self).states().len() == old(self).states().len(),
            final(self).joins().len() == old(self).joins().len(),
            final(self).races@.len() == old(self).races@.len(),
            forall|q: int|
                0 <= q < old(self).states().len() && !(old(self).states()[q] is Pending)
                    ==> #[trigger] final(self).states()[q] == old(self).states()[q],
            old(self).states()[p as int] is Pending ==> final(self).states()[p as int] == outcome,
            old(self).states()[p as int] is Pending && outcome is Fulfilled ==> old(self).then_chain(
                final(self).states(),
                p as int,
                outcome->Fulfilled_0,
            ),
            final(self).links@ == old(self).links@,
            final(self).join_targets@ == old(self).join_targets@,
            forall|j: int|
                0 <= j < old(self).joins().len() && (forall|q: int|
                    p <= q < old(self).states().len() ==> !links_to_join(
                        old(self).links@[q],
                        j,
                    )) ==> #[trigger] final(self).joins()[j] == old(self).joins()[j],
            old(self).states()[p as int] is Pending && outcome is Fulfilled && old(
                self,
            ).joined_at(p as int) is Some ==> exists|v2: T|
                cloned(outcome->Fulfilled_0, v2) && final(self).joins()[old(self).joined_at(
                    p as int,
                )->Some_0.0] == all_of_fulfill(
                    old(self).joins()[old(self).joined_at(p as int)->Some_0.0],
                    old(self).joined_at(p as int)->Some_0.1,
                    v2,
                ),
            old(self).states()[p as int] is Pending && outcome is Rejected && old(
                self,
            ).joined_at(p as int) is Some ==> final(self).joins()[old(self).joined_at(
                p as int,
            )->Some_0.0] == all_of_reject(
                old(self).joins()[old(self).joined_at(p as int)->Some_0.0],
                outcome->Rejected_0,
            ),
            old(self).states()[p as int] is Pending && outcome is Fulfilled && old(self).race_at(
                p as int,
            ) is Some && old(self).states()[old(self).race_at(p as int)->Some_0.0] is Pending
                ==> final(self).states()[old(self).race_at(p as int)->Some_0.0] is Fulfilled
                && cloned(
                outcome->Fulfilled_0,
                final(self).states()[old(self).race_at(p as int)->Some_0.0]->Fulfilled_0,
            ),
            old(self).states()[p as int] is Pending && outcome is Rejected && old(self).race_at(
                p as int,
            ) is Some && old(self).race_at(p as int)->Some_0.1 == 1 && old(self).states()[old(
                self,
            ).race_at(p as int)->Some_0.0] is Pending ==> final(self).states()[old(self).race_at(
                p as int,
            )->Some_0.0] == PromiseState::<T>::Rejected(
                first_reason(old(self).race_at(p as int)->Some_0.2, outcome->Rejected_0),
            ),
            old(self).states()[p as int] is Pending && outcome is Rejected && old(self).race_at(
                p as int,
            ) is Some && old(self).race_at(p as int)->Some_0.1 > 1 ==> final(self).race_at(
                p as int,
            ) == Some(
                (
                    old(self).race_at(p as int)->Some_0.0,
                    old(self).race_at(p as int)->Some_0.1 - 1,
                    Some(first_reason(old(self).race_at(p as int)->Some_0.2, outcome->Rejected_0)),
                ),
            ),
            !(old(self).states()[p as int] is Pending) ==> *final(self) == *old(self),
            final(self).race_outs() == old(self).race_outs(),
            forall|q: int|
                0 <= q < old(self).states().len() && q != p && !old(self).is_derived(q)
                    ==> #[trigger] final(self).states()[q] == old(self).states()[q],
            forall|q: int|
                0 <= q < old(self).states().len() && #[trigger] final(self).states()[q]
                    is Pending ==> final(self).continuation(q) == old(self).continuation(q)
                    && final(self).rejection_handler(q) == old(self).rejection_handler(q),
            old(self).states()[p as int] is Pending && outcome is Rejected && old(
                self,
            ).rejection_handler(p as int) is Some ==> old(self).rejection_handler(
                p as int,
            )->Some_0.ensures((outcome->Rejected_0,), ()),
            old(self).states()[p as int] is Pending && outcome is Rejected && old(
                self,
            ).continuation(p as int) is Some && old(self).states()[old(self).continuation(
                p as int,
            )->Some_0.0] is Pending ==> final(self).states()[old(self).continuation(
                p as int,
            )->Some_0.0] == outcome,
            forall|r: int|
                0 <= r < old(self).races@.len() && !old(self).race_fed_from(p as int, r)
                    ==> #[trigger] final(self).race_state(r) == old(self).race_state(r),
            old(self).states()[p as int] is Pending && outcome is Fulfilled && old(self).joined_at(
                p as int,
            ) is Some && all_of_outcome(
                old(self).joins()[old(self).joined_at(p as int)->Some_0.0],
            ) is Pending && all_of_outcome(
                final(self).joins()[old(self).joined_at(p as int)->Some_0.0],
            ) is Fulfilled && old(self).join_continuation(old(self).joined_at(p as int)->Some_0.0)
                is Some && old(self).states()[old(self).join_continuation(
                old(self).joined_at(p as int)->Some_0.0,
            )->Some_0.0] is Pending ==> joined_value(
                final(self).joins()[old(self).joined_at(p as int)->Some_0.0],
                old(self).join_continuation(old(self).joined_at(p as int)->Some_0.0)->Some_0.1,
                final(self).states()[old(self).join_continuation(
                    old(self).joined_at(p as int)->Some_0.0,
                )->Some_0.0],
            ),
            old(self).states()[p as int] is Pending && outcome is Rejected && old(self).joined_at(
                p as int,
            ) is Some && all_of_outcome(
                old(self).joins()[old(self).joined_at(p as int)->Some_0.0],
            ) is Pending && old(self).join_target(old(self).joined_at(p as int)->Some_0.0)
                is Some && old(self).states()[old(self).join_target(
                old(self).joined_at(p as int)->Some_0.0,
            )->Some_0] is Pending ==> final(self).states()[old(self).join_target(
                old(self).joined_at(p as int)->Some_0.0,
            )->Some_0] == outcome,
        decreases old(self).states().len() - p,
    {
        let ghost s0 = self.states@;
        match &self.states[p] {
            PromiseState::Pending => {},
            _ => {
                return ;
            },
        }
        let link = self.links[p];
        assert(link_ok(
            self.links@[p as int],
            p as int,
            self.states@.len() as int,
            self.join_lens(),
            self.join_targets@,
            self.race_outs(),
        ));
        let mut carried: PromiseState<T> = PromiseState::Pending;
        match &outcome {
            PromiseState::Fulfilled(v) => {
                let vc = v.clone();
                assert(cloned(*v, vc));
                carried = PromiseState::Fulfilled(vc);
            },
            PromiseState::Rejected(e) => {
                carried = PromiseState::Rejected(e.clone());
            },
            PromiseState::Pending => {},
        }
        self.states.set(p, outcome);
        let ghost s1 = self.states@;
        match carried {
            PromiseState::Fulfilled(v) => {
                match link {
                    Link::Then(t) => {
                        let mut taken: Option<F> = None;
                        self.on_value.set_and_swap(p, &mut taken);
                        let ghost mid = *self;
                        match taken {
                            Some(f) => {
                                let ghost v2 = v;
                                let y = f(v);
                                let ghost pre = *self;
                                self.settle(t, PromiseState::Fulfilled(y));
                                proof {
                                    Self::lemma_race_frame_step(&pre, self, p as int, t as int);
                                }
                                proof {
                                    assert(old(self).continuation(p as int) == Some((t as int, f)));
                                    assert(mid.states()[t as int] == old(self).states()[t as int]);
                                    assert(cloned(outcome->Fulfilled_0, v2) && f.ensures((v2,), y));
                                    Self::lemma_then_chain_frame(
                                        &mid,
                                        old(self),
                                        self.states(),
                                        t as int,
                                        y,
                                    );
                                }
                            },
                            None => {},
                        }
                    },
                    Link::JoinSlot(j, slot) => {
                        let ghost lens0 = self.join_lens();
                        let mut tally: AllOf<T> = AllOf::new(0);
                        self.joins.set_and_swap(j, &mut tally);
                        let completed = tally.fulfill(slot, v);
                        let values = if completed {
                            Some(tally.values())
                        } else {
                            None
                        };
                        self.joins.set_and_swap(j, &mut tally);
                        assert(self.join_lens() =~= lens0);
                        assert(cloned(outcome->Fulfilled_0, v));
                        assert(self.joins()[j as int] == all_of_fulfill(
                            old(self).joins()[j as int],
                            slot as int,
                            v,
                        ));
                        match (values, self.join_targets[j]) {
                            (Some(vals), Some(t)) => {
                                let mut taken: Option<G> = None;
                                self.join_on_value.set_and_swap(j, &mut taken);
                                match taken {
                                    Some(g) => {
                                        let y = g(vals);
                                        let ghost mid = *self;
                                        let ghost pre = *self;
                                        self.settle(t, PromiseState::Fulfilled(y));
                                        proof {
                                            Self::lemma_race_frame_step(&pre, self, p as int, t as int);
                                        }
                                        proof {
                                            Self::lemma_no_link_after_target(&mid, j as int, t as int);
                                            assert(self.joins()[j as int] == mid.joins()[j as int]);
                                        }
                                    },
                                    None => {},
                                }
                            },
                            _ => {},
                        }
                    },
                    Link::RaceInput(r) => {
                        let out = self.races[r].out;
                        let ghost pre = *self;
                        self.settle(out, PromiseState::Fulfilled(v));
                        proof {
                            Self::lemma_race_frame_step(&pre, self, p as int, out as int);
                        }
                    },
                    Link::Idle => {},
                }
            },
            PromiseState::Rejected(e) => {
                let mut handler: Option<C> = None;
                self.on_error.set_and_swap(p, &mut handler);
                match handler {
                    Some(c) => c(e.clone()),
                    None => {},
                }
                match link {
                    Link::Then(t) => {
                        let ghost pre = *self;
                        self.settle(t, PromiseState::Rejected(e));
                        proof {
                            Self::lemma_race_frame_step(&pre, self, p as int, t as int);
                        }
                    },
                    Link::JoinSlot(j, _slot) => {
                        let ghost lens0 = self.join_lens();
                        let mut tally: AllOf<T> = AllOf::new(0);
                        self.joins.set_and_swap(j, &mut tally);
                        let first = tally.reject(e.clone());
                        self.joins.set_and_swap(j, &mut tally);
                        assert(self.join_lens() =~= lens0);
                        assert(self.joins()[j as int] == all_of_reject(
                            old(self).joins()[j as int],
                            outcome->Rejected_0,
                        ));
                        if first {
                            let mut join_handler: Option<C> = None;
                            self.join_on_error.set_and_swap(j, &mut join_handler);
                            match join_handler {
                                Some(c) => c(e.clone()),
                                None => {},
                            }
                            match self.join_targets[j] {
                                Some(t) => {
                                    let ghost mid = *self;
                                    let ghost pre = *self;
                                    self.settle(t, PromiseState::Rejected(e));
                                    proof {
                                        Self::lemma_race_frame_step(&pre, self, p as int, t as int);
                                    }
                                    proof {
                                        Self::lemma_no_link_after_target(&mid, j as int, t as int);
                                        assert(self.joins()[j as int] == mid.joins()[j as int]);
                                    }
                                },
                                None => {},
                            }
                        }
                    },
                    Link::RaceInput(r) => {
                        assert(old(self).links@[p as int] == Link::RaceInput(r));
                        assert(feeds_race(old(self).links@, p as int, r as int));
                        let out = self.races[r].out;
                        let remaining = self.races[r].remaining;
                        let first_error = match &self.races[r].first_error {
                            Some(prev) => prev.clone(),
                            None => e,
                        };
                        let ghost outs0 = self.race_outs();
                        if remaining > 0 {
                            let left = remaining - 1;
                            self.races.set(
                                r,
                                Race { out, remaining: left, first_error: Some(first_error.clone()) },
                            );
                            assert(self.race_outs() =~= outs0);
                            if left == 0 {
                                let ghost pre = *self;
                                self.settle(out, PromiseState::Rejected(first_error));
                                proof {
                                    Self::lemma_race_frame_step(&pre, self, p as int, out as int);
                                }
                            }
                        }
                    },
                    Link::Idle => {},
                }
            },
            PromiseState::Pending => {},
        }
    }

    /// The state of promise `p`.
    pub fn state(&self, p: Promise) -> (r: &PromiseState<T>)
        requires
            p.at() < self.states().len(),
        ensures
            *r == self.states()[p.at()],
    {
        &self.states[p.index]
    }

    /// Whether a continuation, join or race waits on promise `p`.
    pub closed spec fn is_awaited(&self, p: int) -> bool {
        !(self.links@[p] is Idle)
    }

    /// Whether a rejection handler waits on promise `p`.
    pub closed spec fn is_caught(&self, p: int) -> bool {
        self.on_error@[p] is Some
    }

    /// Whether anything waits on promise `p`'s value.
    pub fn has_continuation(&self, p: Promise) -> (r: bool)
        requires
            self.wf(),
            p.at() < self.states().len(),
        ensures
            r == self.is_awaited(p.at()),
    {
        !matches!(self.links[p.index], Link::Idle)
    }

    /// Whether a rejection handler waits on promise `p`.
    pub fn has_rejection_handler(&self, p: Promise) -> (r: bool)
        requires
            self.wf(),
            p.at() < self.states().len(),
        ensures
            r == self.is_caught(p.at()),
    {
        self.on_error[p.index].is_some()
    }
}

impl Promise {
    /// A new pending promise in `set`.
    pub fn new<T: Clone, F: Fn(T) -> T, G: Fn(Vec<T>) -> T, C: Fn(String)>(
        set: &mut Promises<T, F, G, C>,
    ) -> (r: Promise)
        requires
            old(set).wf(),
        ensures
            final(set).wf(),
            r.at() == old(set).states().len(),
            final(set).states() == old(set).states().push(PromiseState::Pending),
            final(set).joins() == old(set).joins(),
            !final(set).is_awaited(r.at()),
            !final(set).is_caught(r.at()),
            forall|q: int|
                0 <= q < old(set).states().len() ==> #[trigger] final(set).continuation(q)
                    == old(set).continuation(q) && final(set).joined_at(q) == old(set).joined_at(q)
                    && final(set).race_of(q) == old(set).race_of(q) && final(set).rejection_handler(q)
                    == old(set).rejection_handler(q),
            forall|j: int|
                0 <= j < old(set).joins().len() ==> #[trigger] final(set).join_target(j) == old(set).join_target(j),
            final(set).race_count() == old(set).race_count(),
            forall|r: int|
                0 <= r < old(set).race_count() ==> #[trigger] final(set).race_state(r) == old(set).race_state(r),
            final(set).continuation(r.at()) is None && final(set).joined_at(r.at()) is None
                && final(set).race_of(r.at()) is None,
    {
        Promise { index: set.push_pending() }
    }

    /// Fulfills a pending promise with `value` and runs what waits on it; a
    /// resolved promise stays as it is.
    pub fn fulfill<T: Clone, F: Fn(T) -> T, G: Fn(Vec<T>) -> T, C: Fn(String)>(
        self,
        set: &mut Promises<T, F, G, C>,
        value: T,
    )
        requires
            old(set).wf(),
            self.at() < old(set).states().len(),
        ensures
            final(set).wf(),
            final(set).states().len() == old(set).states().len(),
            final(set).joins().len() == old(set).joins().len(),
            old(set).states()[self.at()] is Pending ==> final(set).states()[self.at()]
                == PromiseState::Fulfilled(value),
            old(set).states()[self.at()] is Pending ==> old(set).then_chain(
                final(set).states(),
                self.at(),
                value,
            ),
            old(set).states()[self.at()] is Pending && old(set).race_at(self.at()) is Some && old(set).states()[old(set).race_at(self.at())->Some_0.0] is Pending ==> final(set).states()[old(set).race_at(self.at())->Some_0.0] is Fulfilled && cloned(
                value,
                final(set).states()[old(set).race_at(self.at())->Some_0.0]->Fulfilled_0,
            ),
            old(set).states()[self.at()] is Pending && old(set).joined_at(self.at()) is Some
                ==> exists|v2: T|
                cloned(value, v2) && final(set).joins()[old(set).joined_at(self.at())->Some_0.0]
                    == all_of_fulfill(
                    old(set).joins()[old(set).joined_at(self.at())->Some_0.0],
                    old(set).joined_at(self.at())->Some_0.1,
                    v2,
                ),
            forall|q: int|
                0 <= q < old(set).states().len() && !(old(set).states()[q] is Pending)
                    ==> #[trigger] final(set).states()[q] == old(set).states()[q],
            !(old(set).states()[self.at()] is Pending) ==> *final(set) == *old(set),
            forall|q: int|
                0 <= q < old(set).states().len() && q != self.at() && !old(set).is_derived(q)
                    ==> #[trigger] final(set).states()[q] == old(set).states()[q],
            forall|q: int|
                0 <= q < old(set).states().len() && (#[trigger] final(set).states()[q]) is Pending
                    ==> final(set).continuation(q) == old(set).continuation(q) && final(set).rejection_handler(q) == old(set).rejection_handler(q),
            forall|q: int|
                0 <= q < old(set).states().len() ==> #[trigger] final(set).joined_at(q) == old(set).joined_at(q) && final(set).race_of(q) == old(set).race_of(q) && final(set).is_derived(q) == old(set).is_derived(q),
            forall|j: int|
                0 <= j < old(set).joins().len() ==> #[trigger] final(set).join_target(j) == old(set).join_target(j),
            forall|j: int|
                0 <= j < old(set).joins().len() && !old(set).join_fed_from(self.at(), j)
                    ==> #[trigger] final(set).joins()[j] == old(set).joins()[j],
            forall|r: int|
                0 <= r < old(set).race_count() && !old(set).race_fed_from(self.at(), r)
                    ==> #[trigger] final(set).race_state(r) == old(set).race_state(r),
            old(set).states()[self.at()] is Pending && old(set).joined_at(self.at()) is Some
                && all_of_outcome(old(set).joins()[old(set).joined_at(self.at())->Some_0.0])
                is Pending && all_of_outcome(
                final(set).joins()[old(set).joined_at(self.at())->Some_0.0],
            ) is Fulfilled && old(set).join_continuation(old(set).joined_at(self.at())->Some_0.0)
                is Some && old(set).states()[old(set).join_continuation(
                old(set).joined_at(self.at())->Some_0.0,
            )->Some_0.0] is Pending ==> joined_value(
                final(set).joins()[old(set).joined_at(self.at())->Some_0.0],
                old(set).join_continuation(old(set).joined_at(self.at())->Some_0.0)->Some_0.1,
                final(set).states()[old(set).join_continuation(
                    old(set).joined_at(self.at())->Some_0.0,
                )->Some_0.0],
            ),
    {
        set.settle(self.index, PromiseState::Fulfilled(value));
    }

    /// Rejects a pending promise with `reason` and runs what waits on it; a
    /// resolved promise stays as it is.
    pub fn reject<T: Clone, F: Fn(T) -> T, G: Fn(Vec<T>) -> T, C: Fn(String)>(
        self,
        set: &mut Promises<T, F, G, C>,
        reason: String,
    )
        requires
            old(set).wf(),
            self.at() < old(set).states().len(),
        ensures
            final(set).wf(),
            final(set).states().len() == old(set).states().len(),
            final(set).joins().len() == old(set).joins().len(),
            old(set).states()[self.at()] is Pending ==> final(set).states()[self.at()]
                == PromiseState::<T>::Rejected(reason),
            old(set).states()[self.at()] is Pending && old(set).race_at(self.at()) is Some && old(set).race_at(self.at())->Some_0.1 == 1 && old(set).states()[old(set).race_at(
                self.at(),
            )->Some_0.0] is Pending ==> final(set).states()[old(set).race_at(self.at())->Some_0.0]
                == PromiseState::<T>::Rejected(
                first_reason(old(set).race_at(self.at())->Some_0.2, reason),
            ),
            old(set).states()[self.at()] is Pending && old(set).race_at(self.at()) is Some && old(set).race_at(self.at())->Some_0.1 > 1 ==> final(set).race_at(self.at()) == Some(
                (
                    old(set).race_at(self.at())->Some_0.0,
                    old(set).race_at(self.at())->Some_0.1 - 1,
                    Some(first_reason(old(set).race_at(self.at())->Some_0.2, reason)),
                ),
            ),
            old(set).states()[self.at()] is Pending && old(set).joined_at(self.at()) is Some
                ==> final(set).joins()[old(set).joined_at(self.at())->Some_0.0] == all_of_reject(
                old(set).joins()[old(set).joined_at(self.at())->Some_0.0],
                reason,
            ),
            forall|q: int|
                0 <= q < old(set).states().len() && !(old(set).states()[q] is Pending)
                    ==> #[trigger] final(set).states()[q] == old(set).states()[q],
            !(old(set).states()[self.at()] is Pending) ==> *final(set) == *old(set),
            forall|q: int|
                0 <= q < old(set).states().len() && q != self.at() && !old(set).is_derived(q)
                    ==> #[trigger] final(set).states()[q] == old(set).states()[q],
            forall|q: int|
                0 <= q < old(set).states().len() && (#[trigger] final(set).states()[q]) is Pending
                    ==> final(set).continuation(q) == old(set).continuation(q) && final(set).rejection_handler(q) == old(set).rejection_handler(q),
            forall|q: int|
                0 <= q < old(set).states().len() ==> #[trigger] final(set).joined_at(q) == old(set).joined_at(q) && final(set).race_of(q) == old(set).race_of(q) && final(set).is_derived(q) == old(set).is_derived(q),
            forall|j: int|
                0 <= j < old(set).joins().len() ==> #[trigger] final(set).join_target(j) == old(set).join_target(j),
            forall|j: int|
                0 <= j < old(set).joins().len() && !old(set).join_fed_from(self.at(), j)
                    ==> #[trigger] final(set).joins()[j] == old(set).joins()[j],
            forall|r: int|
                0 <= r < old(set).race_count() && !old(set).race_fed_from(self.at(), r)
                    ==> #[trigger] final(set).race_state(r) == old(set).race_state(r),
            old(set).states()[self.at()] is Pending && old(set).rejection_handler(self.at())
                is Some ==> old(set).rejection_handler(self.at())->Some_0.ensures((reason,), ()),
            old(set).states()[self.at()] is Pending && old(set).continuation(self.at()) is Some
                && old(set).states()[old(set).continuation(self.at())->Some_0.0] is Pending
                ==> final(set).states()[old(set).continuation(self.at())->Some_0.0]
                == PromiseState::<T>::Rejected(reason),
            old(set).states()[self.at()] is Pending && old(set).joined_at(self.at()) is Some
                && all_of_outcome(old(set).joins()[old(set).joined_at(self.at())->Some_0.0])
                is Pending && old(set).join_target(old(set).joined_at(self.at())->Some_0.0) is Some
                && old(set).states()[old(set).join_target(
                old(set).joined_at(self.at())->Some_0.0,
            )->Some_0] is Pending ==> final(set).states()[old(set).join_target(
                old(set).joined_at(self.at())->Some_0.0,
            )->Some_0] == PromiseState::<T>::Rejected(reason),
    {
        set.settle(self.index, PromiseState::Rejected(reason));
    }

    /// A promise of `f` applied to this promise's value. If the value is
    /// already there, `f` runs now; if it comes later, `f` runs then. A
    /// rejection passes to the new promise unchanged.
    pub fn then<T: Clone, F: Fn(T) -> T, G: Fn(Vec<T>) -> T, C: Fn(String)>(
        self,
        set: &mut Promises<T, F, G, C>,
        f: F,
    ) -> (r: Promise)
        requires
            old(set).wf(),
            self.at() < old(set).states().len(),
            forall|x: T| f.requires((x,)),
        ensures
            final(set).wf(),
            r.at() == old(set).states().len(),
            final(set).states().len() == old(set).states().len() + 1,
            final(set).states().drop_last() == old(set).states(),
            final(set).joins() == old(set).joins(),
            old(set).states()[self.at()] is Pending ==> final(set).states()[r.at()] is Pending,
            old(set).states()[self.at()] is Pending ==> final(set).continuation(self.at()) == Some(
                (r.at(), f),
            ),
            old(set).states()[self.at()] is Fulfilled ==> final(set).states()[r.at()] is Fulfilled
                && exists|x2: T|
                cloned(old(set).states()[self.at()]->Fulfilled_0, x2) && f.ensures(
                    (x2,),
                    final(set).states()[r.at()]->Fulfilled_0,
                ),
            old(set).states()[self.at()] is Rejected ==> final(set).states()[r.at()]
                == PromiseState::<T>::Rejected(old(set).states()[self.at()]->Rejected_0),
            forall|q: int|
                0 <= q < old(set).states().len() && q != self.at() ==> #[trigger] final(set).continuation(q)
                    == old(set).continuation(q) && final(set).joined_at(q) == old(set).joined_at(q)
                    && final(set).race_of(q) == old(set).race_of(q) && final(set).rejection_handler(q)
                    == old(set).rejection_handler(q),
            forall|j: int|
                0 <= j < old(set).joins().len() ==> #[trigger] final(set).join_target(j) == old(set).join_target(j),
            final(set).race_count() == old(set).race_count(),
            forall|r: int|
                0 <= r < old(set).race_count() ==> #[trigger] final(set).race_state(r) == old(set).race_state(r),
            final(set).rejection_handler(self.at()) == old(set).rejection_handler(self.at()),
            old(set).states()[self.at()] is Pending ==> final(set).joined_at(self.at()) is None
                && final(set).race_of(self.at()) is None,
            !(old(set).states()[self.at()] is Pending) ==> final(set).continuation(self.at())
                == old(set).continuation(self.at()) && final(set).joined_at(self.at()) == old(set).joined_at(self.at())
                && final(set).race_of(self.at()) == old(set).race_of(self.at()),
    {
        let p = self.index;
        let mut value: Option<T> = None;
        let mut reason: Option<String> = None;
        match &set.states[p] {
            PromiseState::Fulfilled(x) => {
                let xc = x.clone();
                assert(cloned(*x, xc));
                value = Some(xc);
            },
            PromiseState::Rejected(e) => {
                reason = Some(e.clone());
            },
            PromiseState::Pending => {},
        }
        let d = set.push_pending();
        match (value, reason) {
            (Some(x), _) => {
                let y = f(x);
                set.states.set(d, PromiseState::Fulfilled(y));
                assert(cloned(old(set).states()[self.at()]->Fulfilled_0, x) && f.ensures((x,), y));
            },
            (None, Some(e)) => {
                set.states.set(d, PromiseState::Rejected(e));
            },
            (None, None) => {
                let ghost lens = set.join_lens();
                let ghost outs = set.race_outs();
                set.links.set(p, Link::Then(d));
                set.on_value.set(p, Some(f));
                proof {
                    assert forall|q: int| 0 <= q < set.links@.len() implies #[trigger] link_ok(
                        set.links@[q],
                        q,
                        set.states@.len() as int,
                        set.join_lens(),
                        set.join_targets@,
                        set.race_outs(),
                    ) by {
                        if q != p {
                            assert(link_ok(
                                old(set).links@.push(Link::Idle)[q],
                                q,
                                set.states@.len() as int,
                                lens,
                                set.join_targets@,
                                outs,
                            ));
                        }
                    }
                }
            },
        }
        assert(set.states@.drop_last() =~= old(set).states@);
        Promise { index: d }
    }

    /// Hands a rejection of this promise to `c`: now if it is already
    /// rejected, else when it rejects. Returns this promise.
    pub fn catch<T: Clone, F: Fn(T) -> T, G: Fn(Vec<T>) -> T, C: Fn(String)>(
        self,
        set: &mut Promises<T, F, G, C>,
        c: C,
    ) -> (r: Promise)
        requires
            old(set).wf(),
            self.at() < old(set).states().len(),
            forall|e: String| c.requires((e,)),
        ensures
            final(set).wf(),
            r == self,
            final(set).states() == old(set).states(),
            final(set).joins() == old(set).joins(),
            old(set).states()[self.at()] is Rejected ==> c.ensures(
                (old(set).states()[self.at()]->Rejected_0,),
                (),
            ),
            old(set).states()[self.at()] is Pending ==> final(set).rejection_handler(self.at())
                == Some(c),
            !(old(set).states()[self.at()] is Pending) ==> final(set).rejection_handler(self.at())
                == old(set).rejection_handler(self.at()),
            final(set).continuation(self.at()) == old(set).continuation(self.at()),
            final(set).joined_at(self.at()) == old(set).joined_at(self.at()),
            final(set).race_of(self.at()) == old(set).race_of(self.at()),
            forall|q: int|
                0 <= q < old(set).states().len() && q != self.at() ==> #[trigger] final(set).continuation(q)
                    == old(set).continuation(q) && final(set).joined_at(q) == old(set).joined_at(q)
                    && final(set).race_of(q) == old(set).race_of(q) && final(set).rejection_handler(q)
                    == old(set).rejection_handler(q),
            forall|j: int|
                0 <= j < old(set).joins().len() ==> #[trigger] final(set).join_target(j) == old(set).join_target(j),
            final(set).race_count() == old(set).race_count(),
            forall|r: int|
                0 <= r < old(set).race_count() ==> #[trigger] final(set).race_state(r) == old(set).race_state(r),
    {
        let p = self.index;
        let mut reason: Option<String> = None;
        let mut pending = false;
        match &set.states[p] {
            PromiseState::Rejected(e) => {
                reason = Some(e.clone());
            },
            PromiseState::Pending => {
                pending = true;
            },
            PromiseState::Fulfilled(_) => {},
        }
        match reason {
            Some(e) => c(e),
            None => if pending {
                set.on_error.set(p, Some(c));
            },
        }
        self
    }

    /// A join of `promises`: fulfilled with their values in input order once
    /// all fulfill; rejected with the first rejection seen.
    pub fn all_of<T: Clone, F: Fn(T) -> T, G: Fn(Vec<T>) -> T, C: Fn(String)>(
        set: &mut Promises<T, F, G, C>,
        promises: Vec<Promise>,
    ) -> (r: Join)
        requires
            old(set).wf(),
            forall|i: int|
                0 <= i < promises@.len() ==> #[trigger] promises@[i].at() < old(set).states().len(),
        ensures
            final(set).wf(),
            r.at() == old(set).joins().len(),
            final(set).joins().len() == old(set).joins().len() + 1,
            final(set).joins()[r.at()].slots.len() == promises@.len(),
            final(set).states() == old(set).states(),
            promises@.len() == 0 ==> all_of_outcome(final(set).joins()[r.at()])
                == PromiseState::Fulfilled(Seq::<T>::empty()),
            final(set).joins()[r.at()].rejection == first_rejection(old(set).states(), promises@),
            forall|k: int|
                0 <= k < promises@.len() ==> ((#[trigger] final(set).joins()[r.at()].slots[k]
                    is Some) <==> (old(set).states()[promises@[k].at()] is Fulfilled
                    && first_rejection(old(set).states(), promises@.take(k)) is None)),
            forall|k: int|
                0 <= k < promises@.len() && (#[trigger] final(set).joins()[r.at()].slots[k]
                    is Some) ==> cloned(
                    old(set).states()[promises@[k].at()]->Fulfilled_0,
                    final(set).joins()[r.at()].slots[k]->Some_0,
                ),
            forall|k: int|
                0 <= k < promises@.len() && #[trigger] old(set).states()[promises@[k].at()]
                    is Pending ==> (final(set).joined_at(promises@[k].at()) matches Some((jj, slot))
                    && jj == r.at() && 0 <= slot < promises@.len() && promises@[slot]
                    == promises@[k]),
    {
        let n = promises.len();
        let ghost s0 = old(set).states();
        let ghost ps = promises@;
        let mut tally: AllOf<T> = AllOf::new(n);
        let mut i: usize = 0;
        while i < n
            invariant
                set.wf(),
                *set == *old(set),
                s0 == old(set).states(),
                ps == promises@,
                n == promises@.len(),
                i <= n,
                tally.wf(),
                tally@.slots.len() == n,
                i == 0 ==> tally@.rejection is None,
                tally@.rejection == first_rejection(s0, ps.take(i as int)),
                forall|k: int| i <= k < n ==> #[trigger] tally@.slots[k] is None,
                forall|k: int|
                    0 <= k < i ==> ((#[trigger] tally@.slots[k] is Some) <==> (s0[ps[k].at()]
                        is Fulfilled && first_rejection(s0, ps.take(k)) is None)),
                forall|k: int|
                    0 <= k < i && (#[trigger] tally@.slots[k] is Some) ==> cloned(
                        s0[ps[k].at()]->Fulfilled_0,
                        tally@.slots[k]->Some_0,
                    ),
                forall|k: int|
                    0 <= k < promises@.len() ==> #[trigger] promises@[k].at() < set.states().len(),
            decreases n - i,
        {
            let p = promises[i].index;
            assert(promises@[i as int].at() < set.states().len());
            proof {
                assert(ps.take(i + 1).drop_last() =~= ps.take(i as int));
                assert(ps.take(i + 1).last() == ps[i as int]);
                assert(tally@.slots[i as int] is None);
                assert(!all_filled(tally@.slots));
            }
            match &set.states[p] {
                PromiseState::Fulfilled(x) => {
                    let xc = x.clone();
                    assert(cloned(*x, xc));
                    tally.fulfill(i, xc);
                },
                PromiseState::Rejected(e) => {
                    tally.reject(e.clone());
                },
                PromiseState::Pending => {},
            }
            i = i + 1;
        }
        proof {
            assert(ps.take(n as int) =~= ps);
        }
        proof {
            if n == 0 {
                assert(tally@.slots =~= Seq::<Option<T>>::empty());
                assert(filled_values(tally@.slots) =~= Seq::<T>::empty());
            }
        }
        let j = set.joins.len();
        let ghost links0 = set.links@;
        let ghost lens0 = set.join_lens();
        set.joins.push(tally);
        set.join_targets.push(None);
        set.join_on_value.push(None);
        set.join_on_error.push(None);
        proof {
            assert(set.join_lens().drop_last() =~= lens0);
            assert forall|q: int| 0 <= q < set.links@.len() implies #[trigger] link_ok(
                set.links@[q],
                q,
                set.states@.len() as int,
                set.join_lens(),
                set.join_targets@,
                set.race_outs(),
            ) by {
                assert(link_ok(
                    links0[q],
                    q,
                    set.states@.len() as int,
                    lens0,
                    old(set).join_targets@,
                    set.race_outs(),
                ));
            }
        }
        let mut k: usize = 0;
        while k < n
            invariant
                set.wf(),
                j + 1 == set.joins@.len(),
                set.join_targets@[j as int] is None,
                set.join_lens()[j as int] == n,
                set.states() == old(set).states(),
                set.joins() == old(set).joins().push(tally@),
                n == promises@.len(),
                k <= n,
                forall|q: int|
                    0 <= q < k && #[trigger] old(set).states()[promises@[q].at()] is Pending
                        ==> (set.joined_at(promises@[q].at()) matches Some((jj, slot)) && jj == j
                        && 0 <= slot < k && promises@[slot] == promises@[q]),
                forall|q: int|
                    0 <= q < promises@.len() ==> #[trigger] promises@[q].at() < set.states().len(),
            decreases n - k,
        {
            let p = promises[k].index;
            assert(promises@[k as int].at() < set.states().len());
            if matches!(set.states[p], PromiseState::Pending) {
                let ghost lens = set.join_lens();
                let ghost links1 = set.links@;
                set.links.set(p, Link::JoinSlot(j, k));
                proof {
                    assert forall|q: int| 0 <= q < set.links@.len() implies #[trigger] link_ok(
                        set.links@[q],
                        q,
                        set.states@.len() as int,
                        set.join_lens(),
                        set.join_targets@,
                        set.race_outs(),
                    ) by {
                        if q != p {
                            assert(link_ok(
                                links1[q],
                                q,
                                set.states@.len() as int,
                                lens,
                                set.join_targets@,
                                set.race_outs(),
                            ));
                        }
                    }
                }
            }
            k = k + 1;
        }
        proof {
            assert(set.joins() =~= old(set).joins().push(tally@));
        }
        Join { index: j }
    }

    /// A race of `promises`: fulfilled with the first value seen; rejected
    /// with the first rejection reason once every input has rejected.
    pub fn any_of<T: Clone, F: Fn(T) -> T, G: Fn(Vec<T>) -> T, C: Fn(String)>(
        set: &mut Promises<T, F, G, C>,
        promises: Vec<Promise>,
    ) -> (r: Promise)
        requires
            old(set).wf(),
            forall|i: int|
                0 <= i < promises@.len() ==> #[trigger] promises@[i].at() < old(set).states().len(),
        ensures
            final(set).wf(),
            r.at() == old(set).states().len(),
            final(set).states().len() == old(set).states().len() + 1,
            final(set).states().drop_last() == old(set).states(),
            final(set).joins() == old(set).joins(),
            (exists|k: int|
                0 <= k < promises@.len() && #[trigger] old(set).states()[promises@[k].at()]
                    is Fulfilled) ==> final(set).states()[r.at()] is Fulfilled,
            promises@.len() > 0 && rejected_count(old(set).states(), promises@) == promises@.len()
                ==> final(set).states()[r.at()] == PromiseState::<T>::Rejected(
                first_rejection(old(set).states(), promises@)->Some_0,
            ),
            (forall|k: int|
                0 <= k < promises@.len() ==> !(#[trigger] old(set).states()[promises@[k].at()]
                    is Fulfilled)) && rejected_count(old(set).states(), promises@)
                < promises@.len() ==> final(set).states()[r.at()] is Pending,
            forall|k: int|
                0 <= k < promises@.len() && #[trigger] old(set).states()[promises@[k].at()]
                    is Pending ==> final(set).race_at(promises@[k].at()) == Some(
                    (
                        r.at(),
                        promises@.len() - rejected_count(old(set).states(), promises@),
                        first_rejection(old(set).states(), promises@),
                    ),
                ),
    {
        let n = promises.len();
        let d = set.push_pending();
        let ghost s0 = old(set).states();
        let ghost ps = promises@;
        let mut remaining: usize = n;
        let mut first_error: Option<String> = None;
        let mut i: usize = 0;
        while i < n
            invariant
                set.wf(),
                d == old(set).states().len(),
                s0 == old(set).states(),
                ps == promises@,
                set.states().len() == d + 1,
                set.states().drop_last() == old(set).states(),
                set.joins() == old(set).joins(),
                n == promises@.len(),
                i <= n,
                remaining + rejected_count(s0, ps.take(i as int)) == n,
                first_error == first_rejection(s0, ps.take(i as int)),
                forall|k: int|
                    0 <= k < promises@.len() ==> #[trigger] promises@[k].at() < d,
                (exists|k: int| 0 <= k < i && #[trigger] s0[ps[k].at()] is Fulfilled)
                    ==> set.states()[d as int] is Fulfilled,
                (forall|k: int| 0 <= k < i ==> !(#[trigger] s0[ps[k].at()] is Fulfilled))
                    ==> set.states()[d as int] == if n > 0 && rejected_count(
                    s0,
                    ps.take(i as int),
                ) == n {
                    PromiseState::<T>::Rejected(first_rejection(s0, ps.take(i as int))->Some_0)
                } else {
                    PromiseState::<T>::Pending
                },
            decreases n - i,
        {
            proof {
                assert(ps.take(i + 1).drop_last() =~= ps.take(i as int));
                assert(ps.take(i + 1).last() == ps[i as int]);
                lemma_rejected_count_bound(s0, ps.take(i as int));
                assert(set.states()[ps[i as int].at()] == s0[ps[i as int].at()]);
            }
            let p = promises[i].index;
            assert(promises@[i as int].at() < d);
            let mut value: Option<T> = None;
            let mut reason: Option<String> = None;
            match &set.states[p] {
                PromiseState::Fulfilled(x) => {
                    value = Some(x.clone());
                },
                PromiseState::Rejected(e) => {
                    reason = Some(e.clone());
                },
                PromiseState::Pending => {},
            }
            let out_pending = matches!(set.states[d], PromiseState::Pending);
            match (value, reason) {
                (Some(x), _) => if out_pending {
                    set.states.set(d, PromiseState::Fulfilled(x));
                    assert(set.states@.drop_last() =~= old(set).states@);
                },
                (None, Some(e)) => {
                    if first_error.is_none() {
                        first_error = Some(e);
                    }
                    if remaining > 0 {
                        remaining = remaining - 1;
                    }
                    if remaining == 0 && out_pending {
                        match &first_error {
                            Some(fe) => {
                                set.states.set(d, PromiseState::Rejected(fe.clone()));
                                assert(set.states@.drop_last() =~= old(set).states@);
                            },
                            None => {},
                        }
                    }
                },
                (None, None) => {},
            }
            i = i + 1;
            proof {
                if exists|k: int| 0 <= k < i && #[trigger] s0[ps[k].at()] is Fulfilled {
                    let k = choose|k: int| 0 <= k < i && #[trigger] s0[ps[k].at()] is Fulfilled;
                    if k < i - 1 {
                        assert(exists|k2: int|
                            0 <= k2 < i - 1 && #[trigger] s0[ps[k2].at()] is Fulfilled);
                    }
                }
                lemma_rejected_count_bound(s0, ps.take(i as int));
            }
        }
        proof {
            assert(ps.take(n as int) =~= ps);
            if rejected_count(s0, ps) == n {
                lemma_all_rejected(s0, ps);
                assert forall|k: int| 0 <= k < n implies !(#[trigger] s0[ps[k].at()]
                    is Fulfilled) by {
                    assert(s0[ps[k].at()] is Rejected);
                }
            }
        }
        let ghost s1 = set.states();
        let r = set.races.len();
        let ghost lens0 = set.join_lens();
        let ghost outs0 = set.race_outs();
        let ghost links0 = set.links@;
        set.races.push(Race { out: d, remaining, first_error });
        proof {
            assert(set.race_outs().drop_last() =~= outs0);
            assert forall|q: int| 0 <= q < set.races@.len() implies #[trigger] set.race_outs()[q]
                < set.states@.len() by {
                if q < r {
                    assert(outs0[q] == set.race_outs()[q]);
                }
            }
            assert forall|q: int| 0 <= q < set.links@.len() implies #[trigger] link_ok(
                set.links@[q],
                q,
                set.states@.len() as int,
                set.join_lens(),
                set.join_targets@,
                set.race_outs(),
            ) by {
                assert(link_ok(
                    links0[q],
                    q,
                    set.states@.len() as int,
                    lens0,
                    set.join_targets@,
                    outs0,
                ));
            }
        }
        let mut k: usize = 0;
        while k < n
            invariant
                set.wf(),
                r + 1 == set.races@.len(),
                set.race_outs()[r as int] == d,
                set.races@[r as int].remaining == remaining,
                set.races@[r as int].first_error == first_error,
                set.states() == s1,
                s0 == old(set).states(),
                ps == promises@,
                remaining + rejected_count(s0, ps) == n,
                first_error == first_rejection(s0, ps),
                forall|q: int|
                    0 <= q < k && #[trigger] s0[ps[q].at()] is Pending ==> set.race_at(ps[q].at())
                        == Some((d as int, remaining as int, first_error)),
                set.states().len() == d + 1,
                set.states().drop_last() == old(set).states(),
                set.joins() == old(set).joins(),
                n == promises@.len(),
                k <= n,
                forall|q: int|
                    0 <= q < promises@.len() ==> #[trigger] promises@[q].at() < d,
            decreases n - k,
        {
            let p = promises[k].index;
            assert(promises@[k as int].at() < d);
            if matches!(set.states[p], PromiseState::Pending) {
                let ghost lens = set.join_lens();
                let ghost outs = set.race_outs();
                let ghost links1 = set.links@;
                set.links.set(p, Link::RaceInput(r));
                proof {
                    assert forall|q: int| 0 <= q < set.links@.len() implies #[trigger] link_ok(
                        set.links@[q],
                        q,
                        set.states@.len() as int,
                        set.join_lens(),
                        set.join_targets@,
                        set.race_outs(),
                    ) by {
                        if q != p {
                            assert(link_ok(
                                links1[q],
                                q,
                                set.states@.len() as int,
                                lens,
                                set.join_targets@,
                                outs,
                            ));
                        }
                    }
                }
            }
            k = k + 1;
        }
        Promise { index: d }
    }
}

impl Join {
    /// A promise of `g` applied to the join's values, in input order: now if
    /// the join is complete, else once it completes. A rejection of the join
    /// passes to the new promise.
    pub fn then<T: Clone, F: Fn(T) -> T, G: Fn(Vec<T>) -> T, C: Fn(String)>(
        self,
        set: &mut Promises<T, F, G, C>,
        g: G,
    ) -> (r: Promise)
        requires
            old(set).wf(),
            self.at() < old(set).joins().len(),
            forall|xs: Vec<T>| g.requires((xs,)),
        ensures
            final(set).wf(),
            r.at() == old(set).states().len(),
            final(set).states().len() == old(set).states().len() + 1,
            final(set).states().drop_last() == old(set).states(),
            final(set).joins() == old(set).joins(),
            all_of_outcome(old(set).joins()[self.at()]) is Pending ==> final(set).states()[r.at()]
                is Pending,
            all_of_outcome(old(set).joins()[self.at()]) is Rejected ==> final(set).states()[r.at()]
                == PromiseState::<T>::Rejected(old(set).joins()[self.at()].rejection->Some_0),
            all_of_outcome(old(set).joins()[self.at()]) is Fulfilled ==> joined_value(
                old(set).joins()[self.at()],
                g,
                final(set).states()[r.at()],
            ),
            all_of_outcome(old(set).joins()[self.at()]) is Pending ==> final(set).join_continuation(
                self.at(),
            ) == Some((r.at(), g)),
            forall|q: int|
                0 <= q < old(set).states().len() ==> #[trigger] final(set).continuation(q)
                    == old(set).continuation(q) && final(set).joined_at(q) == old(set).joined_at(q)
                    && final(set).race_of(q) == old(set).race_of(q) && final(set).rejection_handler(q)
                    == old(set).rejection_handler(q),
    {
        let j = self.index;
        let pending = set.joins[j].is_pending();
        let reason: Option<String> = match set.joins[j].rejection() {
            Some(e) => Some(e.clone()),
            None => None,
        };
        let values: Option<Vec<T>> = if !pending && reason.is_none() {
            Some(set.joins[j].values())
        } else {
            None
        };
        let d = set.push_pending();
        if pending {
            let ghost lens = set.join_lens();
            let ghost links0 = set.links@;
            let ghost targets0 = set.join_targets@;
            set.join_targets.set(j, Some(d));
            set.join_on_value.set(j, Some(g));
            proof {
                assert forall|q: int| 0 <= q < set.links@.len() implies #[trigger] link_ok(
                    set.links@[q],
                    q,
                    set.states@.len() as int,
                    set.join_lens(),
                    set.join_targets@,
                    set.race_outs(),
                ) by {
                    assert(link_ok(
                        links0[q],
                        q,
                        set.states@.len() as int,
                        lens,
                        targets0,
                        set.race_outs(),
                    ));
                }
            }
        } else {
            match (values, reason) {
                (_, Some(e)) => {
                    set.states.set(d, PromiseState::Rejected(e));
                },
                (Some(vals), None) => {
                    let y = g(vals);
                    set.states.set(d, PromiseState::Fulfilled(y));
                },
                (None, None) => {},
            }
        }
        assert(set.states@.drop_last() =~= old(set).states@);
        assert(set.joins() =~= old(set).joins());
        Promise { index: d }
    }

    /// Hands the join's rejection to `c`: now if it is already rejected,
    /// else when it rejects. Returns this join.
    pub fn catch<T: Clone, F: Fn(T) -> T, G: Fn(Vec<T>) -> T, C: Fn(String)>(
        self,
        set: &mut Promises<T, F, G, C>,
        c: C,
    ) -> (r: Join)
        requires
            old(set).wf(),
            self.at() < old(set).joins().len(),
            forall|e: String| c.requires((e,)),
        ensures
            final(set).wf(),
            r == self,
            final(set).states() == old(set).states(),
            final(set).joins() == old(set).joins(),
            all_of_outcome(old(set).joins()[self.at()]) is Rejected ==> c.ensures(
                (old(set).joins()[self.at()].rejection->Some_0,),
                (),
            ),
    {
        let j = self.index;
        let pending = set.joins[j].is_pending();
        let reason: Option<String> = match set.joins[j].rejection() {
            Some(e) => Some(e.clone()),
            None => None,
        };
        match reason {
            Some(e) => c(e),
            None => if pending {
                set.join_on_error.set(j, Some(c));
            },
        }
        self
    }
}

/// A chain `p.then(f).then(g)` fulfilled with `x` resolves to `g(f(x))`: the
/// middle promise holds `f` applied to (a clone of) `x`, and the last holds `g`
/// applied to (a clone of) that.
pub proof fn lemma_then_chain_composes<
    T: Clone,
    F: Fn(T) -> T,
    G: Fn(Vec<T>) -> T,
    C: Fn(String),
>(
    set: &Promises<T, F, G, C>,
    new_states: Seq<PromiseState<T>>,
    p: int,
    q: int,
    r: int,
    f: F,
    g: F,
    x: T,
)
    requires
        0 <= p < q < r < set.states().len(),
        set.continuation(p) == Some((q, f)),
        set.continuation(q) == Some((r, g)),
        set.states()[q] is Pending,
        set.states()[r] is Pending,
        set.then_chain(new_states, p, x),
    ensures
        new_states[q] is Fulfilled,
        new_states[r] is Fulfilled,
        exists|x2: T| cloned(x, x2) && f.ensures((x2,), new_states[q]->Fulfilled_0),
        exists|y2: T|
            cloned(new_states[q]->Fulfilled_0, y2) && g.ensures((y2,), new_states[r]->Fulfilled_0),
{
    assert(set.then_chain(new_states, q, new_states[q]->Fulfilled_0));
}

} // verus!
