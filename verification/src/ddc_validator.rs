//! The DDC validator pallet: every era it assigns a quorum of randomly
//! chosen validators to each CDN edge, lets validators record verdicts, and
//! drives an offchain worker that asks for proofs of delivery.
//!
//! The pallet's on-chain storage is the value of `Pallet`; the runtime's
//! other pallets, its clock, its randomness and the network are reached
//! through arguments, a `Randomness` source and the worker's actions.

use vstd::prelude::*;
pub use crate::aggregate::{BytesReceived, BytesSent, RedisFtAggregate};
pub use crate::chain::ValidationResult;
use crate::aggregate::validate;
use crate::chain::{
    append_validation_result, ensure_signed, same_account, validation_record, AccountId,
    DispatchError, Origin,
};
use crate::era::{era_at, get_current_era, is_validation_block, previous_era, TIME_START_MS, ERA_DURATION_MS, ERA_IN_BLOCKS};
use crate::query::{aggregate_query, bytes_received_field, bytes_received_query_url, bytes_sent_field, bytes_sent_query_url};
use crate::randomness::{choose_index, random_choice, Randomness};
use frame_support::traits::ConstU32;
use frame_support::BoundedVec;

verus! {

/// How many validators judge each CDN edge in an era.
pub const DDC_VALIDATORS_QUORUM_SIZE: usize = 3;

/// How a validator judges an edge.
#[derive(Clone, Copy, Debug, PartialEq, Eq, Structural)]
pub enum ValidationMethodKind {
    ProofOfDelivery,
}

/// One validator's assignment to an edge, with its verdict once given.
#[derive(Clone, Copy, Debug, PartialEq, Eq)]
pub struct Decision {
    pub decision: Option<bool>,
    pub method: ValidationMethodKind,
    pub validator: AccountId,
}

/// The tasks of the chain: each edge with the decisions of its validators,
/// in storage order.
pub type TaskList = Seq<(AccountId, Vec<Decision>)>;

/// No edge is listed twice.
pub open spec fn keys_distinct(t: TaskList) -> bool {
    forall|i: int, j: int| 0 <= i < t.len() && 0 <= j < t.len() && i != j ==> t[i].0 != t[j].0
}

/// The edge `key` has tasks.
pub open spec fn has_task(t: TaskList, key: AccountId) -> bool {
    exists|i: int| 0 <= i < t.len() && t[i].0 == key
}

/// Where the tasks of `key` stand.
pub open spec fn task_index(t: TaskList, key: AccountId) -> int {
    choose|i: int| 0 <= i < t.len() && t[i].0 == key
}

/// The decisions stored for edge `key`, if it has tasks.
pub open spec fn task_of(t: TaskList, key: AccountId) -> Option<Seq<Decision>> {
    if has_task(t, key) {
        Some(t[task_index(t, key)].1@)
    } else {
        None
    }
}

/// The tasks after storing `decisions` for `key`: an existing entry is
/// replaced in place, a new one goes last.
pub open spec fn with_task(t: TaskList, key: AccountId, decisions: Vec<Decision>) -> TaskList {
    if has_task(t, key) {
        t.update(task_index(t, key), (key, decisions))
    } else {
        t.push((key, decisions))
    }
}

/// A fresh assignment of an edge: a full quorum of decisions, each by one of
/// `validators`, by proof of delivery, with no verdict yet.
pub open spec fn fresh_assignment(ds: Seq<Decision>, validators: Seq<AccountId>) -> bool {
    &&& ds.len() == DDC_VALIDATORS_QUORUM_SIZE
    &&& forall|i: int|
        0 <= i < ds.len() ==> {
            &&& (#[trigger] ds[i]).decision is None
            &&& ds[i].method == ValidationMethodKind::ProofOfDelivery
            &&& validators.contains(ds[i].validator)
        }
}

/// The position a validator is taken from among `count` counted
/// validators: a random choice of the rejection sampling, or the first
/// position when the count is zero.
pub open spec fn drawn_index<R: Randomness>(count: u32, index: u32) -> bool {
    if count == 0 {
        index == 0
    } else {
        random_choice::<R>(count, index)
    }
}

/// Each decision in `ds` is by the validator at a drawn position, the
/// validators being counted in 32 bits.
pub open spec fn drawn_quorum<R: Randomness>(ds: Seq<Decision>, validators: Seq<AccountId>) -> bool {
    forall|i: int|
        #![trigger ds[i]]
        0 <= i < ds.len() ==> exists|index: u32|
            #[trigger] drawn_index::<R>(validators.len() as u32, index) && ds[i].validator
                == validators[index as int]
}

/// Every edge is listed once, with at most a quorum of decisions.
pub open spec fn storage_well_formed(t: TaskList) -> bool {
    &&& keys_distinct(t)
    &&& forall|i: int| 0 <= i < t.len() ==> (#[trigger] t[i]).1@.len() <= DDC_VALIDATORS_QUORUM_SIZE
}

/// The tasks after storing `quorums[i]` for `edges[i]`, one edge after the
/// other.
pub open spec fn with_tasks(t: TaskList, edges: Seq<AccountId>, quorums: Seq<Vec<Decision>>) -> TaskList
    decreases edges.len(),
{
    if edges.len() == 0 {
        t
    } else {
        with_task(
            with_tasks(t, edges.drop_last(), quorums.drop_last()),
            edges.last(),
            quorums[edges.len() - 1],
        )
    }
}

/// The era `era` has already been handled when the last managed era is at
/// least `era`.
pub open spec fn era_is_managed(last_managed_era: Option<u64>, era: int) -> bool {
    last_managed_era matches Some(last) && last >= era
}

/// Some decision in `ds` is by validator `v`.
pub open spec fn assigned_to(ds: Seq<Decision>, v: AccountId) -> bool {
    exists|i: int| 0 <= i < ds.len() && ds[i].validator == v
}

/// The tasks as plain values: each edge with the sequence of its decisions.
pub open spec fn task_view(t: TaskList) -> Seq<(AccountId, Seq<Decision>)> {
    t.map_values(|e: (AccountId, Vec<Decision>)| (e.0, e.1@))
}

/// The entries of `tv` whose decisions include one by `v`, in order.
pub open spec fn entries_assigned(tv: Seq<(AccountId, Seq<Decision>)>, v: AccountId) -> Seq<
    (AccountId, Seq<Decision>),
>
    decreases tv.len(),
{
    if tv.len() == 0 {
        Seq::empty()
    } else {
        let rest = entries_assigned(tv.drop_last(), v);
        if assigned_to(tv.last().1, v) {
            rest.push(tv.last())
        } else {
            rest
        }
    }
}

/// The edges whose decisions include one by `v`, in storage order.
pub open spec fn nodes_assigned(tv: Seq<(AccountId, Seq<Decision>)>, v: AccountId) -> Seq<AccountId> {
    entries_assigned(tv, v).map_values(|e: (AccountId, Seq<Decision>)| e.0)
}

/// Whether some decision in `ds` is by `v`.
fn has_decision_by(ds: &Vec<Decision>, v: &AccountId) -> (r: bool)
    ensures
        r == assigned_to(ds@, *v),
{
    let mut i: usize = 0;
    while i < ds.len()
        invariant
            i <= ds@.len(),
            forall|j: int| 0 <= j < i ==> ds@[j].validator != *v,
        decreases ds@.len() - i,
    {
        if same_account(&ds[i].validator, v) {
            return true;
        }
        i = i + 1;
    }
    false
}

/// `ds` after `signer` gives `verdict`: each of the signer's decisions
/// takes the verdict, by proof of delivery; the others stay as they are.
pub open spec fn with_verdict(ds: Seq<Decision>, signer: AccountId, verdict: bool) -> Seq<Decision> {
    Seq::new(
        ds.len(),
        |i: int|
            if ds[i].validator == signer {
                Decision {
                    decision: Some(verdict),
                    method: ValidationMethodKind::ProofOfDelivery,
                    validator: ds[i].validator,
                }
            } else {
                ds[i]
            },
    )
}

/// Giving the same verdict twice is giving it once.
pub proof fn law_verdict_is_idempotent(ds: Seq<Decision>, signer: AccountId, verdict: bool)
    ensures
        with_verdict(with_verdict(ds, signer, verdict), signer, verdict) == with_verdict(
            ds,
            signer,
            verdict,
        ),
{
    assert(with_verdict(with_verdict(ds, signer, verdict), signer, verdict) =~= with_verdict(
        ds,
        signer,
        verdict,
    ));
}

/// A verdict touches only the signer's own decisions: every other
/// validator's decision, and the validator of every decision, stay.
pub proof fn law_verdict_touches_only_signer(ds: Seq<Decision>, signer: AccountId, verdict: bool, i: int)
    requires
        0 <= i < ds.len(),
    ensures
        with_verdict(ds, signer, verdict).len() == ds.len(),
        with_verdict(ds, signer, verdict)[i].validator == ds[i].validator,
        ds[i].validator != signer ==> with_verdict(ds, signer, verdict)[i] == ds[i],
        ds[i].validator == signer ==> with_verdict(ds, signer, verdict)[i].decision == Some(verdict),
{
}

/// Gives `signer`'s verdict on its decisions in `decisions`.
pub fn record_verdict(decisions: &mut Vec<Decision>, signer: &AccountId, verdict: bool)
    ensures
        final(decisions)@ == with_verdict(old(decisions)@, *signer, verdict),
{
    let ghost ds = decisions@;
    let mut i: usize = 0;
    while i < decisions.len()
        invariant
            i <= decisions@.len(),
            decisions@.len() == ds.len(),
            old(decisions)@ == ds,
            forall|j: int| 0 <= j < i ==> decisions@[j] == with_verdict(ds, *signer, verdict)[j],
            forall|j: int| i <= j < ds.len() ==> decisions@[j] == ds[j],
        decreases ds.len() - i,
    {
        let decision = decisions[i];
        if same_account(&decision.validator, signer) {
            decisions.set(
                i,
                Decision {
                    decision: Some(verdict),
                    method: ValidationMethodKind::ProofOfDelivery,
                    validator: decision.validator,
                },
            );
        }
        i = i + 1;
    }
    assert(decisions@ =~= with_verdict(ds, *signer, verdict));
}

/// Reading back what was stored: after storing `decisions` for `key`,
/// `key` has exactly those decisions and every other edge keeps its own.
pub proof fn law_task_read_after_write(t: TaskList, key: AccountId, decisions: Vec<Decision>, other: AccountId)
    requires
        keys_distinct(t),
    ensures
        keys_distinct(with_task(t, key, decisions)),
        task_of(with_task(t, key, decisions), key) == Some(decisions@),
        other != key ==> task_of(with_task(t, key, decisions), other) == task_of(t, other),
{
    let n = with_task(t, key, decisions);
    if has_task(t, key) {
        let i = task_index(t, key);
        assert(n[i].0 == key);
        assert(has_task(n, key));
        assert(task_index(n, key) == i);
        if has_task(t, other) && other != key {
            let j = task_index(t, other);
            assert(n[j] == t[j]);
            assert(has_task(n, other));
            assert(task_index(n, other) == j);
        }
        if !has_task(t, other) && other != key {
            assert(!has_task(n, other)) by {
                if has_task(n, other) {
                    let j = task_index(n, other);
                    assert(t[j].0 == other);
                }
            }
        }
    } else {
        let i = t.len() as int;
        assert(n[i].0 == key);
        assert(has_task(n, key));
        assert(task_index(n, key) == i);
        if has_task(t, other) && other != key {
            let j = task_index(t, other);
            assert(n[j] == t[j]);
            assert(has_task(n, other));
            assert(task_index(n, other) == j);
        }
        if !has_task(t, other) && other != key {
            assert(!has_task(n, other)) by {
                if has_task(n, other) {
                    let j = task_index(n, other);
                    assert(t[j].0 == other);
                }
            }
        }
    }
}

/// An edge is fetched for `v` exactly when it has tasks and one of its
/// decisions is by `v`.
pub proof fn law_fetched_nodes_are_assigned(tv: Seq<(AccountId, Seq<Decision>)>, v: AccountId, node: AccountId)
    ensures
        nodes_assigned(tv, v).contains(node) <==> exists|i: int|
            0 <= i < tv.len() && tv[i].0 == node && assigned_to(tv[i].1, v),
    decreases tv.len(),
{
    let f = |e: (AccountId, Seq<Decision>)| e.0;
    if tv.len() > 0 {
        let init = tv.drop_last();
        let last = tv.last();
        law_fetched_nodes_are_assigned(init, v, node);
        let m = entries_assigned(init, v).map_values(f);
        let n = nodes_assigned(tv, v);
        if assigned_to(last.1, v) {
            assert(n =~= m.push(last.0));
        } else {
            assert(n =~= m);
        }
        if exists|i: int| 0 <= i < tv.len() && tv[i].0 == node && assigned_to(tv[i].1, v) {
            let i = choose|i: int| 0 <= i < tv.len() && tv[i].0 == node && assigned_to(tv[i].1, v);
            if i < tv.len() - 1 {
                assert(init[i] == tv[i]);
                let k = choose|k: int| 0 <= k < m.len() && m[k] == node;
                assert(n[k] == node);
            } else {
                assert(n[n.len() - 1] == node);
            }
        }
        if n.contains(node) {
            let k = choose|k: int| 0 <= k < n.len() && n[k] == node;
            if k < m.len() {
                assert(m[k] == node);
                let i = choose|i: int| 0 <= i < init.len() && init[i].0 == node && assigned_to(init[i].1, v);
                assert(tv[i] == init[i]);
            } else {
                assert(tv[tv.len() - 1] == last);
            }
        }
    }
}

/// An era is managed exactly when it is at or before the last managed era:
/// every later era, however far ahead, still has to be handled, and with no
/// era managed yet none is.
pub proof fn law_managed_means_not_later(last: u64, era: int)
    ensures
        era_is_managed(Some(last), era) <==> era <= last,
        !era_is_managed(None, era),
{
}

/// A validator is assigned to an edge exactly when a decision at some
/// position of the edge's quorum is by it.
pub proof fn law_assigned_to_any_position(ds: Seq<Decision>, v: AccountId, i: int)
    ensures
        0 <= i < ds.len() && ds[i].validator == v ==> assigned_to(ds, v),
        assigned_to(ds, v) ==> exists|j: int| 0 <= j < ds.len() && ds[j].validator == v,
{
}

/// An edge is fetched for `v` as soon as any decision of its quorum, at any
/// position, is by `v`.
pub proof fn law_fetched_whenever_any_decision(tv: Seq<(AccountId, Seq<Decision>)>, v: AccountId, i: int, j: int)
    requires
        0 <= i < tv.len(),
        0 <= j < tv[i].1.len(),
        tv[i].1[j].validator == v,
    ensures
        nodes_assigned(tv, v).contains(tv[i].0),
{
    law_fetched_nodes_are_assigned(tv, v, tv[i].0);
}

/// What a proof-of-delivery round asks for next.
pub enum DeliveryAction {
    /// Fetch the traffic figures of `cdn_node` for `era`.
    FetchData { era: u64, cdn_node: AccountId },
    /// Every assigned edge has been judged.
    Finished,
}

/// A proof-of-delivery round of one validator: the edges it is assigned to,
/// judged one after another as their traffic figures arrive.
pub struct DeliveryRound {
    signer: AccountId,
    era: u64,
    pending: Vec<(AccountId, Vec<Decision>)>,
    position: usize,
}

impl DeliveryRound {
    #[verifier::type_invariant]
    spec fn position_in_range(self) -> bool {
        self.position <= self.pending@.len()
    }

    /// The validator whose round this is.
    pub closed spec fn signer_of(self) -> AccountId {
        self.signer
    }

    /// The era being judged.
    pub closed spec fn era_of(self) -> u64 {
        self.era
    }

    /// The edges of the round with their stored decisions, in order.
    pub closed spec fn pending_view(self) -> Seq<(AccountId, Seq<Decision>)> {
        task_view(self.pending@)
    }

    /// How many edges have been judged.
    pub closed spec fn position_of(self) -> int {
        self.position as int
    }

    /// The next edge to fetch figures for, or `Finished`.
    pub fn next_action(&self) -> (a: DeliveryAction)
        ensures
            self.position_of() < self.pending_view().len() ==> a == (DeliveryAction::FetchData {
                era: self.era_of(),
                cdn_node: self.pending_view()[self.position_of()].0,
            }),
            self.position_of() >= self.pending_view().len() ==> a == DeliveryAction::Finished,
    {
        proof {
            use_type_invariant(self);
        }
        if self.position < self.pending.len() {
            DeliveryAction::FetchData { era: self.era, cdn_node: self.pending[self.position].0 }
        } else {
            DeliveryAction::Finished
        }
    }

    /// Judges the current edge from its figures: the signer's decisions on
    /// it take the verdict `validate(bytes_sent, bytes_received)`. The
    /// judged decisions are returned; like the pallet's own call, the round
    /// writes nothing to storage.
    pub fn record(&mut self, bytes_sent: &BytesSent, bytes_received: &BytesReceived) -> (updated: Vec<Decision>)
        requires
            old(self).position_of() < old(self).pending_view().len(),
        ensures
            updated@ == with_verdict(
                old(self).pending_view()[old(self).position_of()].1,
                old(self).signer_of(),
                bytes_sent.sum == bytes_received.sum,
            ),
            final(self).position_of() == old(self).position_of() + 1,
            final(self).pending_view() == old(self).pending_view(),
            final(self).signer_of() == old(self).signer_of(),
            final(self).era_of() == old(self).era_of(),
    {
        proof {
            use_type_invariant(&*self);
        }
        let len = self.pending.len();
        assert(self.position < len);
        let verdict = validate(bytes_sent, bytes_received);
        let mut decisions = copy_decisions(&self.pending[self.position].1);
        record_verdict(&mut decisions, &self.signer, verdict);
        self.position = self.position + 1;
        decisions
    }
}

/// A copy of `decisions`.
fn copy_decisions(decisions: &Vec<Decision>) -> (r: Vec<Decision>)
    ensures
        r@ == decisions@,
{
    let mut r: Vec<Decision> = Vec::new();
    let mut i: usize = 0;
    while i < decisions.len()
        invariant
            i <= decisions.len(),
            r@ == decisions@.take(i as int),
        decreases decisions.len() - i,
    {
        r.push(decisions[i]);
        i = i + 1;
        assert(r@ =~= decisions@.take(i as int));
    }
    assert(decisions@.take(i as int) =~= decisions@);
    r
}

/// Stores `decisions` for `key`, replacing the entry of `key` if there is
/// one.
fn insert_task(tasks: &mut Vec<(AccountId, Vec<Decision>)>, key: AccountId, decisions: Vec<Decision>)
    requires
        keys_distinct(old(tasks)@),
    ensures
        final(tasks)@ == with_task(old(tasks)@, key, decisions),
{
    let ghost t = tasks@;
    let mut i: usize = 0;
    while i < tasks.len()
        invariant
            tasks@ == t,
            old(tasks)@ == t,
            keys_distinct(t),
            i <= t.len(),
            forall|j: int| 0 <= j < i ==> t[j].0 != key,
        decreases t.len() - i,
    {
        if same_account(&tasks[i].0, &key) {
            proof {
                assert(has_task(t, key));
                let k = task_index(t, key);
                assert(k == i);
            }
            tasks.set(i, (key, decisions));
            assert(tasks@ == t.update(task_index(t, key), (key, decisions)));
            return;
        }
        i = i + 1;
    }
    proof {
        assert(!has_task(t, key));
    }
    tasks.push((key, decisions));
}

/// The bounded vector of `frame_support` (from `bounded-collections`).
#[verifier::external_type_specification]
#[verifier::external_body]
#[verifier::reject_recursive_types(T)]
#[verifier::reject_recursive_types(S)]
pub struct ExBoundedVec<T, S>(BoundedVec<T, S>);

/// The constant `u32` getter of `frame_support` (from `bounded-collections`).
#[verifier::external_type_specification]
#[verifier::external_body]
pub struct ExConstU32<const N: u32>(ConstU32<N>);

/// The decisions that a quorum vector holds, in order.
pub uninterp spec fn quorum_contents(v: BoundedVec<Decision, ConstU32<3>>) -> Seq<Decision>;

/// An empty quorum vector: `BoundedVec::default()`, whose contents are an
/// empty `Vec`.
#[verifier::external_body]
fn new_quorum() -> (r: BoundedVec<Decision, ConstU32<3>>)
    ensures
        quorum_contents(r) == Seq::<Decision>::empty(),
{
    Default::default()
}

/// `BoundedVec::is_full`: whether the vector holds as many items as its
/// bound, here 3.
#[verifier::external_body]
fn quorum_is_full(v: &BoundedVec<Decision, ConstU32<3>>) -> (r: bool)
    ensures
        r == (quorum_contents(*v).len() >= 3),
{
    v.is_full()
}

/// `BoundedVec::try_push`: below the bound (3) the item is appended and the
/// call succeeds; at the bound the vector is unchanged and the item comes
/// back as the error.
#[verifier::external_body]
fn quorum_try_push(v: &mut BoundedVec<Decision, ConstU32<3>>, element: Decision) -> (r: Result<(), Decision>)
    ensures
        r is Ok <==> quorum_contents(*old(v)).len() < 3,
        r is Ok ==> quorum_contents(*final(v)) == quorum_contents(*old(v)).push(element),
        r matches Err(e) ==> e == element,
        r is Err ==> quorum_contents(*final(v)) == quorum_contents(*old(v)),
{
    v.try_push(element)
}

/// `BoundedVec::into_inner`: the vector of the items, in order.
#[verifier::external_body]
fn quorum_into_inner(v: BoundedVec<Decision, ConstU32<3>>) -> (r: Vec<Decision>)
    ensures
        r@ == quorum_contents(v),
{
    v.into_inner()
}

/// A full quorum of fresh decisions, each by a validator chosen at random
/// among `validators`.
fn assign_quorum<R: Randomness>(validators: &Vec<AccountId>, count: u32) -> (r: (Vec<Decision>, Ghost<nat>))
    requires
        validators@.len() > 0,
        count <= validators@.len(),
        count == validators@.len() as u32,
    ensures
        fresh_assignment(r.0@, validators@),
        drawn_quorum::<R>(r.0@, validators@),
        r.1@ == DDC_VALIDATORS_QUORUM_SIZE,
{
    let mut decisions = new_quorum();
    let ghost mut draws: nat = 0;
    while !quorum_is_full(&decisions)
        invariant
            validators@.len() > 0,
            count <= validators@.len(),
            count == validators@.len() as u32,
            quorum_contents(decisions).len() <= DDC_VALIDATORS_QUORUM_SIZE,
            forall|i: int|
                0 <= i < quorum_contents(decisions).len() ==> {
                    &&& (#[trigger] quorum_contents(decisions)[i]).decision is None
                    &&& quorum_contents(decisions)[i].method == ValidationMethodKind::ProofOfDelivery
                    &&& validators@.contains(quorum_contents(decisions)[i].validator)
                },
            drawn_quorum::<R>(quorum_contents(decisions), validators@),
            draws == quorum_contents(decisions).len(),
        decreases DDC_VALIDATORS_QUORUM_SIZE - quorum_contents(decisions).len(),
    {
        let index = match choose_index::<R>(count) {
            Some(i) => i,
            None => 0,
        };
        proof {
            draws = draws + 1;
        }
        let validator = validators[index as usize];
        assert(validators@[index as int] == validator);
        assert(drawn_index::<R>(count, index));
        let ghost before = quorum_contents(decisions);
        let assignment = Decision {
            decision: None,
            method: ValidationMethodKind::ProofOfDelivery,
            validator,
        };
        match quorum_try_push(&mut decisions, assignment) {
            Ok(()) => {},
            Err(_) => {
                assert(false);
            },
        }
        let ghost after = quorum_contents(decisions);
        assert forall|i: int| #![trigger after[i]] 0 <= i < after.len() implies exists|j: u32|
            #[trigger] drawn_index::<R>(validators@.len() as u32, j) && after[i].validator
                == validators@[j as int] by {
            if i < before.len() {
                assert(after[i] == before[i]);
            } else {
                assert(drawn_index::<R>(validators@.len() as u32, index));
            }
        }
        assert forall|i: int| 0 <= i < after.len() implies {
            &&& (#[trigger] after[i]).decision is None
            &&& after[i].method == ValidationMethodKind::ProofOfDelivery
            &&& validators@.contains(after[i].validator)
        } by {
            if i < before.len() {
                assert(after[i] == before[i]);
            }
        }
    }
    assert(quorum_contents(decisions).len() == DDC_VALIDATORS_QUORUM_SIZE);
    (quorum_into_inner(decisions), Ghost(draws))
}

/// The on-chain storage of the pallet.
pub struct Pallet {
    tasks: Vec<(AccountId, Vec<Decision>)>,
    last_managed_era: Option<u64>,
    validation_results: Vec<ValidationResult>,
    /// How many random validator indices the last run of the block hook
    /// drew; not stored on chain.
    index_draws: Ghost<nat>,
}

impl Pallet {
    /// Every edge is listed once, with at most a quorum of decisions.
    #[verifier::type_invariant]
    spec fn well_formed(self) -> bool {
        storage_well_formed(self.tasks@)
    }

    /// The stored tasks, edge by edge in storage order.
    pub closed spec fn task_list(self) -> TaskList {
        self.tasks@
    }

    /// How many random validator indices (`choose_index` calls) the last
    /// run of the block hook drew.
    pub closed spec fn index_draws(self) -> nat {
        self.index_draws@
    }

    /// The last era for which validators were assigned.
    pub closed spec fn managed_era(self) -> Option<u64> {
        self.last_managed_era
    }

    /// The stored validation results, oldest first.
    pub closed spec fn results(self) -> Seq<ValidationResult> {
        self.validation_results@
    }

    /// Empty storage, as at genesis.
    pub fn new() -> (r: Pallet)
        ensures
            r.task_list().len() == 0,
            r.managed_era() is None,
            r.results().len() == 0,
    {
        Pallet {
            tasks: Vec::new(),
            last_managed_era: None,
            validation_results: Vec::new(),
            index_draws: Ghost(0),
        }
    }

    /// Storage as it was read from the chain: `None` unless every edge is
    /// listed once with at most a quorum of decisions.
    pub fn from_storage(
        tasks: Vec<(AccountId, Vec<Decision>)>,
        last_managed_era: Option<u64>,
        validation_results: Vec<ValidationResult>,
    ) -> (r: Option<Pallet>)
        ensures
            r is Some <==> storage_well_formed(tasks@),
            r matches Some(p) ==> {
                &&& p.task_list() == tasks@
                &&& p.managed_era() == last_managed_era
                &&& p.results() == validation_results@
            },
    {
        let mut i: usize = 0;
        while i < tasks.len()
            invariant
                i <= tasks@.len(),
                forall|a: int, b: int| 0 <= a < i && 0 <= b < tasks@.len() && a != b ==> tasks@[a].0 != tasks@[b].0,
                forall|a: int| 0 <= a < i ==> (#[trigger] tasks@[a]).1@.len() <= DDC_VALIDATORS_QUORUM_SIZE,
            decreases tasks@.len() - i,
        {
            if tasks[i].1.len() > DDC_VALIDATORS_QUORUM_SIZE {
                return None;
            }
            let mut j: usize = 0;
            while j < tasks.len()
                invariant
                    i < tasks@.len(),
                    j <= tasks@.len(),
                    forall|b: int| 0 <= b < j && b != i ==> tasks@[i as int].0 != tasks@[b].0,
                decreases tasks@.len() - j,
            {
                if j != i && same_account(&tasks[i].0, &tasks[j].0) {
                    return None;
                }
                j = j + 1;
            }
            i = i + 1;
        }
        Some(Pallet { tasks, last_managed_era, validation_results, index_draws: Ghost(0) })
    }

    /// The storage, to be written back to the chain.
    pub fn into_storage(self) -> (r: (Vec<(AccountId, Vec<Decision>)>, Option<u64>, Vec<ValidationResult>))
        ensures
            r.0@ == self.task_list(),
            r.1 == self.managed_era(),
            r.2@ == self.results(),
            storage_well_formed(r.0@),
    {
        proof {
            use_type_invariant(&self);
        }
        (self.tasks, self.last_managed_era, self.validation_results)
    }

    /// The decisions stored for edge `edge`.
    pub fn tasks(&self, edge: &AccountId) -> (r: Option<Vec<Decision>>)
        ensures
            match r {
                Some(ds) => task_of(self.task_list(), *edge) == Some(ds@),
                None => task_of(self.task_list(), *edge) is None,
            },
    {
        proof {
            use_type_invariant(self);
        }
        let mut i: usize = 0;
        while i < self.tasks.len()
            invariant
                i <= self.tasks@.len(),
                keys_distinct(self.tasks@),
                forall|j: int| 0 <= j < i ==> self.tasks@[j].0 != *edge,
            decreases self.tasks@.len() - i,
        {
            if same_account(&self.tasks[i].0, edge) {
                proof {
                    assert(has_task(self.tasks@, *edge));
                    assert(task_index(self.tasks@, *edge) == i);
                }
                return Some(copy_decisions(&self.tasks[i].1));
            }
            i = i + 1;
        }
        None
    }


    /// The block hook: at most once per era, gives every edge in `edges` a
    /// fresh quorum of validators chosen at random among `validators`, and
    /// marks the current era (at `now_ms`) as managed. Returns the weight
    /// used, zero.
    pub fn on_initialize<R: Randomness>(
        &mut self,
        now_ms: u64,
        validators: &Vec<AccountId>,
        edges: &Vec<AccountId>,
    ) -> (weight: u64)
        requires
            now_ms >= TIME_START_MS,
            !era_is_managed(old(self).managed_era(), era_at(now_ms)) && edges@.len() > 0
                ==> validators@.len() > 0,
        ensures
            weight == 0,
            final(self).results() == old(self).results(),
            era_is_managed(old(self).managed_era(), era_at(now_ms)) ==> {
                &&& final(self).task_list() == old(self).task_list()
                &&& final(self).managed_era() == old(self).managed_era()
                &&& final(self).index_draws() == 0
            },
            !era_is_managed(old(self).managed_era(), era_at(now_ms)) ==> {
                &&& final(self).managed_era() == Some(era_at(now_ms) as u64)
                &&& final(self).index_draws() == DDC_VALIDATORS_QUORUM_SIZE * edges@.len()
                &&& exists|quorums: Seq<Vec<Decision>>|
                    {
                        &&& quorums.len() == edges@.len()
                        &&& forall|i: int|
                            0 <= i < quorums.len() ==> fresh_assignment(
                                (#[trigger] quorums[i])@,
                                validators@,
                            ) && drawn_quorum::<R>(quorums[i]@, validators@)
                        &&& final(self).task_list() == with_tasks(
                            old(self).task_list(),
                            edges@,
                            quorums,
                        )
                    }
                &&& forall|i: int|
                    0 <= i < edges@.len() ==> (task_of(final(self).task_list(), #[trigger] edges@[i])
                        matches Some(ds) && fresh_assignment(ds, validators@) && drawn_quorum::<R>(ds, validators@))
                &&& forall|k: AccountId|
                    !edges@.contains(k) ==> #[trigger] task_of(final(self).task_list(), k)
                        == task_of(old(self).task_list(), k)
            },
    {
        proof {
            use_type_invariant(&*self);
        }
        let era = get_current_era(now_ms);
        if let Some(last) = self.last_managed_era {
            if last >= era {
                self.index_draws = Ghost(0);
                return 0;
            }
        }
        self.last_managed_era = Some(era);
        // The validator count in 32 bits (truncated); it never exceeds the
        // true count, so every index drawn below it names a validator.
        let len = validators.len();
        let count = #[verifier::truncate] (len as u32);
        assert(count <= len) by (bit_vector)
            requires
                count == #[verifier::truncate] (len as u32),
        ;
        let mut tasks: Vec<(AccountId, Vec<Decision>)> = Vec::new();
        std::mem::swap(&mut tasks, &mut self.tasks);
        let ghost old_tasks = tasks@;
        let ghost mut quorums: Seq<Vec<Decision>> = Seq::empty();
        let ghost mut draws: nat = 0;
        let mut e: usize = 0;
        while e < edges.len()
            invariant
                e <= edges@.len(),
                edges@.len() > 0 ==> validators@.len() > 0,
                count <= validators@.len(),
                keys_distinct(tasks@),
                forall|i: int|
                    0 <= i < tasks@.len() ==> (#[trigger] tasks@[i]).1@.len()
                        <= DDC_VALIDATORS_QUORUM_SIZE,
                forall|i: int|
                    0 <= i < e ==> (task_of(tasks@, #[trigger] edges@[i]) matches Some(ds)
                        && fresh_assignment(ds, validators@) && drawn_quorum::<R>(ds, validators@)),
                forall|k: AccountId|
                    !edges@.take(e as int).contains(k) ==> #[trigger] task_of(tasks@, k)
                        == task_of(old_tasks, k),
                quorums.len() == e,
                forall|i: int|
                    0 <= i < e ==> fresh_assignment((#[trigger] quorums[i])@, validators@)
                        && drawn_quorum::<R>(quorums[i]@, validators@),
                count == validators@.len() as u32,
                tasks@ == with_tasks(old_tasks, edges@.take(e as int), quorums),
                draws == DDC_VALIDATORS_QUORUM_SIZE * e,
            decreases edges@.len() - e,
        {
            let edge = edges[e];
            let (decisions, quorum_draws) = assign_quorum::<R>(validators, count);
            proof {
                draws = draws + quorum_draws@;
            }
            let ghost before = tasks@;
            let ghost ds = decisions;
            insert_task(&mut tasks, edge, decisions);
            proof {
                let next = quorums.push(ds);
                assert(edges@.take(e + 1).drop_last() =~= edges@.take(e as int));
                assert(next.drop_last() =~= quorums);
                assert(edges@.take(e + 1).last() == edge);
                assert(tasks@ == with_tasks(old_tasks, edges@.take(e + 1), next));
                quorums = next;
                law_task_read_after_write(before, edge, ds, edge);
                assert forall|i: int| 0 <= i < tasks@.len() implies (#[trigger] tasks@[i]).1@.len()
                    <= DDC_VALIDATORS_QUORUM_SIZE by {
                    if has_task(before, edge) {
                        if i != task_index(before, edge) {
                            assert(tasks@[i] == before[i]);
                        }
                    } else {
                        if i < before.len() {
                            assert(tasks@[i] == before[i]);
                        }
                    }
                }
                assert forall|i: int| 0 <= i < e + 1 implies (task_of(tasks@, #[trigger] edges@[i])
                    matches Some(d) && fresh_assignment(d, validators@) && drawn_quorum::<R>(d, validators@)) by {
                    if edges@[i] != edge {
                        law_task_read_after_write(before, edge, ds, edges@[i]);
                    }
                }
                assert forall|k: AccountId| !edges@.take(e + 1).contains(k) implies #[trigger] task_of(
                    tasks@,
                    k,
                ) == task_of(old_tasks, k) by {
                    assert(edges@.take(e + 1)[e as int] == edge);
                    if edges@.take(e as int).contains(k) {
                        let j = choose|j: int| 0 <= j < e && edges@.take(e as int)[j] == k;
                        assert(edges@.take(e + 1)[j] == k);
                    }
                    law_task_read_after_write(before, edge, ds, k);
                }
            }
            e = e + 1;
        }
        proof {
            assert(edges@.take(edges@.len() as int) =~= edges@);
            assert(forall|i: int|
                0 <= i < quorums.len() ==> fresh_assignment((#[trigger] quorums[i])@, validators@)
                    && drawn_quorum::<R>(quorums[i]@, validators@));
        }
        self.tasks = tasks;
        self.index_draws = Ghost(draws);
        0
    }


    /// The CDN edges that `validator` is assigned to, in storage order.
    pub fn fetch_tasks(&self, validator: &AccountId) -> (nodes: Vec<AccountId>)
        ensures
            nodes@ == nodes_assigned(task_view(self.task_list()), *validator),
    {
        let ghost tv = task_view(self.tasks@);
        let mut nodes: Vec<AccountId> = Vec::new();
        let mut i: usize = 0;
        while i < self.tasks.len()
            invariant
                i <= self.tasks@.len(),
                tv == task_view(self.tasks@),
                nodes@ == nodes_assigned(tv.take(i as int), *validator),
            decreases self.tasks@.len() - i,
        {
            let ghost prefix = tv.take(i as int);
            proof {
                assert(tv.take(i + 1).drop_last() =~= prefix);
                assert(tv.take(i + 1).last() == (self.tasks@[i as int].0, self.tasks@[i as int].1@));
            }
            if has_decision_by(&self.tasks[i].1, validator) {
                nodes.push(self.tasks[i].0);
                proof {
                    let f = |e: (AccountId, Seq<Decision>)| e.0;
                    let before = entries_assigned(prefix, *validator);
                    assert(entries_assigned(tv.take(i + 1), *validator) == before.push(
                        tv.take(i + 1).last(),
                    ));
                    assert(before.push(tv.take(i + 1).last()).map_values(f) =~= before.map_values(
                        f,
                    ).push(self.tasks@[i as int].0));
                }
            }
            i = i + 1;
        }
        assert(tv.take(i as int) =~= tv);
        nodes
    }

    /// The entries of the edges that `validator` is assigned to, in storage
    /// order, as copies.
    fn collect_assigned(&self, validator: &AccountId) -> (entries: Vec<(AccountId, Vec<Decision>)>)
        ensures
            task_view(entries@) == entries_assigned(task_view(self.task_list()), *validator),
    {
        let ghost tv = task_view(self.tasks@);
        let mut entries: Vec<(AccountId, Vec<Decision>)> = Vec::new();
        let mut i: usize = 0;
        while i < self.tasks.len()
            invariant
                i <= self.tasks@.len(),
                tv == task_view(self.tasks@),
                task_view(entries@) == entries_assigned(tv.take(i as int), *validator),
            decreases self.tasks@.len() - i,
        {
            let ghost prefix = tv.take(i as int);
            proof {
                assert(tv.take(i + 1).drop_last() =~= prefix);
                assert(tv.take(i + 1).last() == (self.tasks@[i as int].0, self.tasks@[i as int].1@));
            }
            if has_decision_by(&self.tasks[i].1, validator) {
                let ghost old_entries = entries@;
                let copy = copy_decisions(&self.tasks[i].1);
                entries.push((self.tasks[i].0, copy));
                proof {
                    assert(task_view(entries@) =~= task_view(old_entries).push(
                        tv.take(i + 1).last(),
                    ));
                }
            }
            i = i + 1;
        }
        assert(tv.take(i as int) =~= tv);
        entries
    }


    /// The dispatchable `proof_of_delivery`: a signed validator starts a
    /// round over the edges it is assigned to, for `era`. Storage is not
    /// changed.
    pub fn proof_of_delivery(&self, origin: Origin, era: u64) -> (r: Result<DeliveryRound, DispatchError>)
        ensures
            match origin {
                Origin::Signed(signer) => r matches Ok(round) && {
                    &&& round.signer_of() == signer
                    &&& round.era_of() == era
                    &&& round.position_of() == 0
                    &&& round.pending_view() == entries_assigned(task_view(self.task_list()), signer)
                },
                _ => r matches Err(e) && e == DispatchError::BadOrigin,
            },
    {
        let signer = match ensure_signed(origin) {
            Ok(who) => who,
            Err(e) => {
                return Err(e);
            },
        };
        let pending = self.collect_assigned(&signer);
        Ok(DeliveryRound { signer, era, pending, position: 0 })
    }

    /// The last era for which validators were assigned.
    pub fn last_managed_era(&self) -> (r: Option<u64>)
        ensures
            r == self.managed_era(),
    {
        self.last_managed_era
    }

    /// The stored validation results, oldest first.
    pub fn validation_results(&self) -> (r: &Vec<ValidationResult>)
        ensures
            r@ == self.results(),
    {
        &self.validation_results
    }

    /// Records a validator's verdict on a CDN node for an era. The call must
    /// be signed; the signer is recorded as the author of the verdict.
    pub fn save_validated_data(
        &mut self,
        origin: Origin,
        val_res: bool,
        cdn_node_pub_key: String,
        era: String,
    ) -> (r: Result<(), DispatchError>)
        ensures
            final(self).task_list() == old(self).task_list(),
            final(self).managed_era() == old(self).managed_era(),
            match origin {
                Origin::Signed(signer) => {
                    &&& r is Ok
                    &&& final(self).results().len() == old(self).results().len() + 1
                    &&& final(self).results().take(old(self).results().len() as int)
                        == old(self).results()
                    &&& validation_record(
                        final(self).results().last(),
                        signer,
                        val_res,
                        cdn_node_pub_key@,
                        era@,
                    )
                },
                _ => r == Err::<(), DispatchError>(DispatchError::BadOrigin) && final(self).results()
                    == old(self).results(),
            },
    {
        proof {
            use_type_invariant(&*self);
        }
        let mut results: Vec<ValidationResult> = Vec::new();
        std::mem::swap(&mut results, &mut self.validation_results);
        let r = append_validation_result(&mut results, origin, val_res, cdn_node_pub_key, era);
        self.validation_results = results;
        r
    }
}

/// An era is handled once: after the hook has run for the era at `now_ms`,
/// the hook at any instant of that era or an earlier one finds its era
/// managed, and changes nothing.
pub proof fn law_assignment_once_per_era(now_ms: u64, later_ms: u64)
    requires
        TIME_START_MS <= later_ms,
        TIME_START_MS <= now_ms,
        era_at(later_ms) <= era_at(now_ms),
    ensures
        era_is_managed(Some(era_at(now_ms) as u64), era_at(later_ms)),
{
}

/// The address of the query for the bytes that `cdn_node` sent in `era`;
/// `cdn_node` is the node's account in the text form the runtime prints.
pub fn get_bytes_sent_query_url(era: u64, cdn_node: &str) -> (r: String)
    ensures
        r@ == aggregate_query(era, cdn_node@, bytes_sent_field()),
{
    bytes_sent_query_url(era, cdn_node)
}

/// The address of the query for the bytes that clients received from
/// `cdn_node` in `era`; `cdn_node` is as for the bytes sent.
pub fn get_bytes_received_query_url(era: u64, cdn_node: &str) -> (r: String)
    ensures
        r@ == aggregate_query(era, cdn_node@, bytes_received_field()),
{
    bytes_received_query_url(era, cdn_node)
}

/// The calls of the pallet that a signed transaction can carry.
#[allow(inconsistent_fields)]
pub enum Call {
    SaveValidatedData { val_res: bool, cdn_node_pub_key: String, era: String },
    ProofOfDelivery { era: u64 },
}

/// Why an offchain worker run failed.
#[derive(Clone, Copy, Debug, PartialEq, Eq, Structural)]
pub enum WorkerError {
    /// No account submitted the transaction, or its submission failed.
    SubmissionFailed,
}

impl WorkerError {
    /// The message the worker logs for this error.
    pub fn message(&self) -> (m: &'static str)
        ensures
            m@ == "Error while submitting proof of delivery TX"@,
    {
        "Error while submitting proof of delivery TX"
    }
}

/// Where an offchain worker run stands.
#[derive(Clone, Copy, Debug, PartialEq, Eq, Structural)]
pub enum WorkerPhase {
    AwaitingSigner,
    AwaitingClock,
    AwaitingSubmission,
    Finished,
}

/// What an offchain worker run asks its host to do next.
pub enum WorkerAction {
    /// Look for a local account that can sign; report whether there is one.
    LookUpSigner,
    /// Read the offchain clock (Unix milliseconds).
    ReadClock,
    /// Submit `call` in a signed transaction; report the outcome.
    Submit { call: Call },
    /// The run is over, with this result.
    Stop { result: Result<(), WorkerError> },
}

/// One run of the offchain worker for one block: on every
/// `ERA_IN_BLOCKS`-th block, a validator with a local signing account asks
/// the chain for proofs of delivery of the previous era.
pub struct OffchainRun {
    phase: WorkerPhase,
}

impl OffchainRun {
    /// Where the run stands.
    pub closed spec fn phase(self) -> WorkerPhase {
        self.phase
    }

    /// Starts the run for block `block_number`: blocks that do not open a
    /// validation round end it at once, successfully.
    pub fn offchain_worker_main(block_number: u64) -> (r: (OffchainRun, WorkerAction))
        ensures
            block_number % (ERA_IN_BLOCKS as u64) == 0 ==> {
                &&& r.1 is LookUpSigner
                &&& r.0.phase() == WorkerPhase::AwaitingSigner
            },
            block_number % (ERA_IN_BLOCKS as u64) != 0 ==> {
                &&& r.1 == (WorkerAction::Stop { result: Ok(()) })
                &&& r.0.phase() == WorkerPhase::Finished
            },
    {
        if !is_validation_block(block_number) {
            return (OffchainRun { phase: WorkerPhase::Finished }, WorkerAction::Stop { result: Ok(()) });
        }
        (OffchainRun { phase: WorkerPhase::AwaitingSigner }, WorkerAction::LookUpSigner)
    }

    /// Whether a local account can sign. Without one the run ends
    /// successfully, doing nothing.
    pub fn on_signer(&mut self, available: bool) -> (a: WorkerAction)
        requires
            old(self).phase() == WorkerPhase::AwaitingSigner,
        ensures
            available ==> a is ReadClock && final(self).phase() == WorkerPhase::AwaitingClock,
            !available ==> a == (WorkerAction::Stop { result: Ok(()) }) && final(self).phase()
                == WorkerPhase::Finished,
    {
        if !available {
            self.phase = WorkerPhase::Finished;
            return WorkerAction::Stop { result: Ok(()) };
        }
        self.phase = WorkerPhase::AwaitingClock;
        WorkerAction::ReadClock
    }

    /// The clock reads `now_ms`: the run submits `proof_of_delivery` for the
    /// era before the current one.
    pub fn on_clock(&mut self, now_ms: u64) -> (a: WorkerAction)
        requires
            old(self).phase() == WorkerPhase::AwaitingClock,
            now_ms >= TIME_START_MS + ERA_DURATION_MS,
        ensures
            a matches WorkerAction::Submit { call: Call::ProofOfDelivery { era } } && era
                == era_at(now_ms) - 1,
            final(self).phase() == WorkerPhase::AwaitingSubmission,
    {
        let era = previous_era(now_ms);
        self.phase = WorkerPhase::AwaitingSubmission;
        WorkerAction::Submit { call: Call::ProofOfDelivery { era } }
    }

    /// The submission's outcome: `None` when no account sent the
    /// transaction, else whether sending it succeeded. Only a successful
    /// submission ends the run successfully.
    pub fn on_submitted(&mut self, outcome: Option<Result<(), ()>>) -> (a: WorkerAction)
        requires
            old(self).phase() == WorkerPhase::AwaitingSubmission,
        ensures
            outcome matches Some(Ok(_)) ==> a == (WorkerAction::Stop { result: Ok(()) }),
            !(outcome matches Some(Ok(_))) ==> a == (WorkerAction::Stop {
                result: Err(WorkerError::SubmissionFailed),
            }),
            final(self).phase() == WorkerPhase::Finished,
    {
        self.phase = WorkerPhase::Finished;
        match outcome {
            Some(Ok(_)) => WorkerAction::Stop { result: Ok(()) },
            _ => WorkerAction::Stop { result: Err(WorkerError::SubmissionFailed) },
        }
    }
}

} // verus!
