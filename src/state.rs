use vstd::prelude::*;
use crate::machine::{cancellable, is_terminal, resolution, stage, valid_transition};
use crate::model::{
    AgreementView, DisputeDecision, EscrowError, EscrowStatus, MpesaTransaction, ReleaseMethod,
    Role, SettlementEffect, SettlementStatus, TransactionView,
};

verus! {

/// The abstract state of the escrow service: the two privileged identities, the
/// next id to hand out, and the live agreements in the order they were created.
pub struct ServiceState {
    pub admin: Seq<u8>,
    pub oracle: Seq<u8>,
    pub next_id: u64,
    pub escrows: Seq<AgreementView>,
}

/// No two settlements of one agreement share an external transaction id.
pub open spec fn distinct_tx_ids(txs: Seq<TransactionView>) -> bool {
    forall|k: int, l: int|
        0 <= k < txs.len() && 0 <= l < txs.len() && k != l ==> #[trigger] txs[k].transaction_id
            != #[trigger] txs[l].transaction_id
}

/// Whether a settlement with this external id is already recorded.
pub open spec fn has_tx_id(txs: Seq<TransactionView>, tx_id: Seq<char>) -> bool {
    exists|k: int| 0 <= k < txs.len() && #[trigger] txs[k].transaction_id == tx_id
}

/// Whether some recorded settlement completed.
pub open spec fn has_completed(txs: Seq<TransactionView>) -> bool {
    exists|k: int| 0 <= k < txs.len() && #[trigger] txs[k].status == SettlementStatus::Completed
}

/// A timestamp is unset until its transition has happened, and the release
/// method until the funds are released.
pub open spec fn stamps_consistent(a: AgreementView) -> bool {
    &&& stage(a.status) < 1 ==> a.agreed_at is None
    &&& stage(a.status) < 2 ==> a.funded_at is None
    &&& stage(a.status) < 3 ==> a.shipped_at is None
    &&& stage(a.status) < 4 ==> a.disputed_at is None
    &&& a.status != EscrowStatus::FundsReleased ==> a.released_at is None && a.release_method is None
    &&& !is_terminal(a.status) ==> a.resolved_at is None
}

/// `after` keeps what `before` fixed: the fields set at creation, and every
/// timestamp and the release method once set.
pub open spec fn keeps_history(before: AgreementView, after: AgreementView) -> bool {
    &&& after.escrow_id == before.escrow_id
    &&& after.buyer == before.buyer
    &&& after.seller == before.seller
    &&& after.amount == before.amount
    &&& after.terms == before.terms
    &&& after.created_at == before.created_at
    &&& before.agreed_at is Some ==> after.agreed_at == before.agreed_at
    &&& before.funded_at is Some ==> after.funded_at == before.funded_at
    &&& before.shipped_at is Some ==> after.shipped_at == before.shipped_at
    &&& before.released_at is Some ==> after.released_at == before.released_at
    &&& before.disputed_at is Some ==> after.disputed_at == before.disputed_at
    &&& before.resolved_at is Some ==> after.resolved_at == before.resolved_at
    &&& before.release_method is Some ==> after.release_method == before.release_method
}

impl ServiceState {
    pub open spec fn wf(self) -> bool {
        &&& 1 <= self.next_id
        &&& forall|i: int, j: int|
            0 <= i < j < self.escrows.len() ==> #[trigger] self.escrows[i].escrow_id
                < #[trigger] self.escrows[j].escrow_id
        &&& forall|i: int|
            0 <= i < self.escrows.len() ==> {
                let a = #[trigger] self.escrows[i];
                &&& a.escrow_id < self.next_id
                &&& a.amount > 0
                &&& distinct_tx_ids(a.mpesa_transactions)
                &&& stamps_consistent(a)
            }
    }

    pub open spec fn has(self, id: u64) -> bool {
        exists|i: int| 0 <= i < self.escrows.len() && #[trigger] self.escrows[i].escrow_id == id
    }

    pub open spec fn index_of(self, id: u64) -> int {
        choose|i: int| 0 <= i < self.escrows.len() && #[trigger] self.escrows[i].escrow_id == id
    }

    /// The agreement with this id; meaningful where `has(id)`.
    pub open spec fn get(self, id: u64) -> AgreementView {
        self.escrows[self.index_of(id)]
    }

    /// The state with the agreement of `a`'s id replaced by `a`.
    pub open spec fn put(self, a: AgreementView) -> ServiceState {
        ServiceState { escrows: self.escrows.update(self.index_of(a.escrow_id), a), ..self }
    }

    /// The state with `a` added as the newest agreement and the id counter advanced.
    pub open spec fn with_new(self, a: AgreementView) -> ServiceState {
        ServiceState { next_id: (self.next_id + 1) as u64, escrows: self.escrows.push(a), ..self }
    }

    /// The state with the agreement of this id removed.
    pub open spec fn without(self, id: u64) -> ServiceState {
        ServiceState { escrows: self.escrows.remove(self.index_of(id)), ..self }
    }

    /// The live agreements in which `who` is the buyer or the seller, oldest first.
    pub open spec fn involving(self, who: Seq<u8>) -> Seq<AgreementView> {
        self.escrows.filter(party_of(who))
    }
}

/// Whether `who` is the buyer or the seller of an agreement.
pub open spec fn party_of(who: Seq<u8>) -> spec_fn(AgreementView) -> bool {
    |a: AgreementView| a.buyer == who || a.seller == who
}

/// In a well-formed state each agreement is found at its own index.
pub proof fn lemma_index_of(s: ServiceState, i: int)
    requires
        s.wf(),
        0 <= i < s.escrows.len(),
    ensures
        s.has(s.escrows[i].escrow_id),
        s.index_of(s.escrows[i].escrow_id) == i,
{
    let id = s.escrows[i].escrow_id;
    assert(s.escrows[i].escrow_id == id);
    let j = s.index_of(id);
    if j < i {
        assert(s.escrows[j].escrow_id < s.escrows[i].escrow_id);
    } else if j > i {
        assert(s.escrows[i].escrow_id < s.escrows[j].escrow_id);
    }
}

/// What `initiate_escrow` yields: the new state and the id of the new agreement.
pub open spec fn initiate_spec(
    s: ServiceState,
    seller: Seq<u8>,
    buyer: Seq<u8>,
    amount: u64,
    terms: Seq<char>,
    now: u64,
) -> Result<(ServiceState, u64), EscrowError> {
    if amount == 0 {
        Err(EscrowError::InvalidAmount)
    } else {
        let a = AgreementView {
            escrow_id: s.next_id,
            buyer,
            seller,
            amount,
            terms,
            status: EscrowStatus::Created,
            created_at: now,
            agreed_at: None,
            funded_at: None,
            shipped_at: None,
            released_at: None,
            disputed_at: None,
            resolved_at: None,
            release_method: None,
            mpesa_transactions: Seq::empty(),
        };
        Ok((s.with_new(a), s.next_id))
    }
}

pub open spec fn agree_spec(s: ServiceState, caller: Seq<u8>, id: u64, now: u64) -> Result<
    (ServiceState, ()),
    EscrowError,
> {
    if !s.has(id) {
        Err(EscrowError::NotFound(id))
    } else if s.get(id).seller != caller {
        Err(EscrowError::Unauthorized(Role::Seller))
    } else if !valid_transition(s.get(id).status, EscrowStatus::Agreed) {
        Err(EscrowError::InvalidState(s.get(id).status))
    } else {
        Ok((s.put(AgreementView { status: EscrowStatus::Agreed, agreed_at: Some(now), ..s.get(id) }), ()))
    }
}

/// Funding needs the ledger to hold the amount, or a completed settlement.
pub open spec fn fund_spec(s: ServiceState, caller: Seq<u8>, id: u64, balance: u64, now: u64) -> Result<
    (ServiceState, ()),
    EscrowError,
> {
    if !s.has(id) {
        Err(EscrowError::NotFound(id))
    } else if s.get(id).buyer != caller {
        Err(EscrowError::Unauthorized(Role::Buyer))
    } else if !valid_transition(s.get(id).status, EscrowStatus::Funded) {
        Err(EscrowError::InvalidState(s.get(id).status))
    } else if balance < s.get(id).amount && !has_completed(s.get(id).mpesa_transactions) {
        Err(EscrowError::InsufficientFunds)
    } else {
        Ok((s.put(AgreementView { status: EscrowStatus::Funded, funded_at: Some(now), ..s.get(id) }), ()))
    }
}

pub open spec fn ship_spec(s: ServiceState, caller: Seq<u8>, id: u64, now: u64) -> Result<
    (ServiceState, ()),
    EscrowError,
> {
    if !s.has(id) {
        Err(EscrowError::NotFound(id))
    } else if s.get(id).seller != caller {
        Err(EscrowError::Unauthorized(Role::Seller))
    } else if !valid_transition(s.get(id).status, EscrowStatus::GoodsShipped) {
        Err(EscrowError::InvalidState(s.get(id).status))
    } else {
        Ok((s.put(AgreementView { status: EscrowStatus::GoodsShipped, shipped_at: Some(now), ..s.get(id) }), ()))
    }
}

/// Receipt of the goods releases the funds; only a shipped agreement gets here,
/// so the release from a dispute does not.
pub open spec fn receive_spec(
    s: ServiceState,
    caller: Seq<u8>,
    id: u64,
    method: ReleaseMethod,
    now: u64,
) -> Result<(ServiceState, ()), EscrowError> {
    if !s.has(id) {
        Err(EscrowError::NotFound(id))
    } else if s.get(id).buyer != caller {
        Err(EscrowError::Unauthorized(Role::Buyer))
    } else if s.get(id).status != EscrowStatus::GoodsShipped {
        Err(EscrowError::InvalidState(s.get(id).status))
    } else {
        Ok((
            s.put(
                AgreementView {
                    status: EscrowStatus::FundsReleased,
                    released_at: Some(now),
                    release_method: Some(method),
                    ..s.get(id)
                },
            ),
            (),
        ))
    }
}

/// Acknowledging a transfer over the native ledger changes nothing.
pub open spec fn confirm_icp_spec(s: ServiceState, id: u64) -> Result<(ServiceState, ()), EscrowError> {
    if !s.has(id) {
        Err(EscrowError::NotFound(id))
    } else if s.get(id).release_method != Some(ReleaseMethod::Icp) {
        Err(EscrowError::ReleaseMethodMismatch)
    } else if s.get(id).status != EscrowStatus::FundsReleased {
        Err(EscrowError::InvalidState(s.get(id).status))
    } else {
        Ok((s, ()))
    }
}

pub open spec fn open_dispute_spec(s: ServiceState, caller: Seq<u8>, id: u64, now: u64) -> Result<
    (ServiceState, ()),
    EscrowError,
> {
    if !s.has(id) {
        Err(EscrowError::NotFound(id))
    } else if s.get(id).buyer != caller && s.get(id).seller != caller {
        Err(EscrowError::Unauthorized(Role::Participant))
    } else if !valid_transition(s.get(id).status, EscrowStatus::Disputed) {
        Err(EscrowError::InvalidState(s.get(id).status))
    } else {
        Ok((s.put(AgreementView { status: EscrowStatus::Disputed, disputed_at: Some(now), ..s.get(id) }), ()))
    }
}

pub open spec fn resolve_spec(
    s: ServiceState,
    caller: Seq<u8>,
    id: u64,
    decision: DisputeDecision,
    now: u64,
) -> Result<(ServiceState, ()), EscrowError> {
    if caller != s.admin {
        Err(EscrowError::Unauthorized(Role::Admin))
    } else if !s.has(id) {
        Err(EscrowError::NotFound(id))
    } else if s.get(id).status != EscrowStatus::Disputed {
        Err(EscrowError::InvalidState(s.get(id).status))
    } else {
        Ok((s.put(AgreementView { status: resolution(decision), resolved_at: Some(now), ..s.get(id) }), ()))
    }
}

pub open spec fn cancel_spec(s: ServiceState, caller: Seq<u8>, id: u64) -> Result<
    (ServiceState, ()),
    EscrowError,
> {
    if !s.has(id) {
        Err(EscrowError::NotFound(id))
    } else if s.get(id).buyer != caller && s.get(id).seller != caller {
        Err(EscrowError::Unauthorized(Role::Participant))
    } else if !cancellable(s.get(id).status) {
        Err(EscrowError::InvalidState(s.get(id).status))
    } else {
        Ok((s.without(id), ()))
    }
}

/// Appends the settlement to its agreement and, for a completed payment on an
/// agreed escrow, funds it as of the payment's timestamp.
pub open spec fn record_spec(s: ServiceState, caller: Seq<u8>, tx: MpesaTransaction) -> Result<
    (ServiceState, SettlementEffect),
    EscrowError,
> {
    let id = tx.escrow_id;
    if caller != s.oracle {
        Err(EscrowError::Unauthorized(Role::Oracle))
    } else if !s.has(id) {
        Err(EscrowError::NotFound(id))
    } else if has_tx_id(s.get(id).mpesa_transactions, tx.transaction_id@) {
        Err(EscrowError::DuplicateTransaction(tx.transaction_id))
    } else {
        let a = s.get(id);
        let appended = AgreementView { mpesa_transactions: a.mpesa_transactions.push(tx@), ..a };
        if tx.status == SettlementStatus::Completed && a.status == EscrowStatus::Agreed {
            Ok((
                s.put(
                    AgreementView {
                        status: EscrowStatus::Funded,
                        funded_at: Some(tx.timestamp),
                        ..appended
                    },
                ),
                SettlementEffect::Funded,
            ))
        } else {
            Ok((s.put(appended), SettlementEffect::RecordedOnly))
        }
    }
}

pub open spec fn set_admin_spec(s: ServiceState, caller: Seq<u8>, new_admin: Seq<u8>) -> Result<
    (ServiceState, ()),
    EscrowError,
> {
    if caller != s.admin {
        Err(EscrowError::Unauthorized(Role::Admin))
    } else {
        Ok((ServiceState { admin: new_admin, ..s }, ()))
    }
}

pub open spec fn set_oracle_spec(s: ServiceState, caller: Seq<u8>, new_oracle: Seq<u8>) -> Result<
    (ServiceState, ()),
    EscrowError,
> {
    if caller != s.admin {
        Err(EscrowError::Unauthorized(Role::Admin))
    } else {
        Ok((ServiceState { oracle: new_oracle, ..s }, ()))
    }
}

/// An operation's result `r` took the state from `before` to `after` as
/// `expected` says: on an error nothing changed.
pub open spec fn follows<T>(
    before: ServiceState,
    after: ServiceState,
    r: Result<T, EscrowError>,
    expected: Result<(ServiceState, T), EscrowError>,
) -> bool {
    match expected {
        Ok((t, v)) => after == t && r == Ok::<T, EscrowError>(v),
        Err(e) => after == before && r == Err::<T, EscrowError>(e),
    }
}

} // verus!

verus! {

/// Two states whose agreements carry the same ids at the same places find
/// every id at the same place.
pub proof fn lemma_same_ids(s: ServiceState, t: ServiceState)
    requires
        s.wf(),
        t.escrows.len() == s.escrows.len(),
        forall|k: int| 0 <= k < s.escrows.len() ==> #[trigger] t.escrows[k].escrow_id == s.escrows[k].escrow_id,
    ensures
        forall|id: u64| #[trigger] t.has(id) == s.has(id),
        forall|id: u64| s.has(id) ==> #[trigger] t.index_of(id) == s.index_of(id),
{
    assert forall|id: u64| #[trigger] t.has(id) == s.has(id) by {
        if s.has(id) {
            let i = s.index_of(id);
            assert(t.escrows[i].escrow_id == id);
        }
        if t.has(id) {
            let k = t.index_of(id);
            assert(s.escrows[k].escrow_id == id);
        }
    }
    assert forall|id: u64| s.has(id) implies #[trigger] t.index_of(id) == s.index_of(id) by {
        let i = s.index_of(id);
        assert(t.escrows[i].escrow_id == id);
        let j = t.index_of(id);
        assert(s.escrows[j].escrow_id == id);
        lemma_index_of(s, i);
        lemma_index_of(s, j);
    }
}

/// Replacing an agreement by one of the same id leaves every other one in place.
pub proof fn lemma_put(s: ServiceState, a: AgreementView)
    requires
        s.wf(),
        s.has(a.escrow_id),
    ensures
        forall|id: u64| #[trigger] s.put(a).has(id) == s.has(id),
        forall|id: u64|
            s.has(id) ==> #[trigger] s.put(a).get(id) == if id == a.escrow_id {
                a
            } else {
                s.get(id)
            },
{
    let t = s.put(a);
    lemma_index_of(s, s.index_of(a.escrow_id));
    lemma_same_ids(s, t);
    assert forall|id: u64| s.has(id) implies #[trigger] s.put(a).get(id) == if id == a.escrow_id {
        a
    } else {
        s.get(id)
    } by {
        lemma_index_of(s, s.index_of(id));
    }
}

/// Removing an agreement leaves every other one findable, unchanged.
pub proof fn lemma_without(s: ServiceState, id: u64)
    requires
        s.wf(),
        s.has(id),
    ensures
        !s.without(id).has(id),
        forall|other: u64| #[trigger] s.without(id).has(other) == (s.has(other) && other != id),
        forall|other: u64| s.without(id).has(other) ==> #[trigger] s.without(id).get(other) == s.get(other),
{
    let t = s.without(id);
    let i = s.index_of(id);
    lemma_index_of(s, i);
    assert forall|other: u64| #[trigger] t.has(other) == (s.has(other) && other != id) by {
        if t.has(other) {
            let k = t.index_of(other);
            let kk = if k < i { k } else { k + 1 };
            assert(s.escrows[kk].escrow_id == other);
            if other == id {
                lemma_index_of(s, kk);
            }
        }
        if s.has(other) && other != id {
            let j = s.index_of(other);
            lemma_index_of(s, j);
            let jj = if j < i { j } else { j - 1 };
            assert(t.escrows[jj].escrow_id == other);
        }
    }
    assert forall|other: u64| t.has(other) implies #[trigger] t.get(other) == s.get(other) by {
        let k = t.index_of(other);
        let kk = if k < i { k } else { k + 1 };
        assert(s.escrows[kk].escrow_id == other);
        lemma_index_of(s, kk);
    }
}

/// Appending an agreement with a fresh, larger id leaves the others in place.
pub proof fn lemma_push(s: ServiceState, a: AgreementView)
    requires
        s.wf(),
        a.escrow_id == s.next_id,
    ensures
        forall|id: u64| s.has(id) ==> #[trigger] s.with_new(a).has(id) && s.with_new(a).get(id) == s.get(id),
{
    let t = s.with_new(a);
    assert forall|id: u64| s.has(id) implies #[trigger] t.has(id) && t.get(id) == s.get(id) by {
        let i = s.index_of(id);
        lemma_index_of(s, i);
        assert(t.escrows[i] == s.escrows[i]);
        let j = t.index_of(id);
        if j == s.escrows.len() {
            assert(s.escrows[i].escrow_id < s.next_id);
        } else {
            assert(s.escrows[j] == t.escrows[j]);
            lemma_index_of(s, j);
        }
    }
}

} // verus!

verus! {

/// A mutating operation of the service, with its arguments but not its caller.
pub enum Operation {
    Initiate { seller: Seq<u8>, buyer: Seq<u8>, amount: u64, terms: Seq<char>, now: u64 },
    Agree { id: u64, now: u64 },
    Fund { id: u64, balance: u64, now: u64 },
    Ship { id: u64, now: u64 },
    Receive { id: u64, method: ReleaseMethod, now: u64 },
    Dispute { id: u64, now: u64 },
    Resolve { id: u64, decision: DisputeDecision, now: u64 },
    Cancel { id: u64 },
    Record { tx: MpesaTransaction },
    SetAdmin { admin: Seq<u8> },
    SetOracle { oracle: Seq<u8> },
}

pub open spec fn new_state<T>(r: Result<(ServiceState, T), EscrowError>) -> Result<ServiceState, EscrowError> {
    match r {
        Ok((t, _)) => Ok(t),
        Err(e) => Err(e),
    }
}

/// The state that `caller` reaches by `op`, or the error it gets.
pub open spec fn apply(s: ServiceState, caller: Seq<u8>, op: Operation) -> Result<ServiceState, EscrowError> {
    match op {
        Operation::Initiate { seller, buyer, amount, terms, now } => new_state(
            initiate_spec(s, seller, buyer, amount, terms, now),
        ),
        Operation::Agree { id, now } => new_state(agree_spec(s, caller, id, now)),
        Operation::Fund { id, balance, now } => new_state(fund_spec(s, caller, id, balance, now)),
        Operation::Ship { id, now } => new_state(ship_spec(s, caller, id, now)),
        Operation::Receive { id, method, now } => new_state(receive_spec(s, caller, id, method, now)),
        Operation::Dispute { id, now } => new_state(open_dispute_spec(s, caller, id, now)),
        Operation::Resolve { id, decision, now } => new_state(resolve_spec(s, caller, id, decision, now)),
        Operation::Cancel { id } => new_state(cancel_spec(s, caller, id)),
        Operation::Record { tx } => new_state(record_spec(s, caller, tx)),
        Operation::SetAdmin { admin } => new_state(set_admin_spec(s, caller, admin)),
        Operation::SetOracle { oracle } => new_state(set_oracle_spec(s, caller, oracle)),
    }
}

/// The role an operation demands, if any.
pub open spec fn required_role(op: Operation) -> Option<Role> {
    match op {
        Operation::Initiate { .. } => None,
        Operation::Agree { .. } | Operation::Ship { .. } => Some(Role::Seller),
        Operation::Fund { .. } | Operation::Receive { .. } => Some(Role::Buyer),
        Operation::Dispute { .. } | Operation::Cancel { .. } => Some(Role::Participant),
        Operation::Resolve { .. } | Operation::SetAdmin { .. } | Operation::SetOracle { .. } => Some(
            Role::Admin,
        ),
        Operation::Record { .. } => Some(Role::Oracle),
    }
}

/// The agreement an operation names; zero for one that names none.
pub open spec fn target(op: Operation) -> u64 {
    match op {
        Operation::Agree { id, .. } => id,
        Operation::Fund { id, .. } => id,
        Operation::Ship { id, .. } => id,
        Operation::Receive { id, .. } => id,
        Operation::Dispute { id, .. } => id,
        Operation::Resolve { id, .. } => id,
        Operation::Cancel { id } => id,
        Operation::Record { tx } => tx.escrow_id,
        _ => 0,
    }
}

/// Whether `caller` holds `role`; for the roles of a party, in the agreement `id`.
pub open spec fn holds_role(s: ServiceState, caller: Seq<u8>, role: Role, id: u64) -> bool {
    match role {
        Role::Admin => caller == s.admin,
        Role::Oracle => caller == s.oracle,
        Role::Buyer => caller == s.get(id).buyer,
        Role::Seller => caller == s.get(id).seller,
        Role::Participant => caller == s.get(id).buyer || caller == s.get(id).seller,
    }
}

/// Whether a role is held in a particular agreement rather than in the service.
pub open spec fn is_party_role(role: Role) -> bool {
    role == Role::Buyer || role == Role::Seller || role == Role::Participant
}

/// Every agreement present before and after kept its status or took one step of the table.
pub open spec fn steps_along_table(before: ServiceState, after: ServiceState) -> bool {
    forall|id: u64|
        before.has(id) && after.has(id) ==> before.get(id).status == #[trigger] after.get(id).status
            || valid_transition(before.get(id).status, after.get(id).status)
}

/// Every agreement present before and after kept its history.
pub open spec fn history_kept(before: ServiceState, after: ServiceState) -> bool {
    forall|id: u64| before.has(id) && after.has(id) ==> keeps_history(before.get(id), #[trigger] after.get(id))
}

/// Every agreement present before and after kept its settlements as a prefix of its new ones.
pub open spec fn ledger_extends(before: ServiceState, after: ServiceState) -> bool {
    forall|id: u64|
        before.has(id) && after.has(id) ==> before.get(id).mpesa_transactions.is_prefix_of(
            #[trigger] after.get(id).mpesa_transactions,
        )
}

} // verus!
