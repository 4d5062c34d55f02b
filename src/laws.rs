//! Properties of the escrow service that hold of every state and every call.
use vstd::prelude::*;
use crate::machine::{cancellable, is_terminal, resolution, stage, valid_transition};
use crate::model::{
    AgreementView, DisputeDecision, EscrowError, EscrowStatus, MpesaTransaction, Role,
    SettlementEffect, SettlementStatus,
};
use crate::state::{
    Operation, ServiceState, apply, cancel_spec, has_tx_id, history_kept, holds_role,
    initiate_spec, is_party_role, keeps_history, ledger_extends, lemma_index_of, lemma_push,
    lemma_put, lemma_without, new_state, open_dispute_spec, record_spec, required_role,
    resolve_spec, steps_along_table, target,
};

verus! {

/// Each transition of the table moves strictly forward and leaves a
/// non-terminal status, so no status is ever entered twice and nothing leaves
/// `FundsReleased` or `Refunded`.
pub proof fn transition_moves_forward(from: EscrowStatus, to: EscrowStatus)
    requires
        valid_transition(from, to),
    ensures
        stage(from) < stage(to),
        !is_terminal(from),
{
}

/// An escrow of amount zero is refused with `InvalidAmount`, whoever asks; by
/// the contract of `initiate_escrow`, the store is then left as it was.
pub proof fn zero_amount_is_refused(
    s: ServiceState,
    caller: Seq<u8>,
    seller: Seq<u8>,
    buyer: Seq<u8>,
    terms: Seq<char>,
    now: u64,
)
    ensures
        initiate_spec(s, seller, buyer, 0, terms, now) == Err::<(ServiceState, u64), EscrowError>(
            EscrowError::InvalidAmount,
        ),
        apply(s, caller, Operation::Initiate { seller, buyer, amount: 0, terms, now })
            == Err::<ServiceState, EscrowError>(EscrowError::InvalidAmount),
{
}

/// Replacing one agreement by a step of it keeps both properties.
proof fn lemma_put_effects(s: ServiceState, a: AgreementView)
    requires
        s.wf(),
        s.has(a.escrow_id),
        a.status == s.get(a.escrow_id).status || valid_transition(s.get(a.escrow_id).status, a.status),
        s.get(a.escrow_id).mpesa_transactions.is_prefix_of(a.mpesa_transactions),
        keeps_history(s.get(a.escrow_id), a),
    ensures
        steps_along_table(s, s.put(a)),
        ledger_extends(s, s.put(a)),
        history_kept(s, s.put(a)),
{
    let t = s.put(a);
    lemma_put(s, a);
    assert forall|id: u64| s.has(id) && t.has(id) implies s.get(id).mpesa_transactions.is_prefix_of(
        #[trigger] t.get(id).mpesa_transactions,
    ) by {
        if id != a.escrow_id {
            assert(s.get(id).mpesa_transactions =~= t.get(id).mpesa_transactions.subrange(
                0,
                s.get(id).mpesa_transactions.len() as int,
            ));
        }
    }
}

proof fn lemma_effects(s: ServiceState, caller: Seq<u8>, op: Operation)
    requires
        s.wf(),
        apply(s, caller, op) is Ok,
    ensures
        steps_along_table(s, apply(s, caller, op)->Ok_0),
        ledger_extends(s, apply(s, caller, op)->Ok_0),
        history_kept(s, apply(s, caller, op)->Ok_0),
{
    let t = apply(s, caller, op)->Ok_0;
    let id = target(op);
    if s.has(id) {
        lemma_index_of(s, s.index_of(id));
    }
    match op {
        Operation::Initiate { seller, buyer, amount, terms, now } => {
            let a = AgreementView {
                escrow_id: s.next_id,
                buyer,
                seller,
                amount,
                terms,
                status: EscrowStatus::Created,
                created_at: now,
                agreed_at: None,
                funded_at: None,
                shipped_at: None,
                released_at: None,
                disputed_at: None,
                resolved_at: None,
                release_method: None,
                mpesa_transactions: Seq::empty(),
            };
            assert(t == s.with_new(a));
            lemma_push(s, a);
            assert forall|id: u64| s.has(id) && t.has(id) implies s.get(id).mpesa_transactions.is_prefix_of(
                #[trigger] t.get(id).mpesa_transactions,
            ) by {
                assert(s.get(id).mpesa_transactions =~= t.get(id).mpesa_transactions.subrange(
                    0,
                    s.get(id).mpesa_transactions.len() as int,
                ));
            }
        },
        Operation::Cancel { id } => {
            lemma_without(s, id);
            assert forall|other: u64| s.has(other) && t.has(other) implies s.get(other).mpesa_transactions.is_prefix_of(
                #[trigger] t.get(other).mpesa_transactions,
            ) by {
                assert(s.get(other).mpesa_transactions =~= t.get(other).mpesa_transactions.subrange(
                    0,
                    s.get(other).mpesa_transactions.len() as int,
                ));
            }
        },
        Operation::SetAdmin { admin } => {
            assert(t.escrows == s.escrows);
            assert forall|id: u64| s.has(id) && t.has(id) implies s.get(id).mpesa_transactions.is_prefix_of(
                #[trigger] t.get(id).mpesa_transactions,
            ) by {
                assert(s.get(id).mpesa_transactions =~= t.get(id).mpesa_transactions.subrange(
                    0,
                    s.get(id).mpesa_transactions.len() as int,
                ));
            }
        },
        Operation::SetOracle { oracle } => {
            assert(t.escrows == s.escrows);
            assert forall|id: u64| s.has(id) && t.has(id) implies s.get(id).mpesa_transactions.is_prefix_of(
                #[trigger] t.get(id).mpesa_transactions,
            ) by {
                assert(s.get(id).mpesa_transactions =~= t.get(id).mpesa_transactions.subrange(
                    0,
                    s.get(id).mpesa_transactions.len() as int,
                ));
            }
        },
        Operation::Agree { id, now } => {
            lemma_put_effects(s, AgreementView { status: EscrowStatus::Agreed, agreed_at: Some(now), ..s.get(id) });
        },
        Operation::Fund { id, balance, now } => {
            lemma_put_effects(s, AgreementView { status: EscrowStatus::Funded, funded_at: Some(now), ..s.get(id) });
        },
        Operation::Ship { id, now } => {
            lemma_put_effects(s, AgreementView { status: EscrowStatus::GoodsShipped, shipped_at: Some(now), ..s.get(id) });
        },
        Operation::Receive { id, method, now } => {
            lemma_put_effects(
                s,
                AgreementView {
                    status: EscrowStatus::FundsReleased,
                    released_at: Some(now),
                    release_method: Some(method),
                    ..s.get(id)
                },
            );
        },
        Operation::Dispute { id, now } => {
            lemma_put_effects(s, AgreementView { status: EscrowStatus::Disputed, disputed_at: Some(now), ..s.get(id) });
        },
        Operation::Resolve { id, decision, now } => {
            lemma_put_effects(s, AgreementView { status: resolution(decision), resolved_at: Some(now), ..s.get(id) });
        },
        Operation::Record { tx } => {
            let a = s.get(tx.escrow_id);
            let appended = AgreementView { mpesa_transactions: a.mpesa_transactions.push(tx@), ..a };
            assert(a.mpesa_transactions =~= appended.mpesa_transactions.subrange(0, a.mpesa_transactions.len() as int));
            if tx.status == SettlementStatus::Completed && a.status == EscrowStatus::Agreed {
                lemma_put_effects(s, AgreementView { status: EscrowStatus::Funded, funded_at: Some(tx.timestamp), ..appended });
            } else {
                lemma_put_effects(s, appended);
            }
        },
    }
}

/// Status only advances along the transition table: after any successful
/// operation, every agreement that was there before and is there still has
/// kept its status or taken one step of the table.
pub proof fn operations_follow_table(s: ServiceState, caller: Seq<u8>, op: Operation)
    requires
        s.wf(),
        apply(s, caller, op) is Ok,
    ensures
        steps_along_table(s, apply(s, caller, op)->Ok_0),
{
    lemma_effects(s, caller, op);
}

/// The settlements of an agreement only grow at their end: after any
/// successful operation, each agreement's old settlements are a prefix of its
/// new ones, field for field.
pub proof fn settlements_only_grow(s: ServiceState, caller: Seq<u8>, op: Operation)
    requires
        s.wf(),
        apply(s, caller, op) is Ok,
    ensures
        ledger_extends(s, apply(s, caller, op)->Ok_0),
{
    lemma_effects(s, caller, op);
}

/// What an agreement was created with never changes, and each timestamp and
/// the release method, once set, is never cleared or overwritten: after any
/// successful operation this holds of every agreement there before and after.
pub proof fn history_is_kept(s: ServiceState, caller: Seq<u8>, op: Operation)
    requires
        s.wf(),
        apply(s, caller, op) is Ok,
    ensures
        history_kept(s, apply(s, caller, op)->Ok_0),
{
    lemma_effects(s, caller, op);
}

/// A caller without the role that an operation demands is refused with
/// `Unauthorized`; by the operations' contracts nothing then changes. Where the
/// role is one of an agreement's parties, the agreement must exist: a missing
/// one is reported as not found.
pub proof fn wrong_role_is_refused(s: ServiceState, caller: Seq<u8>, op: Operation, role: Role)
    requires
        required_role(op) == Some(role),
        is_party_role(role) ==> s.has(target(op)),
        !holds_role(s, caller, role, target(op)),
    ensures
        apply(s, caller, op) == Err::<ServiceState, EscrowError>(EscrowError::Unauthorized(role)),
{
}

/// A settlement whose external id is already recorded for its agreement is
/// refused with `DuplicateTransaction`, and the ledger is left as it was.
pub proof fn duplicate_settlement_is_refused(s: ServiceState, caller: Seq<u8>, tx: MpesaTransaction)
    requires
        caller == s.oracle,
        s.has(tx.escrow_id),
        has_tx_id(s.get(tx.escrow_id).mpesa_transactions, tx.transaction_id@),
    ensures
        record_spec(s, caller, tx) == Err::<(ServiceState, SettlementEffect), EscrowError>(
            EscrowError::DuplicateTransaction(tx.transaction_id),
        ),
{
}

/// Cancellation succeeds only from `Created` or `Agreed`, and afterwards the
/// agreement is gone: looking it up reports it as not found.
pub proof fn cancel_erases(s: ServiceState, caller: Seq<u8>, id: u64)
    requires
        s.wf(),
        cancel_spec(s, caller, id) is Ok,
    ensures
        cancellable(s.get(id).status),
        !new_state(cancel_spec(s, caller, id))->Ok_0.has(id),
{
    lemma_without(s, id);
}

/// The administrator's ruling on a disputed agreement always ends it as
/// `Refunded` or `FundsReleased`; after that, a party's new dispute and a
/// second ruling are both refused with `InvalidState`.
pub proof fn resolution_is_final(
    s: ServiceState,
    id: u64,
    decision: DisputeDecision,
    now: u64,
    other: Seq<u8>,
    second: DisputeDecision,
    later: u64,
)
    requires
        s.wf(),
        s.has(id),
        s.get(id).status == EscrowStatus::Disputed,
    ensures
        resolve_spec(s, s.admin, id, decision, now) is Ok,
        ({
            let t = new_state(resolve_spec(s, s.admin, id, decision, now))->Ok_0;
            &&& t.has(id)
            &&& t.get(id).status == EscrowStatus::Refunded || t.get(id).status
                == EscrowStatus::FundsReleased
            &&& (t.get(id).buyer == other || t.get(id).seller == other) ==> open_dispute_spec(t, other, id, later)
                == Err::<(ServiceState, ()), EscrowError>(EscrowError::InvalidState(t.get(id).status))
            &&& resolve_spec(t, s.admin, id, second, later) == Err::<(ServiceState, ()), EscrowError>(
                EscrowError::InvalidState(t.get(id).status),
            )
        }),
{
    let a = AgreementView { status: resolution(decision), resolved_at: Some(now), ..s.get(id) };
    lemma_put(s, a);
}

} // verus!
