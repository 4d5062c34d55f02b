use vstd::prelude::*;
use crate::model::{DisputeDecision, EscrowStatus};

verus! {

/// The transition table over statuses. Removal by cancellation is not a status
/// and is governed by `cancellable`.
pub open spec fn valid_transition(from: EscrowStatus, to: EscrowStatus) -> bool {
    match (from, to) {
        (EscrowStatus::Created, EscrowStatus::Agreed) => true,
        (EscrowStatus::Agreed, EscrowStatus::Funded) => true,
        (EscrowStatus::Funded, EscrowStatus::GoodsShipped) => true,
        (EscrowStatus::GoodsShipped, EscrowStatus::FundsReleased) => true,
        (EscrowStatus::Agreed, EscrowStatus::Disputed) => true,
        (EscrowStatus::Funded, EscrowStatus::Disputed) => true,
        (EscrowStatus::GoodsShipped, EscrowStatus::Disputed) => true,
        (EscrowStatus::Disputed, EscrowStatus::Refunded) => true,
        (EscrowStatus::Disputed, EscrowStatus::FundsReleased) => true,
        _ => false,
    }
}

/// No transition leaves a terminal status.
pub open spec fn is_terminal(s: EscrowStatus) -> bool {
    s == EscrowStatus::FundsReleased || s == EscrowStatus::Refunded
}

/// Only an agreement on which no funds have moved may be cancelled.
pub open spec fn cancellable(s: EscrowStatus) -> bool {
    s == EscrowStatus::Created || s == EscrowStatus::Agreed
}

/// How far along the lifecycle a status lies; every transition raises it.
pub open spec fn stage(s: EscrowStatus) -> nat {
    match s {
        EscrowStatus::Created => 0,
        EscrowStatus::Agreed => 1,
        EscrowStatus::Funded => 2,
        EscrowStatus::GoodsShipped => 3,
        EscrowStatus::Disputed => 4,
        EscrowStatus::FundsReleased => 5,
        EscrowStatus::Refunded => 5,
    }
}

/// The status a dispute ends in.
pub open spec fn resolution(d: DisputeDecision) -> EscrowStatus {
    match d {
        DisputeDecision::RefundBuyer => EscrowStatus::Refunded,
        DisputeDecision::ReleaseFunds => EscrowStatus::FundsReleased,
    }
}

pub fn is_valid_transition(from: EscrowStatus, to: EscrowStatus) -> (r: bool)
    ensures
        r == valid_transition(from, to),
{
    match (from, to) {
        (EscrowStatus::Created, EscrowStatus::Agreed) => true,
        (EscrowStatus::Agreed, EscrowStatus::Funded) => true,
        (EscrowStatus::Funded, EscrowStatus::GoodsShipped) => true,
        (EscrowStatus::GoodsShipped, EscrowStatus::FundsReleased) => true,
        (EscrowStatus::Agreed, EscrowStatus::Disputed) => true,
        (EscrowStatus::Funded, EscrowStatus::Disputed) => true,
        (EscrowStatus::GoodsShipped, EscrowStatus::Disputed) => true,
        (EscrowStatus::Disputed, EscrowStatus::Refunded) => true,
        (EscrowStatus::Disputed, EscrowStatus::FundsReleased) => true,
        _ => false,
    }
}

pub fn is_cancellable(s: EscrowStatus) -> (r: bool)
    ensures
        r == cancellable(s),
{
    match s {
        EscrowStatus::Created | EscrowStatus::Agreed => true,
        _ => false,
    }
}

pub fn resolved_status(d: DisputeDecision) -> (r: EscrowStatus)
    ensures
        r == resolution(d),
{
    match d {
        DisputeDecision::RefundBuyer => EscrowStatus::Refunded,
        DisputeDecision::ReleaseFunds => EscrowStatus::FundsReleased,
    }
}

} // verus!
