use escrowblock::identity::Identity;
use escrowblock::machine::{is_cancellable, is_valid_transition, resolved_status};
use escrowblock::model::{
    DisputeDecision, EscrowError, EscrowStatus, MpesaTransaction, ReleaseMethod, Role,
    SettlementEffect, SettlementStatus,
};
use escrowblock::service::EscrowService;

fn who(b: u8) -> Identity {
    Identity::from_bytes(vec![b, 0xAA, b])
}

fn admin() -> Identity {
    who(1)
}

fn seller() -> Identity {
    who(2)
}

fn buyer() -> Identity {
    who(3)
}

fn oracle() -> Identity {
    who(9)
}

fn service() -> EscrowService {
    let mut s = EscrowService::new(admin());
    s.set_off_chain_server(&admin(), oracle()).unwrap();
    s
}

fn tx(id: &str, escrow_id: u64, status: SettlementStatus, timestamp: u64) -> MpesaTransaction {
    MpesaTransaction {
        transaction_id: id.to_string(),
        escrow_id,
        buyer_principal: buyer(),
        seller_principal: seller(),
        amount_e8s: 100,
        timestamp,
        status,
        receipt_number: "R-1".to_string(),
        payer_phone: "0700000001".to_string(),
        receiver_phone: "0700000002".to_string(),
    }
}

/// An escrow of 100 for "widget", as agreed by the seller.
fn agreed(s: &mut EscrowService) -> u64 {
    let id = s.initiate_escrow(seller(), buyer(), 100, "widget".to_string(), 10).unwrap();
    s.agree_escrow(&seller(), id, 20).unwrap();
    id
}

fn status_of(s: &EscrowService, id: u64) -> EscrowStatus {
    s.get_escrow(id).unwrap().status
}

#[test]
fn anonymous_identity_is_the_anonymous_principal() {
    assert_eq!(Identity::anonymous().bytes, vec![4u8]);
    let s = EscrowService::new(admin());
    assert_eq!(s.off_chain_server().bytes, vec![4u8]);
    assert_eq!(s.admin().bytes, admin().bytes);
    assert_eq!(s.next_escrow_id(), 1);
}

#[test]
fn identities_compare_by_bytes() {
    assert!(who(5).same(&who(5)));
    assert!(!who(5).same(&who(6)));
    assert!(!Identity::from_bytes(vec![1]).same(&Identity::from_bytes(vec![1, 0])));
    assert_eq!(who(7).duplicate().bytes, who(7).bytes);
}

#[test]
fn happy_path_releases_over_icp() {
    let mut s = service();
    let id = s.initiate_escrow(seller(), buyer(), 100, "widget".to_string(), 10).unwrap();
    assert_eq!(id, 1);
    let a = s.get_escrow(id).unwrap();
    assert_eq!(a.status, EscrowStatus::Created);
    assert_eq!(a.amount, 100);
    assert_eq!(a.terms, "widget");
    assert_eq!(a.created_at, 10);

    s.agree_escrow(&seller(), id, 20).unwrap();
    assert_eq!(status_of(&s, id), EscrowStatus::Agreed);
    s.fund_escrow(&buyer(), id, 100, 30).unwrap();
    assert_eq!(status_of(&s, id), EscrowStatus::Funded);
    s.confirm_goods_shipped(&seller(), id, 40).unwrap();
    assert_eq!(status_of(&s, id), EscrowStatus::GoodsShipped);
    s.confirm_goods_received(&buyer(), id, ReleaseMethod::Icp, 50).unwrap();

    let a = s.get_escrow(id).unwrap();
    assert_eq!(a.status, EscrowStatus::FundsReleased);
    assert_eq!(a.release_method, Some(ReleaseMethod::Icp));
    let stamps = [
        a.created_at,
        a.agreed_at.unwrap(),
        a.funded_at.unwrap(),
        a.shipped_at.unwrap(),
        a.released_at.unwrap(),
    ];
    assert_eq!(stamps, [10, 20, 30, 40, 50]);
    assert!(stamps.windows(2).all(|w| w[0] <= w[1]));
    assert_eq!(a.disputed_at, None);
    assert_eq!(a.resolved_at, None);
    assert_eq!(s.confirm_icp_transfer(id), Ok(()));
    assert_eq!(s.confirm_icp_transfer(id), Ok(()));
}

#[test]
fn dispute_then_refund_is_final() {
    let mut s = service();
    let id = agreed(&mut s);
    s.fund_escrow(&buyer(), id, 100, 30).unwrap();
    s.open_dispute(&buyer(), id, 40).unwrap();
    assert_eq!(status_of(&s, id), EscrowStatus::Disputed);
    s.resolve_dispute(&admin(), id, DisputeDecision::RefundBuyer, 50).unwrap();
    let a = s.get_escrow(id).unwrap();
    assert_eq!(a.status, EscrowStatus::Refunded);
    assert_eq!(a.disputed_at, Some(40));
    assert_eq!(a.resolved_at, Some(50));
    assert_eq!(
        s.open_dispute(&buyer(), id, 60),
        Err(EscrowError::InvalidState(EscrowStatus::Refunded))
    );
    assert_eq!(
        s.resolve_dispute(&admin(), id, DisputeDecision::ReleaseFunds, 60),
        Err(EscrowError::InvalidState(EscrowStatus::Refunded))
    );
}

#[test]
fn dispute_release_goes_to_seller() {
    let mut s = service();
    let id = agreed(&mut s);
    s.open_dispute(&seller(), id, 30).unwrap();
    s.resolve_dispute(&admin(), id, DisputeDecision::ReleaseFunds, 40).unwrap();
    let a = s.get_escrow(id).unwrap();
    assert_eq!(a.status, EscrowStatus::FundsReleased);
    assert_eq!(a.release_method, None);
    assert_eq!(s.confirm_icp_transfer(id), Err(EscrowError::ReleaseMethodMismatch));
    assert_eq!(
        s.open_dispute(&seller(), id, 50),
        Err(EscrowError::InvalidState(EscrowStatus::FundsReleased))
    );
}

#[test]
fn zero_amount_creates_nothing() {
    let mut s = service();
    assert_eq!(
        s.initiate_escrow(seller(), buyer(), 0, "widget".to_string(), 10),
        Err(EscrowError::InvalidAmount)
    );
    assert_eq!(s.next_escrow_id(), 1);
    assert!(s.list_my_escrows(&buyer()).is_empty());
    assert_eq!(s.get_escrow(1).unwrap_err(), EscrowError::NotFound(1));
}

#[test]
fn ids_are_never_reused() {
    let mut s = service();
    let first = s.initiate_escrow(seller(), buyer(), 5, "a".to_string(), 1).unwrap();
    s.cancel_escrow(&buyer(), first).unwrap();
    let second = s.initiate_escrow(seller(), buyer(), 5, "b".to_string(), 2).unwrap();
    assert_eq!((first, second), (1, 2));
    assert_eq!(s.next_escrow_id(), 3);
}

#[test]
fn out_of_order_steps_are_invalid_and_change_nothing() {
    let mut s = service();
    let id = s.initiate_escrow(seller(), buyer(), 100, "widget".to_string(), 10).unwrap();
    assert_eq!(
        s.fund_escrow(&buyer(), id, 1000, 11),
        Err(EscrowError::InvalidState(EscrowStatus::Created))
    );
    assert_eq!(
        s.confirm_goods_shipped(&seller(), id, 11),
        Err(EscrowError::InvalidState(EscrowStatus::Created))
    );
    assert_eq!(
        s.confirm_goods_received(&buyer(), id, ReleaseMethod::Mpesa, 11),
        Err(EscrowError::InvalidState(EscrowStatus::Created))
    );
    assert_eq!(
        s.open_dispute(&buyer(), id, 11),
        Err(EscrowError::InvalidState(EscrowStatus::Created))
    );
    s.agree_escrow(&seller(), id, 12).unwrap();
    assert_eq!(
        s.agree_escrow(&seller(), id, 13),
        Err(EscrowError::InvalidState(EscrowStatus::Agreed))
    );
    let a = s.get_escrow(id).unwrap();
    assert_eq!(a.status, EscrowStatus::Agreed);
    assert_eq!(a.agreed_at, Some(12));
    assert_eq!(a.funded_at, None);
}

#[test]
fn wrong_callers_are_unauthorized() {
    let mut s = service();
    let id = agreed(&mut s);
    let stranger = who(42);
    assert_eq!(
        s.fund_escrow(&seller(), id, 100, 30),
        Err(EscrowError::Unauthorized(Role::Buyer))
    );
    assert_eq!(
        s.confirm_goods_shipped(&buyer(), id, 30),
        Err(EscrowError::Unauthorized(Role::Seller))
    );
    assert_eq!(
        s.open_dispute(&stranger, id, 30),
        Err(EscrowError::Unauthorized(Role::Participant))
    );
    assert_eq!(
        s.cancel_escrow(&stranger, id),
        Err(EscrowError::Unauthorized(Role::Participant))
    );
    assert_eq!(
        s.resolve_dispute(&buyer(), id, DisputeDecision::RefundBuyer, 30),
        Err(EscrowError::Unauthorized(Role::Admin))
    );
    assert_eq!(s.set_admin(&seller(), stranger.duplicate()), Err(EscrowError::Unauthorized(Role::Admin)));
    assert_eq!(
        s.set_off_chain_server(&seller(), stranger.duplicate()),
        Err(EscrowError::Unauthorized(Role::Admin))
    );
    assert_eq!(
        s.record_mpesa_transaction(&admin(), tx("T1", id, SettlementStatus::Completed, 30)),
        Err(EscrowError::Unauthorized(Role::Oracle))
    );
    let fresh = s.initiate_escrow(seller(), buyer(), 7, "x".to_string(), 31).unwrap();
    assert_eq!(s.agree_escrow(&buyer(), fresh, 32), Err(EscrowError::Unauthorized(Role::Seller)));
    assert_eq!(status_of(&s, id), EscrowStatus::Agreed);
    assert_eq!(status_of(&s, fresh), EscrowStatus::Created);
    assert_eq!(s.admin().bytes, admin().bytes);
    assert_eq!(s.off_chain_server().bytes, oracle().bytes);
    assert!(s.get_mpesa_transactions(id).unwrap().is_empty());
}

#[test]
fn missing_agreements_are_not_found() {
    let mut s = service();
    assert_eq!(s.agree_escrow(&seller(), 7, 1), Err(EscrowError::NotFound(7)));
    assert_eq!(s.fund_escrow(&buyer(), 7, 1, 1), Err(EscrowError::NotFound(7)));
    assert_eq!(s.cancel_escrow(&buyer(), 7), Err(EscrowError::NotFound(7)));
    assert_eq!(s.confirm_icp_transfer(7), Err(EscrowError::NotFound(7)));
    assert_eq!(
        s.record_mpesa_transaction(&oracle(), tx("T", 7, SettlementStatus::Completed, 1)),
        Err(EscrowError::NotFound(7))
    );
    assert_eq!(s.get_participants(7).unwrap_err(), EscrowError::NotFound(7));
    assert_eq!(s.get_mpesa_transactions(7).unwrap_err(), EscrowError::NotFound(7));
}

#[test]
fn funding_needs_balance_or_completed_settlement() {
    let mut s = service();
    let id = agreed(&mut s);
    assert_eq!(s.fund_escrow(&buyer(), id, 99, 30), Err(EscrowError::InsufficientFunds));
    assert_eq!(status_of(&s, id), EscrowStatus::Agreed);
    s.fund_escrow(&buyer(), id, 100, 31).unwrap();
    assert_eq!(s.get_escrow(id).unwrap().funded_at, Some(31));

    let other = agreed(&mut s);
    s.record_mpesa_transaction(&oracle(), tx("F1", other, SettlementStatus::Failed, 40)).unwrap();
    assert_eq!(s.fund_escrow(&buyer(), other, 0, 41), Err(EscrowError::InsufficientFunds));
}

#[test]
fn cancel_only_before_funding() {
    let mut s = service();
    let created = s.initiate_escrow(seller(), buyer(), 1, "c".to_string(), 1).unwrap();
    let agreed_id = agreed(&mut s);
    let funded = agreed(&mut s);
    s.fund_escrow(&buyer(), funded, 100, 30).unwrap();

    assert_eq!(s.cancel_escrow(&seller(), created), Ok(()));
    assert_eq!(s.get_escrow(created).unwrap_err(), EscrowError::NotFound(created));
    assert_eq!(s.cancel_escrow(&buyer(), agreed_id), Ok(()));
    assert_eq!(s.get_escrow(agreed_id).unwrap_err(), EscrowError::NotFound(agreed_id));
    assert_eq!(
        s.cancel_escrow(&buyer(), funded),
        Err(EscrowError::InvalidState(EscrowStatus::Funded))
    );
    assert_eq!(status_of(&s, funded), EscrowStatus::Funded);
    assert_eq!(s.cancel_escrow(&buyer(), created), Err(EscrowError::NotFound(created)));
}

#[test]
fn completed_settlement_funds_an_agreed_escrow() {
    let mut s = service();
    let id = agreed(&mut s);
    assert_eq!(
        s.record_mpesa_transaction(&oracle(), tx("M1", id, SettlementStatus::Completed, 77)),
        Ok(SettlementEffect::Funded)
    );
    let a = s.get_escrow(id).unwrap();
    assert_eq!(a.status, EscrowStatus::Funded);
    assert_eq!(a.funded_at, Some(77));
    assert_eq!(
        s.record_mpesa_transaction(&oracle(), tx("M2", id, SettlementStatus::Completed, 78)),
        Ok(SettlementEffect::RecordedOnly)
    );
    let a = s.get_escrow(id).unwrap();
    assert_eq!(a.status, EscrowStatus::Funded);
    assert_eq!(a.funded_at, Some(77));
    assert_eq!(s.fund_escrow(&buyer(), id, 100, 79), Err(EscrowError::InvalidState(EscrowStatus::Funded)));
}

#[test]
fn failed_settlement_is_kept_for_audit_only() {
    let mut s = service();
    let id = agreed(&mut s);
    assert_eq!(
        s.record_mpesa_transaction(&oracle(), tx("X1", id, SettlementStatus::Failed, 5)),
        Ok(SettlementEffect::RecordedOnly)
    );
    assert_eq!(status_of(&s, id), EscrowStatus::Agreed);
    let txs = s.get_mpesa_transactions(id).unwrap();
    assert_eq!(txs.len(), 1);
    assert_eq!(txs[0].transaction_id, "X1");
    assert_eq!(txs[0].status, SettlementStatus::Failed);
}

#[test]
fn duplicate_settlement_is_refused() {
    let mut s = service();
    let id = agreed(&mut s);
    s.record_mpesa_transaction(&oracle(), tx("D1", id, SettlementStatus::Failed, 5)).unwrap();
    s.record_mpesa_transaction(&oracle(), tx("D2", id, SettlementStatus::Failed, 6)).unwrap();
    assert_eq!(
        s.record_mpesa_transaction(&oracle(), tx("D1", id, SettlementStatus::Completed, 7)),
        Err(EscrowError::DuplicateTransaction("D1".to_string()))
    );
    let txs = s.get_mpesa_transactions(id).unwrap();
    let ids: Vec<&str> = txs.iter().map(|t| t.transaction_id.as_str()).collect();
    assert_eq!(ids, vec!["D1", "D2"]);
    assert_eq!(txs[0].timestamp, 5);
    assert_eq!(txs[0].status, SettlementStatus::Failed);
    assert_eq!(status_of(&s, id), EscrowStatus::Agreed);
    let other = agreed(&mut s);
    assert_eq!(
        s.record_mpesa_transaction(&oracle(), tx("D1", other, SettlementStatus::Completed, 8)),
        Ok(SettlementEffect::Funded)
    );
}

#[test]
fn settlement_ledger_only_grows() {
    let mut s = service();
    let id = agreed(&mut s);
    let mut seen: Vec<(String, u64)> = Vec::new();
    for (k, status) in [SettlementStatus::Failed, SettlementStatus::Completed, SettlementStatus::Failed]
        .into_iter()
        .enumerate()
    {
        let name = format!("L{}", k);
        s.record_mpesa_transaction(&oracle(), tx(&name, id, status, k as u64)).unwrap();
        seen.push((name, k as u64));
        let now: Vec<(String, u64)> = s
            .get_mpesa_transactions(id)
            .unwrap()
            .iter()
            .map(|t| (t.transaction_id.clone(), t.timestamp))
            .collect();
        assert_eq!(now, seen);
    }
    s.confirm_goods_shipped(&seller(), id, 9).unwrap();
    assert_eq!(s.get_mpesa_transactions(id).unwrap().len(), 3);
}

#[test]
fn listing_and_participants() {
    let mut s = service();
    let a = s.initiate_escrow(seller(), buyer(), 1, "a".to_string(), 1).unwrap();
    let b = s.initiate_escrow(buyer(), who(50), 2, "b".to_string(), 2).unwrap();
    let c = s.initiate_escrow(who(50), who(51), 3, "c".to_string(), 3).unwrap();
    let mine: Vec<u64> = s.list_my_escrows(&buyer()).iter().map(|e| e.escrow_id).collect();
    assert_eq!(mine, vec![a, b]);
    let theirs: Vec<u64> = s.list_my_escrows(&who(50)).iter().map(|e| e.escrow_id).collect();
    assert_eq!(theirs, vec![b, c]);
    assert!(s.list_my_escrows(&who(99)).is_empty());
    let (pb, ps) = s.get_participants(b).unwrap();
    assert_eq!(pb.bytes, who(50).bytes);
    assert_eq!(ps.bytes, buyer().bytes);
}

#[test]
fn admin_can_hand_over() {
    let mut s = service();
    s.set_admin(&admin(), who(60)).unwrap();
    assert_eq!(s.admin().bytes, who(60).bytes);
    assert_eq!(s.set_admin(&admin(), who(61)), Err(EscrowError::Unauthorized(Role::Admin)));
    s.set_off_chain_server(&who(60), who(62)).unwrap();
    assert_eq!(s.off_chain_server().bytes, who(62).bytes);
}

#[test]
fn transition_table() {
    let (created, agreed, funded, shipped, released, disputed, refunded) = (
        EscrowStatus::Created,
        EscrowStatus::Agreed,
        EscrowStatus::Funded,
        EscrowStatus::GoodsShipped,
        EscrowStatus::FundsReleased,
        EscrowStatus::Disputed,
        EscrowStatus::Refunded,
    );
    let all = [created, agreed, funded, shipped, released, disputed, refunded];
    let allowed = [
        (created, agreed),
        (agreed, funded),
        (funded, shipped),
        (shipped, released),
        (agreed, disputed),
        (funded, disputed),
        (shipped, disputed),
        (disputed, refunded),
        (disputed, released),
    ];
    for from in all {
        for to in all {
            assert_eq!(is_valid_transition(from, to), allowed.contains(&(from, to)));
        }
        assert_eq!(is_cancellable(from), from == created || from == agreed);
    }
    assert_eq!(resolved_status(DisputeDecision::RefundBuyer), refunded);
    assert_eq!(resolved_status(DisputeDecision::ReleaseFunds), released);
}
