use vstd::prelude::*;
use crate::identity::Identity;
use crate::ledger::{any_completed, contains_tx_id};
use crate::machine::{is_cancellable, is_valid_transition, resolved_status};
use crate::model::{
    DisputeDecision, EscrowAgreement, EscrowError, EscrowStatus, MpesaTransaction, ReleaseMethod,
    Role, SettlementEffect, SettlementStatus, duplicate_transactions, transaction_views,
};
use crate::state::{
    ServiceState, agree_spec, cancel_spec, confirm_icp_spec, follows, fund_spec, initiate_spec,
    lemma_index_of, open_dispute_spec, party_of, receive_spec, record_spec, resolve_spec,
    set_admin_spec, set_oracle_spec, ship_spec,
};

verus! {

/// The escrow service: the store of agreements, the id counter, and the
/// administrator and settlement-oracle identities.
pub struct EscrowService {
    escrows: Vec<EscrowAgreement>,
    next_escrow_id: u64,
    admin: Identity,
    off_chain_server: Identity,
}

impl View for EscrowService {
    type V = ServiceState;

    closed spec fn view(&self) -> ServiceState {
        ServiceState {
            admin: self.admin@,
            oracle: self.off_chain_server@,
            next_id: self.next_escrow_id,
            escrows: self.escrows@.map_values(|a: EscrowAgreement| a@),
        }
    }
}

impl EscrowService {
    /// A service with no agreements, administered by `admin`. No oracle is
    /// authorized until the administrator names one: the oracle is the
    /// anonymous identity.
    pub fn new(admin: Identity) -> (r: EscrowService)
        ensures
            r@.wf(),
            r@.admin == admin@,
            r@.oracle == seq![4u8],
            r@.next_id == 1,
            r@.escrows.len() == 0,
    {
        let r = EscrowService {
            escrows: Vec::new(),
            next_escrow_id: 1,
            admin,
            off_chain_server: Identity::anonymous(),
        };
        assert(r@.escrows =~= Seq::empty());
        r
    }

    fn find_index(&self, id: u64) -> (r: Option<usize>)
        requires
            self@.wf(),
        ensures
            match r {
                None => !self@.has(id),
                Some(i) => self@.has(id) && i == self@.index_of(id) && i < self.escrows@.len(),
            },
    {
        let mut i: usize = 0;
        while i < self.escrows.len()
            invariant
                self@.wf(),
                0 <= i <= self.escrows@.len(),
                forall|j: int| 0 <= j < i ==> self.escrows@[j].escrow_id != id,
            decreases self.escrows@.len() - i,
        {
            if self.escrows[i].escrow_id == id {
                proof {
                    lemma_index_of(self@, i as int);
                }
                return Some(i);
            }
            i = i + 1;
        }
        proof {
            if self@.has(id) {
                let k = choose|k: int|
                    0 <= k < self@.escrows.len() && #[trigger] self@.escrows[k].escrow_id == id;
                assert(self.escrows@[k].escrow_id == id);
            }
        }
        None
    }

    /// Creates an agreement in status `Created` and returns its id. The id
    /// counter only grows, so an id is never handed out twice.
    pub fn initiate_escrow(
        &mut self,
        seller: Identity,
        buyer: Identity,
        amount_e8s: u64,
        terms: String,
        now: u64,
    ) -> (r: Result<u64, EscrowError>)
        requires
            old(self)@.wf(),
            old(self)@.next_id < u64::MAX,
        ensures
            final(self)@.wf(),
            follows(old(self)@, final(self)@, r, initiate_spec(old(self)@, seller@, buyer@, amount_e8s, terms@, now)),
    {
        if amount_e8s == 0 {
            return Err(EscrowError::InvalidAmount);
        }
        let escrow_id = self.next_escrow_id;
        let agreement = EscrowAgreement {
            escrow_id,
            buyer,
            seller,
            amount: amount_e8s,
            terms,
            status: EscrowStatus::Created,
            created_at: now,
            agreed_at: None,
            funded_at: None,
            shipped_at: None,
            released_at: None,
            disputed_at: None,
            resolved_at: None,
            release_method: None,
            mpesa_transactions: Vec::new(),
        };
        assert(transaction_views(agreement.mpesa_transactions@) =~= Seq::empty());
        self.escrows.push(agreement);
        self.next_escrow_id = escrow_id + 1;
        proof {
            let t = initiate_spec(old(self)@, seller@, buyer@, amount_e8s, terms@, now);
            assert(self@.escrows =~= old(self)@.escrows.push(agreement@));
        }
        Ok(escrow_id)
    }

    /// The seller accepts the terms.
    pub fn agree_escrow(&mut self, caller: &Identity, escrow_id: u64, now: u64) -> (r: Result<
        (),
        EscrowError,
    >)
        requires
            old(self)@.wf(),
        ensures
            final(self)@.wf(),
            follows(old(self)@, final(self)@, r, agree_spec(old(self)@, caller@, escrow_id, now)),
    {
        let i = match self.find_index(escrow_id) {
            None => return Err(EscrowError::NotFound(escrow_id)),
            Some(i) => i,
        };
        if !self.escrows[i].seller.same(caller) {
            return Err(EscrowError::Unauthorized(Role::Seller));
        }
        let status = self.escrows[i].status;
        if !is_valid_transition(status, EscrowStatus::Agreed) {
            return Err(EscrowError::InvalidState(status));
        }
        self.escrows[i].status = EscrowStatus::Agreed;
        self.escrows[i].agreed_at = Some(now);
        proof {
            assert(self@.escrows =~= old(self)@.escrows.update(i as int, self.escrows@[i as int]@));
        }
        Ok(())
    }

    /// The buyer funds an agreed escrow. `balance` is what the value-transfer
    /// ledger holds for the service; a completed settlement also covers the amount.
    pub fn fund_escrow(&mut self, caller: &Identity, escrow_id: u64, balance: u64, now: u64) -> (r:
        Result<(), EscrowError>)
        requires
            old(self)@.wf(),
        ensures
            final(self)@.wf(),
            follows(old(self)@, final(self)@, r, fund_spec(old(self)@, caller@, escrow_id, balance, now)),
    {
        let i = match self.find_index(escrow_id) {
            None => return Err(EscrowError::NotFound(escrow_id)),
            Some(i) => i,
        };
        if !self.escrows[i].buyer.same(caller) {
            return Err(EscrowError::Unauthorized(Role::Buyer));
        }
        let status = self.escrows[i].status;
        if !is_valid_transition(status, EscrowStatus::Funded) {
            return Err(EscrowError::InvalidState(status));
        }
        if balance < self.escrows[i].amount && !any_completed(&self.escrows[i].mpesa_transactions) {
            return Err(EscrowError::InsufficientFunds);
        }
        self.escrows[i].status = EscrowStatus::Funded;
        self.escrows[i].funded_at = Some(now);
        proof {
            assert(self@.escrows =~= old(self)@.escrows.update(i as int, self.escrows@[i as int]@));
        }
        Ok(())
    }

    /// The seller reports the goods shipped.
    pub fn confirm_goods_shipped(&mut self, caller: &Identity, escrow_id: u64, now: u64) -> (r:
        Result<(), EscrowError>)
        requires
            old(self)@.wf(),
        ensures
            final(self)@.wf(),
            follows(old(self)@, final(self)@, r, ship_spec(old(self)@, caller@, escrow_id, now)),
    {
        let i = match self.find_index(escrow_id) {
            None => return Err(EscrowError::NotFound(escrow_id)),
            Some(i) => i,
        };
        if !self.escrows[i].seller.same(caller) {
            return Err(EscrowError::Unauthorized(Role::Seller));
        }
        let status = self.escrows[i].status;
        if !is_valid_transition(status, EscrowStatus::GoodsShipped) {
            return Err(EscrowError::InvalidState(status));
        }
        self.escrows[i].status = EscrowStatus::GoodsShipped;
        self.escrows[i].shipped_at = Some(now);
        proof {
            assert(self@.escrows =~= old(self)@.escrows.update(i as int, self.escrows@[i as int]@));
        }
        Ok(())
    }

    /// The buyer confirms receipt, which releases the funds over `method`. The
    /// status is committed here, before any transfer is issued.
    pub fn confirm_goods_received(
        &mut self,
        caller: &Identity,
        escrow_id: u64,
        method: ReleaseMethod,
        now: u64,
    ) -> (r: Result<(), EscrowError>)
        requires
            old(self)@.wf(),
        ensures
            final(self)@.wf(),
            follows(old(self)@, final(self)@, r, receive_spec(old(self)@, caller@, escrow_id, method, now)),
    {
        let i = match self.find_index(escrow_id) {
            None => return Err(EscrowError::NotFound(escrow_id)),
            Some(i) => i,
        };
        if !self.escrows[i].buyer.same(caller) {
            return Err(EscrowError::Unauthorized(Role::Buyer));
        }
        let status = self.escrows[i].status;
        if status != EscrowStatus::GoodsShipped {
            return Err(EscrowError::InvalidState(status));
        }
        self.escrows[i].status = EscrowStatus::FundsReleased;
        self.escrows[i].released_at = Some(now);
        self.escrows[i].release_method = Some(method);
        proof {
            assert(self@.escrows =~= old(self)@.escrows.update(i as int, self.escrows@[i as int]@));
        }
        Ok(())
    }

    /// Acknowledges that released funds went out over the native ledger. It is
    /// idempotent and never moves the status.
    pub fn confirm_icp_transfer(&self, escrow_id: u64) -> (r: Result<(), EscrowError>)
        requires
            self@.wf(),
        ensures
            follows(self@, self@, r, confirm_icp_spec(self@, escrow_id)),
    {
        let i = match self.find_index(escrow_id) {
            None => return Err(EscrowError::NotFound(escrow_id)),
            Some(i) => i,
        };
        match self.escrows[i].release_method {
            Some(ReleaseMethod::Icp) => {},
            _ => return Err(EscrowError::ReleaseMethodMismatch),
        }
        let status = self.escrows[i].status;
        if status != EscrowStatus::FundsReleased {
            return Err(EscrowError::InvalidState(status));
        }
        Ok(())
    }

    /// The buyer or the seller opens a dispute on an agreed, funded or shipped escrow.
    pub fn open_dispute(&mut self, caller: &Identity, escrow_id: u64, now: u64) -> (r: Result<
        (),
        EscrowError,
    >)
        requires
            old(self)@.wf(),
        ensures
            final(self)@.wf(),
            follows(old(self)@, final(self)@, r, open_dispute_spec(old(self)@, caller@, escrow_id, now)),
    {
        let i = match self.find_index(escrow_id) {
            None => return Err(EscrowError::NotFound(escrow_id)),
            Some(i) => i,
        };
        if !self.escrows[i].buyer.same(caller) && !self.escrows[i].seller.same(caller) {
            return Err(EscrowError::Unauthorized(Role::Participant));
        }
        let status = self.escrows[i].status;
        if !is_valid_transition(status, EscrowStatus::Disputed) {
            return Err(EscrowError::InvalidState(status));
        }
        self.escrows[i].status = EscrowStatus::Disputed;
        self.escrows[i].disputed_at = Some(now);
        proof {
            assert(self@.escrows =~= old(self)@.escrows.update(i as int, self.escrows@[i as int]@));
        }
        Ok(())
    }

    /// The administrator settles a dispute by refunding the buyer or releasing
    /// the funds to the seller.
    pub fn resolve_dispute(
        &mut self,
        caller: &Identity,
        escrow_id: u64,
        decision: DisputeDecision,
        now: u64,
    ) -> (r: Result<(), EscrowError>)
        requires
            old(self)@.wf(),
        ensures
            final(self)@.wf(),
            follows(old(self)@, final(self)@, r, resolve_spec(old(self)@, caller@, escrow_id, decision, now)),
    {
        if !self.admin.same(caller) {
            return Err(EscrowError::Unauthorized(Role::Admin));
        }
        let i = match self.find_index(escrow_id) {
            None => return Err(EscrowError::NotFound(escrow_id)),
            Some(i) => i,
        };
        let status = self.escrows[i].status;
        if status != EscrowStatus::Disputed {
            return Err(EscrowError::InvalidState(status));
        }
        self.escrows[i].status = resolved_status(decision);
        self.escrows[i].resolved_at = Some(now);
        proof {
            assert(self@.escrows =~= old(self)@.escrows.update(i as int, self.escrows@[i as int]@));
        }
        Ok(())
    }

    /// The buyer or the seller withdraws from an escrow on which no funds have
    /// moved; the agreement is erased.
    pub fn cancel_escrow(&mut self, caller: &Identity, escrow_id: u64) -> (r: Result<(), EscrowError>)
        requires
            old(self)@.wf(),
        ensures
            final(self)@.wf(),
            follows(old(self)@, final(self)@, r, cancel_spec(old(self)@, caller@, escrow_id)),
    {
        let i = match self.find_index(escrow_id) {
            None => return Err(EscrowError::NotFound(escrow_id)),
            Some(i) => i,
        };
        if !self.escrows[i].buyer.same(caller) && !self.escrows[i].seller.same(caller) {
            return Err(EscrowError::Unauthorized(Role::Participant));
        }
        let status = self.escrows[i].status;
        if !is_cancellable(status) {
            return Err(EscrowError::InvalidState(status));
        }
        self.escrows.remove(i);
        proof {
            assert(self@.escrows =~= old(self)@.escrows.remove(i as int));
            let s = self@.escrows;
            assert forall|j: int, k: int| 0 <= j < k < s.len() implies #[trigger] s[j].escrow_id
                < #[trigger] s[k].escrow_id by {
                let jj = if j < i { j } else { j + 1 };
                let kk = if k < i { k } else { k + 1 };
                assert(s[j] == old(self)@.escrows[jj]);
                assert(s[k] == old(self)@.escrows[kk]);
            }
        }
        Ok(())
    }

    /// The oracle appends a settlement to its agreement's ledger. A completed
    /// payment funds an agreed escrow; otherwise the status is left as it was.
    pub fn record_mpesa_transaction(&mut self, caller: &Identity, transaction: MpesaTransaction) -> (r:
        Result<SettlementEffect, EscrowError>)
        requires
            old(self)@.wf(),
        ensures
            final(self)@.wf(),
            follows(old(self)@, final(self)@, r, record_spec(old(self)@, caller@, transaction)),
    {
        if !self.off_chain_server.same(caller) {
            return Err(EscrowError::Unauthorized(Role::Oracle));
        }
        let escrow_id = transaction.escrow_id;
        let i = match self.find_index(escrow_id) {
            None => return Err(EscrowError::NotFound(escrow_id)),
            Some(i) => i,
        };
        if contains_tx_id(&self.escrows[i].mpesa_transactions, &transaction.transaction_id) {
            return Err(EscrowError::DuplicateTransaction(transaction.transaction_id));
        }
        let ghost tx = transaction;
        let completed = transaction.status == SettlementStatus::Completed;
        let timestamp = transaction.timestamp;
        self.escrows[i].mpesa_transactions.push(transaction);
        let effect = if completed && self.escrows[i].status == EscrowStatus::Agreed {
            self.escrows[i].status = EscrowStatus::Funded;
            self.escrows[i].funded_at = Some(timestamp);
            SettlementEffect::Funded
        } else {
            SettlementEffect::RecordedOnly
        };
        proof {
            let txs = self.escrows@[i as int].mpesa_transactions@;
            let old_txs = old(self).escrows@[i as int].mpesa_transactions@;
            assert(transaction_views(txs) =~= transaction_views(old_txs).push(tx@));
            assert(self@.escrows =~= old(self)@.escrows.update(i as int, self.escrows@[i as int]@));
        }
        Ok(effect)
    }

    /// The administrator hands the role to `new_admin`.
    pub fn set_admin(&mut self, caller: &Identity, new_admin: Identity) -> (r: Result<(), EscrowError>)
        requires
            old(self)@.wf(),
        ensures
            final(self)@.wf(),
            follows(old(self)@, final(self)@, r, set_admin_spec(old(self)@, caller@, new_admin@)),
    {
        if !self.admin.same(caller) {
            return Err(EscrowError::Unauthorized(Role::Admin));
        }
        self.admin = new_admin;
        Ok(())
    }

    /// The administrator names the settlement oracle.
    pub fn set_off_chain_server(&mut self, caller: &Identity, server: Identity) -> (r: Result<
        (),
        EscrowError,
    >)
        requires
            old(self)@.wf(),
        ensures
            final(self)@.wf(),
            follows(old(self)@, final(self)@, r, set_oracle_spec(old(self)@, caller@, server@)),
    {
        if !self.admin.same(caller) {
            return Err(EscrowError::Unauthorized(Role::Admin));
        }
        self.off_chain_server = server;
        Ok(())
    }

    /// A copy of the agreement with this id.
    pub fn get_escrow(&self, escrow_id: u64) -> (r: Result<EscrowAgreement, EscrowError>)
        requires
            self@.wf(),
        ensures
            match r {
                Ok(a) => self@.has(escrow_id) && a@ == self@.get(escrow_id),
                Err(e) => !self@.has(escrow_id) && e == EscrowError::NotFound(escrow_id),
            },
    {
        match self.find_index(escrow_id) {
            None => Err(EscrowError::NotFound(escrow_id)),
            Some(i) => Ok(self.escrows[i].duplicate()),
        }
    }

    /// Copies of the agreements in which `caller` is the buyer or the seller,
    /// oldest first.
    pub fn list_my_escrows(&self, caller: &Identity) -> (r: Vec<EscrowAgreement>)
        ensures
            r@.map_values(|a: EscrowAgreement| a@) == self@.involving(caller@),
    {
        let ghost who = caller@;
        let ghost pred = party_of(who);
        let ghost all = self@.escrows;
        let mut r: Vec<EscrowAgreement> = Vec::new();
        let mut i: usize = 0;
        while i < self.escrows.len()
            invariant
                0 <= i <= self.escrows@.len(),
                all == self@.escrows,
                who == caller@,
                pred == party_of(who),
                all.len() == self.escrows@.len(),
                r@.map_values(|a: EscrowAgreement| a@) == all.subrange(0, i as int).filter(pred),
            decreases self.escrows@.len() - i,
        {
            let ghost before = r@;
            let involved = self.escrows[i].buyer.same(caller) || self.escrows[i].seller.same(caller);
            if involved {
                r.push(self.escrows[i].duplicate());
            }
            proof {
                assert(all[i as int] == self.escrows@[i as int]@);
                assert(involved == pred(all[i as int]));
                let prefix = all.subrange(0, i + 1);
                assert(prefix.drop_last() =~= all.subrange(0, i as int));
                assert(prefix.last() == all[i as int]);
                reveal(Seq::filter);
                assert(prefix.filter(pred) == {
                    let sub = prefix.drop_last().filter(pred);
                    if pred(prefix.last()) { sub.push(prefix.last()) } else { sub }
                });
                if involved {
                    assert(r@.map_values(|a: EscrowAgreement| a@) =~= before.map_values(
                        |a: EscrowAgreement| a@,
                    ).push(all[i as int]));
                } else {
                    assert(r@ == before);
                }
            }
            i = i + 1;
        }
        assert(all.subrange(0, i as int) =~= all);
        r
    }

    /// Copies of the settlements recorded for this agreement, in the order they came.
    pub fn get_mpesa_transactions(&self, escrow_id: u64) -> (r: Result<
        Vec<MpesaTransaction>,
        EscrowError,
    >)
        requires
            self@.wf(),
        ensures
            match r {
                Ok(txs) => self@.has(escrow_id) && transaction_views(txs@) == self@.get(
                    escrow_id,
                ).mpesa_transactions,
                Err(e) => !self@.has(escrow_id) && e == EscrowError::NotFound(escrow_id),
            },
    {
        match self.find_index(escrow_id) {
            None => Err(EscrowError::NotFound(escrow_id)),
            Some(i) => Ok(duplicate_transactions(&self.escrows[i].mpesa_transactions)),
        }
    }

    /// The buyer and the seller of this agreement, in that order.
    pub fn get_participants(&self, escrow_id: u64) -> (r: Result<(Identity, Identity), EscrowError>)
        requires
            self@.wf(),
        ensures
            match r {
                Ok((buyer, seller)) => self@.has(escrow_id) && buyer@ == self@.get(escrow_id).buyer
                    && seller@ == self@.get(escrow_id).seller,
                Err(e) => !self@.has(escrow_id) && e == EscrowError::NotFound(escrow_id),
            },
    {
        match self.find_index(escrow_id) {
            None => Err(EscrowError::NotFound(escrow_id)),
            Some(i) => Ok((self.escrows[i].buyer.duplicate(), self.escrows[i].seller.duplicate())),
        }
    }

    pub fn admin(&self) -> (r: &Identity)
        ensures
            r@ == self@.admin,
    {
        &self.admin
    }

    pub fn off_chain_server(&self) -> (r: &Identity)
        ensures
            r@ == self@.oracle,
    {
        &self.off_chain_server
    }

    /// The id the next agreement will get.
    pub fn next_escrow_id(&self) -> (r: u64)
        ensures
            r == self@.next_id,
    {
        self.next_escrow_id
    }
}

} // verus!
