use vstd::prelude::*;
use crate::identity::Identity;

verus! {

/// Where an agreement stands. Cancellation removes an agreement instead of tagging it.
#[derive(PartialEq, Eq, Structural, Clone, Copy, Debug)]
pub enum EscrowStatus {
    Created,
    Agreed,
    Funded,
    GoodsShipped,
    FundsReleased,
    Disputed,
    Refunded,
}

/// The rail over which the buyer asked for the funds to be released.
#[derive(PartialEq, Eq, Structural, Clone, Copy, Debug)]
pub enum ReleaseMethod {
    Mpesa,
    Icp,
}

/// The administrator's ruling on a dispute.
#[derive(PartialEq, Eq, Structural, Clone, Copy, Debug)]
pub enum DisputeDecision {
    RefundBuyer,
    ReleaseFunds,
}

/// The outcome of an off-platform payment, as the oracle reports it.
#[derive(PartialEq, Eq, Structural, Clone, Copy, Debug)]
pub enum SettlementStatus {
    Completed,
    Failed,
}

/// The role an operation demands of its caller.
#[derive(PartialEq, Eq, Structural, Clone, Copy, Debug)]
pub enum Role {
    Admin,
    Oracle,
    Buyer,
    Seller,
    /// The buyer or the seller of the agreement.
    Participant,
}

/// What recording a settlement did to its agreement.
#[derive(PartialEq, Eq, Structural, Clone, Copy, Debug)]
pub enum SettlementEffect {
    /// The settlement completed the funding of an agreed escrow.
    Funded,
    /// The settlement was appended; the status was left as it was.
    RecordedOnly,
}

#[derive(PartialEq, Eq, Debug)]
pub enum EscrowError {
    Unauthorized(Role),
    NotFound(u64),
    /// The agreement's current status does not admit the operation.
    InvalidState(EscrowStatus),
    InvalidAmount,
    /// Neither the ledger balance nor a completed settlement covers the amount.
    InsufficientFunds,
    DuplicateTransaction(String),
    /// The released funds were not set to go out over the native ledger.
    ReleaseMethodMismatch,
}

/// A payment event confirmed outside the platform's ledger.
#[derive(Debug)]
pub struct MpesaTransaction {
    pub transaction_id: String,
    pub escrow_id: u64,
    pub buyer_principal: Identity,
    pub seller_principal: Identity,
    pub amount_e8s: u64,
    pub timestamp: u64,
    pub status: SettlementStatus,
    pub receipt_number: String,
    pub payer_phone: String,
    pub receiver_phone: String,
}

pub struct TransactionView {
    pub transaction_id: Seq<char>,
    pub escrow_id: u64,
    pub buyer_principal: Seq<u8>,
    pub seller_principal: Seq<u8>,
    pub amount_e8s: u64,
    pub timestamp: u64,
    pub status: SettlementStatus,
    pub receipt_number: Seq<char>,
    pub payer_phone: Seq<char>,
    pub receiver_phone: Seq<char>,
}

impl View for MpesaTransaction {
    type V = TransactionView;

    open spec fn view(&self) -> TransactionView {
        TransactionView {
            transaction_id: self.transaction_id@,
            escrow_id: self.escrow_id,
            buyer_principal: self.buyer_principal@,
            seller_principal: self.seller_principal@,
            amount_e8s: self.amount_e8s,
            timestamp: self.timestamp,
            status: self.status,
            receipt_number: self.receipt_number@,
            payer_phone: self.payer_phone@,
            receiver_phone: self.receiver_phone@,
        }
    }
}

impl MpesaTransaction {
    pub fn duplicate(&self) -> (r: MpesaTransaction)
        ensures
            r@ == self@,
    {
        MpesaTransaction {
            transaction_id: self.transaction_id.clone(),
            escrow_id: self.escrow_id,
            buyer_principal: self.buyer_principal.duplicate(),
            seller_principal: self.seller_principal.duplicate(),
            amount_e8s: self.amount_e8s,
            timestamp: self.timestamp,
            status: self.status,
            receipt_number: self.receipt_number.clone(),
            payer_phone: self.payer_phone.clone(),
            receiver_phone: self.receiver_phone.clone(),
        }
    }
}

/// The views of a sequence of transactions, one for one.
pub open spec fn transaction_views(s: Seq<MpesaTransaction>) -> Seq<TransactionView> {
    s.map_values(|t: MpesaTransaction| t@)
}

pub fn duplicate_transactions(v: &Vec<MpesaTransaction>) -> (r: Vec<MpesaTransaction>)
    ensures
        transaction_views(r@) == transaction_views(v@),
{
    let mut r: Vec<MpesaTransaction> = Vec::new();
    let mut i: usize = 0;
    while i < v.len()
        invariant
            0 <= i <= v@.len(),
            r@.len() == i,
            forall|j: int| 0 <= j < i ==> r@[j]@ == v@[j]@,
        decreases v@.len() - i,
    {
        r.push(v[i].duplicate());
        i = i + 1;
    }
    assert(transaction_views(r@) =~= transaction_views(v@));
    r
}

/// An escrow agreement between a buyer and a seller.
#[derive(Debug)]
pub struct EscrowAgreement {
    pub escrow_id: u64,
    pub buyer: Identity,
    pub seller: Identity,
    pub amount: u64,
    pub terms: String,
    pub status: EscrowStatus,
    pub created_at: u64,
    pub agreed_at: Option<u64>,
    pub funded_at: Option<u64>,
    pub shipped_at: Option<u64>,
    pub released_at: Option<u64>,
    pub disputed_at: Option<u64>,
    pub resolved_at: Option<u64>,
    pub release_method: Option<ReleaseMethod>,
    pub mpesa_transactions: Vec<MpesaTransaction>,
}

pub struct AgreementView {
    pub escrow_id: u64,
    pub buyer: Seq<u8>,
    pub seller: Seq<u8>,
    pub amount: u64,
    pub terms: Seq<char>,
    pub status: EscrowStatus,
    pub created_at: u64,
    pub agreed_at: Option<u64>,
    pub funded_at: Option<u64>,
    pub shipped_at: Option<u64>,
    pub released_at: Option<u64>,
    pub disputed_at: Option<u64>,
    pub resolved_at: Option<u64>,
    pub release_method: Option<ReleaseMethod>,
    pub mpesa_transactions: Seq<TransactionView>,
}

impl View for EscrowAgreement {
    type V = AgreementView;

    open spec fn view(&self) -> AgreementView {
        AgreementView {
            escrow_id: self.escrow_id,
            buyer: self.buyer@,
            seller: self.seller@,
            amount: self.amount,
            terms: self.terms@,
            status: self.status,
            created_at: self.created_at,
            agreed_at: self.agreed_at,
            funded_at: self.funded_at,
            shipped_at: self.shipped_at,
            released_at: self.released_at,
            disputed_at: self.disputed_at,
            resolved_at: self.resolved_at,
            release_method: self.release_method,
            mpesa_transactions: transaction_views(self.mpesa_transactions@),
        }
    }
}

impl EscrowAgreement {
    /// Whether `who` is the buyer or the seller.
    pub open spec fn involves(&self, who: Seq<u8>) -> bool {
        self.buyer@ == who || self.seller@ == who
    }

    pub fn duplicate(&self) -> (r: EscrowAgreement)
        ensures
            r@ == self@,
    {
        EscrowAgreement {
            escrow_id: self.escrow_id,
            buyer: self.buyer.duplicate(),
            seller: self.seller.duplicate(),
            amount: self.amount,
            terms: self.terms.clone(),
            status: self.status,
            created_at: self.created_at,
            agreed_at: self.agreed_at,
            funded_at: self.funded_at,
            shipped_at: self.shipped_at,
            released_at: self.released_at,
            disputed_at: self.disputed_at,
            resolved_at: self.resolved_at,
            release_method: self.release_method,
            mpesa_transactions: duplicate_transactions(&self.mpesa_transactions),
        }
    }
}

} // verus!
