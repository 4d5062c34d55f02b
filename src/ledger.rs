use vstd::prelude::*;
use crate::model::{MpesaTransaction, SettlementStatus, transaction_views};
use crate::state::{has_completed, has_tx_id};

verus! {

/// Whether a settlement with external id `tx_id` is among `txs`.
pub fn contains_tx_id(txs: &Vec<MpesaTransaction>, tx_id: &String) -> (r: bool)
    ensures
        r == has_tx_id(transaction_views(txs@), tx_id@),
{
    let mut i: usize = 0;
    while i < txs.len()
        invariant
            0 <= i <= txs@.len(),
            forall|k: int| 0 <= k < i ==> txs@[k].transaction_id@ != tx_id@,
        decreases txs@.len() - i,
    {
        if txs[i].transaction_id == *tx_id {
            assert(transaction_views(txs@)[i as int].transaction_id == tx_id@);
            return true;
        }
        i = i + 1;
    }
    proof {
        let views = transaction_views(txs@);
        assert forall|k: int| 0 <= k < views.len() implies #[trigger] views[k].transaction_id
            != tx_id@ by {
            assert(txs@[k].transaction_id@ != tx_id@);
        }
    }
    false
}

/// Whether some settlement among `txs` completed.
pub fn any_completed(txs: &Vec<MpesaTransaction>) -> (r: bool)
    ensures
        r == has_completed(transaction_views(txs@)),
{
    let mut i: usize = 0;
    while i < txs.len()
        invariant
            0 <= i <= txs@.len(),
            forall|k: int| 0 <= k < i ==> txs@[k].status != SettlementStatus::Completed,
        decreases txs@.len() - i,
    {
        if txs[i].status == SettlementStatus::Completed {
            assert(transaction_views(txs@)[i as int].status == SettlementStatus::Completed);
            return true;
        }
        i = i + 1;
    }
    proof {
        let views = transaction_views(txs@);
        assert forall|k: int| 0 <= k < views.len() implies #[trigger] views[k].status
            != SettlementStatus::Completed by {
            assert(txs@[k].status != SettlementStatus::Completed);
        }
    }
    false
}

} // verus!
