//! The notices that the ledger hands to the host to publish.

use vstd::prelude::*;

verus! {

/// What the memo of the mint notice says.
pub const MINT_MEMO: &'static str = "Initial tokens supply is minted";

/// The notice that tokens were minted. There is one mint, at initialization.
#[derive(Clone, Debug)]
pub struct MintEvent {
    pub owner_id: String,
    pub amount: u128,
    pub memo: String,
}

impl MintEvent {
    /// The notice that `amount` tokens were minted for `owner_id`.
    pub open spec fn records(&self, owner_id: Seq<char>, amount: u128) -> bool {
        &&& self.owner_id@ == owner_id
        &&& self.amount == amount
        &&& self.memo@ == MINT_MEMO@
    }
}

/// The notice that tokens went from one account to another.
#[derive(Clone, Debug)]
pub struct TransferEvent {
    pub old_owner_id: String,
    pub new_owner_id: String,
    pub amount: u128,
    pub memo: Option<String>,
}

impl TransferEvent {
    /// The notice that `amount` tokens went from `sender` to `receiver`, with
    /// the caller's `memo`.
    pub open spec fn records(
        &self,
        sender: Seq<char>,
        receiver: Seq<char>,
        amount: u128,
        memo: Option<String>,
    ) -> bool {
        &&& self.old_owner_id@ == sender
        &&& self.new_owner_id@ == receiver
        &&& self.amount == amount
        &&& self.memo == memo
    }
}

} // verus!
