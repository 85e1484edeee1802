//! The balance ledger and its account registry.
//!
//! An account has to be registered before it can hold tokens, and whoever
//! registers it pays for the storage that its record occupies. The balances of
//! the registered accounts always add up to the total supply.

use vstd::prelude::*;

use crate::account::{is_valid_account, key_at, same_text, valid_account_id};
use crate::error::Error;
use crate::sum::{
    lemma_sum_bounds_value, lemma_sum_insert_new, lemma_sum_remove, lemma_sum_update, sum_values,
};

pub mod entries;
pub mod laws;
pub mod model;
pub mod state;

use entries::{
    distinct_keys, distinct_keys_upto, entries_map, lemma_entries_map, lemma_entries_map_remove,
    lemma_entries_sum_monotone,
};
pub use model::{
    LedgerView, Operation, RegistrationOutcome, StorageBalanceBounds, UnregistrationOutcome,
};
pub use state::LedgerState;

verus! {

/// The balance ledger: registered accounts and their balances.
pub struct Ledger {
    ids: Vec<String>,
    balances: Vec<u128>,
    total_supply: u128,
    account_storage_usage: u64,
    storage_price_per_byte: u128,
}

impl View for Ledger {
    type V = LedgerView;

    closed spec fn view(&self) -> LedgerView {
        LedgerView {
            balances: entries_map(self.ids@, self.balances@, self.ids@.len()),
            total_supply: self.total_supply as nat,
            account_storage_usage: self.account_storage_usage as nat,
            storage_price_per_byte: self.storage_price_per_byte as nat,
        }
    }
}

impl Ledger {
    /// The ledger's invariant: every account is listed once and has a valid
    /// identifier, the balances add up to the total supply, and the price of
    /// a registration fits into 128 bits.
    pub closed spec fn wf(&self) -> bool {
        &&& self.ids@.len() == self.balances@.len()
        &&& distinct_keys(self.ids@)
        &&& forall|i: int|
            0 <= i < self.ids@.len() ==> valid_account_id(#[trigger] key_at(self.ids@, i))
        &&& sum_values(self@.balances) == self.total_supply
        &&& self.account_storage_usage * self.storage_price_per_byte <= u128::MAX
    }

    /// What the invariant means for the ledger's view. It holds conservation:
    /// in every ledger, which a constructor made and the operations have
    /// kept, the balances of the registered accounts add up to the total
    /// supply, so that no account holds more than that.
    pub proof fn lemma_wf(&self)
        requires
            self.wf(),
        ensures
            self@.conserved(),
            self@.total_supply <= u128::MAX,
            self@.registration_price() <= u128::MAX,
            forall|a: Seq<char>| self@.is_registered(a) ==> valid_account_id(a),
            forall|a: Seq<char>| #[trigger] self@.balance(a) <= self@.total_supply,
    {
        lemma_entries_map(self.ids@, self.balances@, self.ids@.len());
        assert forall|a: Seq<char>| self@.is_registered(a) implies valid_account_id(a) by {
            let i = choose|i: int| 0 <= i < self.ids@.len() && #[trigger] key_at(self.ids@, i) == a;
            assert(valid_account_id(key_at(self.ids@, i)));
        }
        assert forall|a: Seq<char>| #[trigger] self@.balance(a) <= self@.total_supply by {
            if self@.is_registered(a) {
                lemma_sum_bounds_value(self@.balances, a);
            }
        }
    }

    /// An empty ledger in which a registration occupies `account_storage_usage`
    /// bytes at `storage_price_per_byte` each. Fails with `Overflow` when the
    /// price of a registration does not fit into 128 bits.
    pub fn new(account_storage_usage: u64, storage_price_per_byte: u128) -> (r: Result<
        Ledger,
        Error,
    >)
        ensures
            account_storage_usage * storage_price_per_byte > u128::MAX ==> r == Err::<
                Ledger,
                Error,
            >(Error::Overflow),
            account_storage_usage * storage_price_per_byte <= u128::MAX ==> r is Ok && r->Ok_0.wf()
                && r->Ok_0@ == (LedgerView {
                balances: Map::empty(),
                total_supply: 0,
                account_storage_usage: account_storage_usage as nat,
                storage_price_per_byte: storage_price_per_byte as nat,
            }),
    {
        match (account_storage_usage as u128).checked_mul(storage_price_per_byte) {
            None => Err(Error::Overflow),
            Some(_) => {
                let ledger = Ledger {
                    ids: Vec::new(),
                    balances: Vec::new(),
                    total_supply: 0,
                    account_storage_usage,
                    storage_price_per_byte,
                };
                assert(ledger@.balances =~= Map::empty());
                Ok(ledger)
            },
        }
    }

    /// The position of `account`, if it is registered.
    fn find(&self, account: &str) -> (r: Option<usize>)
        requires
            self.wf(),
        ensures
            match r {
                Some(i) => i < self.ids@.len() && key_at(self.ids@, i as int) == account@,
                None => !self@.is_registered(account@),
            },
            r is Some <==> self@.is_registered(account@),
    {
        proof {
            lemma_entries_map(self.ids@, self.balances@, self.ids@.len());
        }
        let n: usize = self.ids.len();
        let mut i: usize = 0;
        while i < n
            invariant
                i <= n,
                n == self.ids@.len(),
                self.wf(),
                forall|j: int| 0 <= j < i ==> #[trigger] key_at(self.ids@, j) != account@,
            decreases n - i,
        {
            if same_text(self.ids[i].as_str(), account) {
                proof {
                    lemma_entries_map(self.ids@, self.balances@, self.ids@.len());
                    assert(key_at(self.ids@, i as int) == account@);
                }
                return Some(i);
            }
            i += 1;
        }
        None
    }

    /// Whether `account` is registered.
    pub fn registered(&self, account: &str) -> (r: bool)
        requires
            self.wf(),
        ensures
            r == self@.is_registered(account@),
    {
        self.find(account).is_some()
    }

    /// What `account` holds: nothing, if it is not registered.
    pub fn balance_of(&self, account: &str) -> (r: u128)
        requires
            self.wf(),
        ensures
            r == self@.balance(account@),
    {
        proof {
            lemma_entries_map(self.ids@, self.balances@, self.ids@.len());
        }
        match self.find(account) {
            Some(i) => self.balances[i],
            None => 0,
        }
    }

    /// The number of tokens in circulation.
    pub fn total_supply(&self) -> (r: u128)
        ensures
            r == self@.total_supply,
    {
        self.total_supply
    }

    /// The price of the storage that one registration occupies.
    pub fn storage_price(&self) -> (r: u128)
        requires
            self.wf(),
        ensures
            r == self@.registration_price(),
    {
        (self.account_storage_usage as u128) * self.storage_price_per_byte
    }

    /// The deposit that a registration takes: exactly the price of its storage.
    pub fn storage_balance_bounds(&self) -> (r: StorageBalanceBounds)
        requires
            self.wf(),
        ensures
            r.min == self@.registration_price(),
            r.max == Some(r.min),
    {
        let price: u128 = self.storage_price();
        StorageBalanceBounds { min: price, max: Some(price) }
    }

    /// The bytes of storage that the registered accounts occupy.
    pub fn storage_usage(&self) -> (r: u128)
        requires
            self.wf(),
        ensures
            r == self@.storage_used(),
    {
        let n: usize = self.ids.len();
        proof {
            lemma_entries_map(self.ids@, self.balances@, self.ids@.len());
            assert(n * self.account_storage_usage <= u128::MAX) by (nonlinear_arith)
                requires
                    0 <= n <= 0xffff_ffff_ffff_ffff,
                    0 <= self.account_storage_usage <= 0xffff_ffff_ffff_ffff,
            ;
        }
        (n as u128) * (self.account_storage_usage as u128)
    }

    /// Registers `account` against a deposit for its storage.
    ///
    /// An account that is registered already stays as it is, and the whole
    /// deposit goes back. Otherwise the identifier must be valid and the
    /// deposit must cover the price of the record's storage; what is left of
    /// it goes back. The new account holds nothing.
    pub fn register(&mut self, account: &str, attached_deposit: u128) -> (r: Result<
        RegistrationOutcome,
        Error,
    >)
        requires
            old(self).wf(),
        ensures
            final(self).wf(),
            r == old(self)@.register_result(account@, attached_deposit),
            final(self)@ == old(self)@.after(
                Operation::Register { account: account@, attached_deposit },
            ),
            old(self)@.is_registered(account@) ==> r == Ok::<RegistrationOutcome, Error>(
                RegistrationOutcome {
                    newly_registered: false,
                    charged: 0,
                    refund: attached_deposit,
                },
            ) && final(self)@ == old(self)@,
            r is Ok && r->Ok_0.newly_registered ==> final(self)@ == (LedgerView {
                balances: old(self)@.balances.insert(account@, 0),
                ..old(self)@
            }),
            !(r is Ok && r->Ok_0.newly_registered) ==> final(self)@ == old(self)@,
            r is Ok ==> r->Ok_0.charged == (final(self)@.storage_used() - old(self)@.storage_used())
                * old(self)@.storage_price_per_byte,
    {
        if self.registered(account) {
            return Ok(
                RegistrationOutcome {
                    newly_registered: false,
                    charged: 0,
                    refund: attached_deposit,
                },
            );
        }
        if !is_valid_account(account) {
            return Err(Error::InvalidAccount);
        }
        let price: u128 = self.storage_price();
        if attached_deposit < price {
            return Err(Error::InsufficientDeposit);
        }
        self.open_account(account);
        proof {
            let n = old(self)@.balances.dom().len();
            let u = old(self)@.account_storage_usage;
            assert((n + 1) * u - n * u == u) by (nonlinear_arith);
        }
        Ok(
            RegistrationOutcome {
                newly_registered: true,
                charged: price,
                refund: attached_deposit - price,
            },
        )
    }

    /// Adds the record of `account`, which holds nothing.
    pub(crate) fn open_account(&mut self, account: &str)
        requires
            old(self).wf(),
            !old(self)@.is_registered(account@),
            valid_account_id(account@),
        ensures
            final(self).wf(),
            final(self)@ == (LedgerView {
                balances: old(self)@.balances.insert(account@, 0),
                ..old(self)@
            }),
            final(self)@.balances.dom().len() == old(self)@.balances.dom().len() + 1,
    {
        let ghost ids0 = self.ids@;
        let ghost bal0 = self.balances@;
        let ghost n0 = ids0.len();
        self.ids.push(account.to_owned());
        self.balances.push(0);
        proof {
            let ids1 = self.ids@;
            let bal1 = self.balances@;
            lemma_entries_map(ids0, bal0, n0);
            assert forall|i: int| 0 <= i < n0 implies key_at(ids1, i) == key_at(ids0, i) by {}
            assert(key_at(ids1, n0 as int) == account@);
            assert(distinct_keys(ids1)) by {
                assert forall|i: int, j: int| 0 <= i < j < ids1.len() implies #[trigger] key_at(
                    ids1,
                    i,
                ) != #[trigger] key_at(ids1, j) by {
                    if j < n0 {
                        assert(key_at(ids0, i) != key_at(ids0, j));
                    } else {
                        assert(key_at(ids0, i) == key_at(ids1, i));
                    }
                }
            }
            lemma_entries_map(ids1, bal1, n0);
            assert(entries_map(ids1, bal1, n0) =~= entries_map(ids0, bal0, n0)) by {
                assert forall|k: Seq<char>| entries_map(ids1, bal1, n0).dom().contains(k)
                    <==> entries_map(ids0, bal0, n0).dom().contains(k) by {
                    if entries_map(ids1, bal1, n0).dom().contains(k) {
                        let i = choose|i: int| 0 <= i < n0 && #[trigger] key_at(ids1, i) == k;
                        assert(key_at(ids0, i) == k);
                    }
                    if entries_map(ids0, bal0, n0).dom().contains(k) {
                        let i = choose|i: int| 0 <= i < n0 && #[trigger] key_at(ids0, i) == k;
                        assert(key_at(ids1, i) == k);
                    }
                }
                assert forall|k: Seq<char>| entries_map(ids0, bal0, n0).dom().contains(k) implies
                    entries_map(ids1, bal1, n0)[k] == entries_map(ids0, bal0, n0)[k] by {
                    let i = choose|i: int| 0 <= i < n0 && #[trigger] key_at(ids0, i) == k;
                    assert(key_at(ids1, i) == k);
                    assert(bal1[i] == bal0[i]);
                }
            }
            assert(self@.balances == old(self)@.balances.insert(account@, 0));
            lemma_sum_insert_new(old(self)@.balances, account@, 0);
            lemma_entries_map(ids1, bal1, ids1.len());
            assert forall|i: int| 0 <= i < ids1.len() implies valid_account_id(
                #[trigger] key_at(ids1, i),
            ) by {
                if i < n0 {
                    assert(valid_account_id(key_at(ids0, i)));
                }
            }
        }
    }

    /// Removes the registration of `account`, which must hold nothing, and
    /// says whether there was one to remove. The storage that the record
    /// occupied is released, and its price goes back to the account's holder.
    ///
    /// Fails with `NonZeroBalance` when the account still holds tokens.
    pub fn unregister(&mut self, account: &str) -> (r: Result<UnregistrationOutcome, Error>)
        requires
            old(self).wf(),
        ensures
            final(self).wf(),
            r == old(self)@.unregister_result(account@),
            final(self)@ == old(self)@.after(Operation::Unregister { account: account@ }),
            r is Ok && r->Ok_0.removed ==> final(self)@ == (LedgerView {
                balances: old(self)@.balances.remove(account@),
                ..old(self)@
            }),
            !(r is Ok && r->Ok_0.removed) ==> final(self)@ == old(self)@,
            r is Ok ==> r->Ok_0.refund == (old(self)@.storage_used() - final(self)@.storage_used())
                * old(self)@.storage_price_per_byte,
    {
        proof {
            self.lemma_wf();
            lemma_entries_map(self.ids@, self.balances@, self.ids@.len());
        }
        match self.find(account) {
            None => Ok(UnregistrationOutcome { removed: false, refund: 0 }),
            Some(i) => {
                assert(self.balances@[i as int] == self@.balance(account@));
                if self.balances[i] != 0 {
                    Err(Error::NonZeroBalance)
                } else {
                    let refund: u128 = self.storage_price();
                    let ghost ids0 = self.ids@;
                    let ghost bal0 = self.balances@;
                    self.ids.remove(i);
                    self.balances.remove(i);
                    proof {
                        lemma_entries_map_remove(ids0, bal0, i as int);
                        lemma_sum_remove(old(self)@.balances, account@);
                        lemma_entries_map(self.ids@, self.balances@, self.ids@.len());
                        assert forall|j: int| 0 <= j < self.ids@.len() implies valid_account_id(
                            #[trigger] key_at(self.ids@, j),
                        ) by {
                            let j0 = if j < i {
                                j
                            } else {
                                j + 1
                            };
                            assert(key_at(self.ids@, j) == key_at(ids0, j0));
                            assert(valid_account_id(key_at(ids0, j0)));
                        }
                        let n = old(self)@.balances.dom().len();
                        let u = old(self)@.account_storage_usage;
                        assert(n * u - (n - 1) * u == u) by (nonlinear_arith);
                    }
                    Ok(UnregistrationOutcome { removed: true, refund })
                }
            },
        }
    }

    /// Sets the balance at position `i`.
    fn set_balance(&mut self, i: usize, balance: u128, total_supply: u128)
        requires
            old(self).wf(),
            i < old(self).ids@.len(),
            total_supply + old(self).balances@[i as int] == old(self).total_supply + balance,
        ensures
            final(self).wf(),
            final(self)@ == (LedgerView {
                balances: old(self)@.balances.insert(
                    key_at(old(self).ids@, i as int),
                    balance as nat,
                ),
                total_supply: total_supply as nat,
                ..old(self)@
            }),
    {
        let ghost ids = self.ids@;
        let ghost bal0 = self.balances@;
        self.balances.set(i, balance);
        self.total_supply = total_supply;
        proof {
            let bal1 = self.balances@;
            let n = ids.len();
            let k = key_at(ids, i as int);
            lemma_entries_map(ids, bal0, n);
            lemma_entries_map(ids, bal1, n);
            let m0 = entries_map(ids, bal0, n);
            let m1 = entries_map(ids, bal1, n);
            assert(m1 =~= m0.insert(k, balance as nat)) by {
                assert forall|a: Seq<char>| m0.dom().contains(a) implies #[trigger] m1[a]
                    == m0.insert(k, balance as nat)[a] by {
                    let j = choose|j: int| 0 <= j < n && #[trigger] key_at(ids, j) == a;
                    if j != i {
                        assert(key_at(ids, j) != key_at(ids, i as int));
                        assert(bal1[j] == bal0[j]);
                    }
                }
            }
            lemma_sum_update(m0, k, balance as nat);
        }
    }

    /// Adds `amount` new tokens to what `account` holds.
    ///
    /// Fails with `AccountNotRegistered` when the account is not registered,
    /// and with `Overflow` when the total supply would not fit into 128 bits.
    pub fn deposit(&mut self, account: &str, amount: u128) -> (r: Result<(), Error>)
        requires
            old(self).wf(),
        ensures
            final(self).wf(),
            r == old(self)@.deposit_result(account@, amount),
            final(self)@ == old(self)@.after(Operation::Deposit { account: account@, amount }),
            !old(self)@.is_registered(account@) ==> r == Err::<(), Error>(
                Error::AccountNotRegistered,
            ),
            sum_values(final(self)@.balances) == final(self)@.total_supply,
            r is Err ==> final(self)@ == old(self)@,
            r is Ok ==> final(self)@ == (LedgerView {
                balances: old(self)@.balances.insert(
                    account@,
                    (old(self)@.balance(account@) + amount) as nat,
                ),
                total_supply: (old(self)@.total_supply + amount) as nat,
                ..old(self)@
            }),
    {
        proof {
            self.lemma_wf();
            lemma_entries_map(self.ids@, self.balances@, self.ids@.len());
        }
        match self.find(account) {
            None => Err(Error::AccountNotRegistered),
            Some(i) => {
                match self.total_supply.checked_add(amount) {
                    None => Err(Error::Overflow),
                    Some(total) => {
                        assert(self.balances@[i as int] == self@.balance(account@));
                        let balance: u128 = self.balances[i] + amount;
                        self.set_balance(i, balance, total);
                        Ok(())
                    },
                }
            },
        }
    }

    /// Takes `amount` tokens out of what `account` holds.
    ///
    /// Fails with `InsufficientBalance` when the account is not registered or
    /// holds less than `amount`.
    pub fn withdraw(&mut self, account: &str, amount: u128) -> (r: Result<(), Error>)
        requires
            old(self).wf(),
        ensures
            final(self).wf(),
            r == old(self)@.withdraw_result(account@, amount),
            final(self)@ == old(self)@.after(Operation::Withdraw { account: account@, amount }),
            sum_values(final(self)@.balances) == final(self)@.total_supply,
            r is Err ==> final(self)@ == old(self)@,
            r is Ok ==> final(self)@ == (LedgerView {
                balances: old(self)@.balances.insert(
                    account@,
                    (old(self)@.balance(account@) - amount) as nat,
                ),
                total_supply: (old(self)@.total_supply - amount) as nat,
                ..old(self)@
            }),
    {
        proof {
            self.lemma_wf();
            lemma_entries_map(self.ids@, self.balances@, self.ids@.len());
        }
        match self.find(account) {
            None => Err(Error::InsufficientBalance),
            Some(i) => {
                assert(self.balances@[i as int] == self@.balance(account@));
                if self.balances[i] < amount {
                    Err(Error::InsufficientBalance)
                } else {
                    let balance: u128 = self.balances[i] - amount;
                    let total: u128 = self.total_supply - amount;
                    self.set_balance(i, balance, total);
                    Ok(())
                }
            },
        }
    }

    /// Moves `amount` tokens from `sender` to `receiver`: a withdrawal and a
    /// deposit that happen together or not at all.
    ///
    /// Fails with `AccountNotRegistered` when the receiver is not registered,
    /// else with `SelfTransfer` when sender and receiver are the same, else
    /// with `ZeroAmount` when there is nothing to move, else with
    /// `InsufficientBalance` when the sender is not registered or holds less
    /// than `amount`.
    pub fn transfer(&mut self, sender: &str, receiver: &str, amount: u128) -> (r: Result<(), Error>)
        requires
            old(self).wf(),
        ensures
            final(self).wf(),
            r == old(self)@.transfer_result(sender@, receiver@, amount),
            final(self)@ == old(self)@.after(
                Operation::Transfer { sender: sender@, receiver: receiver@, amount },
            ),
            !old(self)@.is_registered(receiver@) ==> r == Err::<(), Error>(
                Error::AccountNotRegistered,
            ),
            sum_values(final(self)@.balances) == final(self)@.total_supply,
            final(self)@.total_supply == old(self)@.total_supply,
            r is Err ==> final(self)@ == old(self)@,
            r is Ok ==> final(self)@ == (LedgerView {
                balances: old(self)@.balances.insert(
                    sender@,
                    (old(self)@.balance(sender@) - amount) as nat,
                ).insert(receiver@, (old(self)@.balance(receiver@) + amount) as nat),
                ..old(self)@
            }),
    {
        if !self.registered(receiver) {
            return Err(Error::AccountNotRegistered);
        }
        if same_text(sender, receiver) {
            return Err(Error::SelfTransfer);
        }
        if amount == 0 {
            return Err(Error::ZeroAmount);
        }
        if !self.registered(sender) || self.balance_of(sender) < amount {
            return Err(Error::InsufficientBalance);
        }
        proof {
            self.lemma_wf();
        }
        let taken = self.withdraw(sender, amount);
        assert(taken is Ok);
        let given = self.deposit(receiver, amount);
        assert(given is Ok);
        Ok(())
    }


    /// The ledger's contents as plain data.
    pub fn snapshot(&self) -> (r: LedgerState)
        requires
            self.wf(),
        ensures
            r.valid(),
            r@ == self@,
    {
        let n: usize = self.ids.len();
        let mut account_ids: Vec<String> = Vec::new();
        let mut balances: Vec<u128> = Vec::new();
        let mut i: usize = 0;
        while i < n
            invariant
                i <= n,
                n == self.ids@.len(),
                n == self.balances@.len(),
                account_ids@ == self.ids@.take(i as int),
                balances@ == self.balances@.take(i as int),
            decreases n - i,
        {
            account_ids.push(self.ids[i].clone());
            balances.push(self.balances[i]);
            proof {
                assert(self.ids@.take(i + 1) =~= self.ids@.take(i as int).push(
                    self.ids@[i as int],
                ));
                assert(self.balances@.take(i + 1) =~= self.balances@.take(i as int).push(
                    self.balances@[i as int],
                ));
            }
            i += 1;
        }
        proof {
            assert(self.ids@.take(n as int) =~= self.ids@);
            assert(self.balances@.take(n as int) =~= self.balances@);
        }
        LedgerState {
            account_ids,
            balances,
            total_supply: self.total_supply,
            account_storage_usage: self.account_storage_usage,
            storage_price_per_byte: self.storage_price_per_byte,
        }
    }

    /// The ledger that `state` describes, if it describes one.
    pub fn restore(state: &LedgerState) -> (r: Option<Ledger>)
        ensures
            r is Some <==> state.valid(),
            r matches Some(ledger) ==> ledger.wf() && ledger@ == state@,
    {
        let ghost ids = state.account_ids@;
        let ghost bal = state.balances@;
        let n: usize = state.account_ids.len();
        if state.balances.len() != n {
            return None;
        }
        let mut ledger = match Ledger::new(
            state.account_storage_usage,
            state.storage_price_per_byte,
        ) {
            Err(_) => {
                return None;
            },
            Ok(ledger) => ledger,
        };
        assert(sum_values(Map::<Seq<char>, nat>::empty()) == 0);
        let mut i: usize = 0;
        while i < n
            invariant
                i <= n,
                ids == state.account_ids@,
                bal == state.balances@,
                n == ids.len(),
                n == bal.len(),
                ledger.wf(),
                distinct_keys_upto(ids, i as nat),
                forall|j: int| 0 <= j < i ==> valid_account_id(#[trigger] key_at(ids, j)),
                ledger@ == (LedgerView {
                    balances: entries_map(ids, bal, i as nat),
                    total_supply: sum_values(entries_map(ids, bal, i as nat)),
                    account_storage_usage: state.account_storage_usage as nat,
                    storage_price_per_byte: state.storage_price_per_byte as nat,
                }),
            decreases n - i,
        {
            let id: &str = state.account_ids[i].as_str();
            let balance: u128 = state.balances[i];
            proof {
                lemma_entries_map(ids, bal, i as nat);
                ledger.lemma_wf();
            }
            if ledger.registered(id) {
                proof {
                    let j = choose|j: int| 0 <= j < i && #[trigger] key_at(ids, j) == id@;
                    assert(key_at(ids, j) == key_at(ids, i as int));
                }
                return None;
            }
            if !is_valid_account(id) {
                assert(!valid_account_id(key_at(ids, i as int)));
                return None;
            }
            ledger.open_account(id);
            let ghost opened = ledger@;
            match ledger.deposit(id, balance) {
                Err(_) => {
                    proof {
                        assert(opened.balances == entries_map(ids, bal, i as nat).insert(id@, 0));
                        lemma_sum_insert_new(entries_map(ids, bal, i as nat), id@, balance as nat);
                        assert(sum_values(entries_map(ids, bal, (i + 1) as nat)) > u128::MAX);
                        if state.valid() {
                            lemma_entries_sum_monotone(ids, bal, (i + 1) as nat, n as nat);
                        }
                    }
                    return None;
                },
                Ok(()) => {},
            }
            proof {
                let before = entries_map(ids, bal, i as nat);
                assert(ledger@.balances =~= before.insert(id@, balance as nat));
                lemma_sum_insert_new(before, id@, balance as nat);
                assert(distinct_keys_upto(ids, (i + 1) as nat)) by {
                    assert forall|a: int, b: int| 0 <= a < b < i + 1 implies #[trigger] key_at(
                        ids,
                        a,
                    ) != #[trigger] key_at(ids, b) by {
                        if b == i {
                            assert(before.dom().contains(key_at(ids, a)));
                        }
                    }
                }
            }
            i += 1;
        }
        if ledger.total_supply() != state.total_supply {
            return None;
        }
        Some(ledger)
    }
}

} // verus!
