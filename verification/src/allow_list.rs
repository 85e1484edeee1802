//! The allow-list: the set of accounts that were granted the capability.

use vstd::prelude::*;

use crate::account::{key_at, same_text};

verus! {

/// The set of the texts in a list.
pub open spec fn members_set(members: Seq<String>) -> Set<Seq<char>> {
    Set::new(
        |a: Seq<char>| exists|i: int| 0 <= i < members.len() && #[trigger] key_at(members, i) == a,
    )
}

/// A set of account identifiers that only grows.
pub struct AllowList {
    members: Vec<String>,
}

impl View for AllowList {
    type V = Set<Seq<char>>;

    closed spec fn view(&self) -> Set<Seq<char>> {
        members_set(self.members@)
    }
}

impl AllowList {
    /// The empty allow-list.
    pub fn new() -> (r: AllowList)
        ensures
            r@ == Set::<Seq<char>>::empty(),
    {
        let r = AllowList { members: Vec::new() };
        assert(r@ =~= Set::<Seq<char>>::empty());
        r
    }

    /// Whether `account` is on the list.
    pub fn contains(&self, account: &str) -> (r: bool)
        ensures
            r == self@.contains(account@),
    {
        let n: usize = self.members.len();
        let mut i: usize = 0;
        while i < n
            invariant
                i <= n,
                n == self.members@.len(),
                forall|j: int| 0 <= j < i ==> #[trigger] key_at(self.members@, j) != account@,
            decreases n - i,
        {
            if same_text(self.members[i].as_str(), account) {
                assert(key_at(self.members@, i as int) == account@);
                return true;
            }
            i += 1;
        }
        false
    }

    /// Puts `account` on the list and says whether it was new there. Putting
    /// an account on the list a second time changes nothing.
    pub fn mark_allowed(&mut self, account: &str) -> (r: bool)
        ensures
            final(self)@ == old(self)@.insert(account@),
            r == !old(self)@.contains(account@),
    {
        if self.contains(account) {
            assert(self@ =~= old(self)@.insert(account@));
            return false;
        }
        self.members.push(account.to_owned());
        proof {
            let before = old(self).members@;
            let after = self.members@;
            assert(key_at(after, before.len() as int) == account@);
            assert forall|a: Seq<char>| self@.contains(a) <==> old(self)@.insert(account@).contains(
                a,
            ) by {
                if self@.contains(a) {
                    let i = choose|i: int| 0 <= i < after.len() && #[trigger] key_at(after, i) == a;
                    if i < before.len() {
                        assert(key_at(before, i) == a);
                    }
                }
                if old(self)@.contains(a) {
                    let i = choose|i: int|
                        0 <= i < before.len() && #[trigger] key_at(before, i) == a;
                    assert(key_at(after, i) == a);
                }
            }
            assert(self@ =~= old(self)@.insert(account@));
        }
        true
    }

    /// The accounts on the list.
    pub fn snapshot(&self) -> (r: Vec<String>)
        ensures
            members_set(r@) == self@,
    {
        let n: usize = self.members.len();
        let mut r: Vec<String> = Vec::new();
        let mut i: usize = 0;
        while i < n
            invariant
                i <= n,
                n == self.members@.len(),
                r@ == self.members@.take(i as int),
            decreases n - i,
        {
            r.push(self.members[i].clone());
            proof {
                assert(self.members@.take(i + 1) =~= self.members@.take(i as int).push(
                    self.members@[i as int],
                ));
            }
            i += 1;
        }
        proof {
            assert(self.members@.take(n as int) =~= self.members@);
        }
        r
    }

    /// The allow-list that holds the accounts of `members`.
    pub fn restore(members: Vec<String>) -> (r: AllowList)
        ensures
            r@ == members_set(members@),
    {
        AllowList { members }
    }
}

} // verus!
