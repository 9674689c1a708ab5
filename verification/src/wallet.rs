use vstd::prelude::*;
use crate::errors::LedgerError;
use crate::strutil::str_eq;

verus! {

/// A wallet holding a token balance.
#[derive(Debug)]
pub struct Wallet {
    pub balance: u64,
}

/// A named wallet owner.
#[derive(Debug)]
pub struct User {
    pub name: String,
    pub wallet: Wallet,
}

impl User {
    /// Creates a user with an opening balance.
    pub fn new(name: String, initial_balance: u64) -> (user: User)
        ensures
            user.name == name,
            user.wallet.balance == initial_balance,
    {
        User { name, wallet: Wallet { balance: initial_balance } }
    }

    /// Moves tokens from this user to the receiver. Fails when the
    /// balance does not cover the amount or the receiver's wallet
    /// cannot hold it, and then moves nothing.
    pub fn send_tokens(&mut self, amount: u64, receiver: &mut User) -> (r: Result<(), LedgerError>)
        ensures
            r is Ok <==> old(self).wallet.balance >= amount && old(receiver).wallet.balance + amount
                <= u64::MAX,
            r is Err ==> *final(self) == *old(self) && *final(receiver) == *old(receiver),
            r is Err && old(self).wallet.balance < amount ==> r->Err_0
                == LedgerError::InsufficientBalance,
            r is Err && old(self).wallet.balance >= amount ==> r->Err_0
                == LedgerError::BalanceOverflow,
            r is Ok ==> final(self).wallet.balance == old(self).wallet.balance - amount
                && final(receiver).wallet.balance == old(receiver).wallet.balance + amount
                && final(self).name == old(self).name && final(receiver).name == old(
                receiver,
            ).name,
    {
        if self.wallet.balance < amount {
            return Err(LedgerError::InsufficientBalance);
        }
        let credited = match receiver.wallet.balance.checked_add(amount) {
            Some(credited) => credited,
            None => {
                return Err(LedgerError::BalanceOverflow);
            },
        };
        self.wallet.balance = self.wallet.balance - amount;
        receiver.wallet.balance = credited;
        Ok(())
    }
}

/// A registry of users by name.
#[derive(Debug)]
pub struct UserPool {
    pub users: Vec<User>,
}

impl UserPool {
    /// Whether a user with this name is registered.
    pub open spec fn spec_has_user(&self, name: Seq<char>) -> bool {
        exists|i: int| 0 <= i < self.users@.len() && (#[trigger] self.users@[i]).name@ == name
    }

    /// The position of the user with this name.
    pub open spec fn spec_user_index(&self, name: Seq<char>) -> int {
        choose|i: int| 0 <= i < self.users@.len() && (#[trigger] self.users@[i]).name@ == name
    }

    /// User names never repeat.
    pub open spec fn wf(&self) -> bool {
        forall|i: int, j: int|
            #![trigger self.users@[i], self.users@[j]]
            0 <= i < j < self.users@.len() ==> self.users@[i].name@ != self.users@[j].name@
    }

    /// Creates an empty registry.
    pub fn new() -> (pool: UserPool)
        ensures
            pool.users@.len() == 0,
            pool.wf(),
    {
        UserPool { users: Vec::new() }
    }

    /// Finds the position of a user by name.
    pub fn find_user_index(&self, name: &str) -> (r: Option<usize>)
        ensures
            r is Some <==> self.spec_has_user(name@),
            r is Some ==> 0 <= r->0 < self.users@.len() && self.users@[r->0 as int].name@ == name@,
            r is Some && self.wf() ==> r->0 == self.spec_user_index(name@),
    {
        let mut i: usize = 0;
        while i < self.users.len()
            invariant
                i <= self.users@.len(),
                forall|j: int| 0 <= j < i ==> (#[trigger] self.users@[j]).name@ != name@,
            decreases self.users@.len() - i,
        {
            if str_eq(self.users[i].name.as_str(), name) {
                proof {
                    if self.wf() {
                        let k = self.spec_user_index(name@);
                        assert(self.users@[k].name@ == name@);
                        assert(k == i);
                    }
                }
                return Some(i);
            }
            i = i + 1;
        }
        None
    }

    /// Registers a user under their name, replacing any user already
    /// registered under it.
    pub fn add_user(&mut self, user: User)
        ensures
            !old(self).spec_has_user(user.name@) ==> final(self).users@ == old(self).users@.push(
                user,
            ),
            old(self).spec_has_user(user.name@) && old(self).wf() ==> final(self).users@ == old(
                self,
            ).users@.update(old(self).spec_user_index(user.name@), user),
            old(self).wf() ==> final(self).wf(),
            final(self).spec_has_user(user.name@),
    {
        let ghost name_view = user.name@;
        match self.find_user_index(user.name.as_str()) {
            Some(i) => {
                self.users.set(i, user);
                proof {
                    assert(self.users@[i as int].name@ == name_view);
                }
            },
            None => {
                self.users.push(user);
                proof {
                    assert(self.users@.last().name@ == name_view);
                }
            },
        }
        proof {
            if old(self).wf() {
                assert forall|a: int, b: int|
                    #![trigger self.users@[a], self.users@[b]]
                    0 <= a < b < self.users@.len() implies self.users@[a].name@
                    != self.users@[b].name@ by {
                    if !old(self).spec_has_user(name_view) && b == old(self).users@.len() {
                        assert(self.users@[a] == old(self).users@[a]);
                        assert(!old(self).spec_has_user(self.users@[b].name@));
                    } else {
                        assert(old(self).users@[a].name@ != old(self).users@[b].name@);
                    }
                }
            }
        }
    }

    /// Looks a user up by name.
    pub fn get_user(&self, name: &str) -> (r: Option<&User>)
        ensures
            r is Some <==> self.spec_has_user(name@),
            r is Some ==> r->0.name@ == name@ && self.users@.contains(*r->0),
    {
        let mut i: usize = 0;
        while i < self.users.len()
            invariant
                i <= self.users@.len(),
                forall|j: int| 0 <= j < i ==> (#[trigger] self.users@[j]).name@ != name@,
            decreases self.users@.len() - i,
        {
            if str_eq(self.users[i].name.as_str(), name) {
                proof {
                    assert(self.users@.contains(self.users@[i as int]));
                }
                return Some(&self.users[i]);
            }
            i = i + 1;
        }
        None
    }

    /// Whether a user with this name is registered.
    pub fn user_exists(&self, name: &str) -> (r: bool)
        ensures
            r == self.spec_has_user(name@),
    {
        self.get_user(name).is_some()
    }
}

} // verus!
