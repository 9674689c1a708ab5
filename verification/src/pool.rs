use vstd::prelude::*;
use crate::crypto::KeyPairWrapper;
use crate::crypto::pkcs8_parses;
use crate::crypto::public_key_of;
use crate::local_chain::LocalDAG;
use crate::local_chain::Transaction;
use crate::local_chain::balance_after;
use crate::local_chain::spec_validate_chain;
use crate::errors::LedgerError;
use crate::strutil::str_eq;
use crate::strutil::clone_bytes;

verus! {

/// A user's wallet: the balance that finalized transfers move.
#[derive(Debug)]
pub struct Wallet {
    pub balance: u64,
}

/// A registered identity: a named wallet bound to a signing key pair,
/// with the user's own history of finalized transactions.
#[derive(Debug)]
pub struct User {
    pub name: String,
    pub wallet: Wallet,
    pub public_key: Vec<u8>,
    pub key_pair_wrapper: KeyPairWrapper,
    pub local_dag: LocalDAG,
    pub initial_balance: u64,
}

impl User {
    /// The user's history keeps its chain structure.
    pub open spec fn wf(&self) -> bool {
        self.local_dag.wf()
    }

    /// The wallet holds exactly the initial balance plus everything
    /// received minus everything sent, replayed over the local history.
    pub open spec fn balanced(&self) -> bool {
        self.wallet.balance as int == balance_after(
            self.local_dag.transactions@,
            self.name@,
            self.initial_balance as int,
        )
    }

    /// Creates a user with a fresh key pair, the given opening balance
    /// and an empty history.
    pub fn new(name: String, initial_balance: u64) -> (r: Result<User, LedgerError>)
        ensures
            r is Ok ==> {
                let user = r->Ok_0;
                &&& user.name == name
                &&& user.wallet.balance == initial_balance
                &&& user.initial_balance == initial_balance
                &&& user.local_dag.transactions@.len() == 0
                &&& user.wf()
                &&& user.balanced()
                &&& pkcs8_parses(user.key_pair_wrapper.pkcs8_bytes@)
                &&& user.public_key@ == public_key_of(user.key_pair_wrapper.pkcs8_bytes@)
            },
            r is Err ==> r->Err_0 == LedgerError::CryptoInitError,
    {
        let key_pair_wrapper = match KeyPairWrapper::generate() {
            Ok(key_pair_wrapper) => key_pair_wrapper,
            Err(e) => {
                return Err(e);
            },
        };
        let public_key = match key_pair_wrapper.public_key() {
            Ok(public_key) => public_key,
            Err(e) => {
                return Err(e);
            },
        };
        Ok(
            User {
                name,
                wallet: Wallet { balance: initial_balance },
                public_key,
                key_pair_wrapper,
                local_dag: LocalDAG::new(),
                initial_balance,
            },
        )
    }

    /// Replays the user's own history against the pool: every record's
    /// signature and the running balance must check out.
    pub fn validate_local_dag(&self, user_pool: &UserPool) -> (r: Result<(), LedgerError>)
        requires
            user_pool.wf(),
        ensures
            r == spec_validate_chain(self.local_dag, self.name@, *user_pool),
    {
        self.local_dag.validate_transactions(
            self.name.as_str(),
            self.public_key.as_slice(),
            user_pool,
        )
    }

    /// The wallet's current balance.
    pub fn get_balance(&self) -> (r: u64)
        ensures
            r == self.wallet.balance,
    {
        self.wallet.balance
    }
}

/// A signed transfer proposal waiting for the receiver's decision. It
/// is not reflected in any balance or history while it waits.
#[derive(Debug)]
pub struct PendingTransaction {
    pub id: String,
    pub sender: String,
    pub receiver: String,
    pub amount: u64,
    pub signature: Vec<u8>,
    pub timestamp: u64,
}

impl Clone for PendingTransaction {
    /// Clones the proposal, keeping every field's content.
    fn clone(&self) -> (res: Self)
        ensures
            res.id == self.id,
            res.sender == self.sender,
            res.receiver == self.receiver,
            res.amount == self.amount,
            res.signature@ == self.signature@,
            res.timestamp == self.timestamp,
    {
        PendingTransaction {
            id: self.id.clone(),
            sender: self.sender.clone(),
            receiver: self.receiver.clone(),
            amount: self.amount,
            signature: clone_bytes(&self.signature),
            timestamp: self.timestamp,
        }
    }
}

/// The identity registry and the pending-transaction table.
#[derive(Debug)]
pub struct UserPool {
    pub users: Vec<User>,
    pub pending_transactions: Vec<PendingTransaction>,
}

impl UserPool {
    /// Whether a user with this name is registered.
    pub open spec fn spec_has_user(&self, name: Seq<char>) -> bool {
        exists|i: int| 0 <= i < self.users@.len() && (#[trigger] self.users@[i]).name@ == name
    }

    /// The position of the user with this name.
    pub open spec fn spec_user_index(&self, name: Seq<char>) -> int {
        choose|i: int| 0 <= i < self.users@.len() && (#[trigger] self.users@[i]).name@ == name
    }

    /// The user with this name.
    pub open spec fn spec_user(&self, name: Seq<char>) -> User {
        self.users@[self.spec_user_index(name)]
    }

    /// Whether a proposal with this id is pending.
    pub open spec fn spec_has_pending(&self, id: Seq<char>) -> bool {
        exists|i: int|
            0 <= i < self.pending_transactions@.len() && (#[trigger] self.pending_transactions@[i]).id@
                == id
    }

    /// The position of the pending proposal with this id.
    pub open spec fn spec_pending_index(&self, id: Seq<char>) -> int {
        choose|i: int|
            0 <= i < self.pending_transactions@.len() && (#[trigger] self.pending_transactions@[i]).id@
                == id
    }

    /// The pending proposal with this id.
    pub open spec fn spec_pending(&self, id: Seq<char>) -> PendingTransaction {
        self.pending_transactions@[self.spec_pending_index(id)]
    }

    /// The registry's structure: user names never repeat, pending ids
    /// never repeat, and every user's history keeps its chain shape.
    pub open spec fn wf(&self) -> bool {
        &&& forall|i: int, j: int|
            #![trigger self.users@[i], self.users@[j]]
            0 <= i < j < self.users@.len() ==> self.users@[i].name@ != self.users@[j].name@
        &&& forall|i: int, j: int|
            #![trigger self.pending_transactions@[i], self.pending_transactions@[j]]
            0 <= i < j < self.pending_transactions@.len() ==> self.pending_transactions@[i].id@
                != self.pending_transactions@[j].id@
        &&& forall|i: int| 0 <= i < self.users@.len() ==> (#[trigger] self.users@[i]).wf()
    }

    /// Every user's wallet agrees with their replayed history.
    pub open spec fn balanced(&self) -> bool {
        forall|i: int| 0 <= i < self.users@.len() ==> (#[trigger] self.users@[i]).balanced()
    }

    /// Creates an empty pool.
    pub fn new() -> (pool: UserPool)
        ensures
            pool.users@.len() == 0,
            pool.pending_transactions@.len() == 0,
            pool.wf(),
            pool.balanced(),
    {
        UserPool { users: Vec::new(), pending_transactions: Vec::new() }
    }

    /// Finds the position of a user by name.
    pub fn find_user_index(&self, name: &str) -> (r: Option<usize>)
        ensures
            r is Some <==> self.spec_has_user(name@),
            r is Some ==> 0 <= r->0 < self.users@.len() && self.users@[r->0 as int].name@ == name@,
            r is Some && self.wf() ==> r->0 == self.spec_user_index(name@),
    {
        let mut i: usize = 0;
        while i < self.users.len()
            invariant
                i <= self.users@.len(),
                forall|j: int| 0 <= j < i ==> (#[trigger] self.users@[j]).name@ != name@,
            decreases self.users@.len() - i,
        {
            if str_eq(self.users[i].name.as_str(), name) {
                proof {
                    if self.wf() {
                        let k = self.spec_user_index(name@);
                        assert(self.users@[k].name@ == name@);
                        assert(k == i);
                    }
                }
                return Some(i);
            }
            i = i + 1;
        }
        None
    }

    /// The opening balance that a user's wallet was registered with.
    pub fn get_user_initial_balance(&self, name: &str) -> (r: Option<u64>)
        ensures
            r is Some <==> self.spec_has_user(name@),
            r is Some && self.wf() ==> r->0 == self.spec_user(name@).initial_balance,
    {
        match self.find_user_index(name) {
            Some(i) => Some(self.users[i].initial_balance),
            None => None,
        }
    }

    /// Registers a user under their name, replacing any user already
    /// registered under it.
    pub fn add_user(&mut self, user: User)
        ensures
            final(self).pending_transactions == old(self).pending_transactions,
            !old(self).spec_has_user(user.name@) ==> final(self).users@ == old(self).users@.push(
                user,
            ),
            old(self).spec_has_user(user.name@) && old(self).wf() ==> final(self).users@ == old(self).users@.update(old(self).spec_user_index(user.name@), user),
            old(self).wf() && user.wf() ==> final(self).wf(),
            old(self).wf() && old(self).balanced() && user.balanced() ==> final(self).balanced(),
    {
        match self.find_user_index(user.name.as_str()) {
            Some(i) => {
                self.users.set(i, user);
            },
            None => {
                self.users.push(user);
            },
        }
        proof {
            let users = self.users@;
            let old_users = old(self).users@;
            if old(self).wf() && user.wf() {
                assert forall|i: int, j: int|
                    #![trigger users[i], users[j]]
                    0 <= i < j < users.len() implies users[i].name@ != users[j].name@ by {
                    if !old(self).spec_has_user(user.name@) {
                        if j < old_users.len() {
                        } else {
                            assert(users[i] == old_users[i]);
                            assert(!old(self).spec_has_user(users[j].name@));
                        }
                    }
                }
            }
        }
    }

    /// Looks a user up by name.
    pub fn get_user(&self, name: &str) -> (r: Option<&User>)
        ensures
            r is Some <==> self.spec_has_user(name@),
            r is Some ==> r->0.name@ == name@ && self.users@.contains(*r->0),
            r is Some && self.wf() ==> *r->0 == self.spec_user(name@),
    {
        match self.find_user_index(name) {
            Some(i) => {
                proof {
                    assert(self.users@.contains(self.users@[i as int]));
                }
                Some(&self.users[i])
            },
            None => None,
        }
    }

    /// Borrows a user mutably by name. The pool afterwards holds
    /// whatever the caller leaves behind the returned reference.
    pub fn get_user_mut(&mut self, name: &str) -> (r: Option<&mut User>)
        ensures
            r is Some <==> old(self).spec_has_user(name@),
            r is None ==> *final(self) == *old(self),
            r is Some && old(self).wf() ==> *r->0 == old(self).spec_user(name@) && final(self).users@ == old(self).users@.update(
                old(self).spec_user_index(name@),
                *final(r->0),
            ) && final(self).pending_transactions == old(self).pending_transactions,
    {
        match self.find_user_index(name) {
            Some(i) => Some(&mut self.users[i]),
            None => None,
        }
    }

    /// Whether a user with this name is registered.
    pub fn user_exists(&self, name: &str) -> (r: bool)
        ensures
            r == self.spec_has_user(name@),
    {
        self.find_user_index(name).is_some()
    }

    /// Read-only access to all registered users.
    pub fn get_all_users(&self) -> (r: &Vec<User>)
        ensures
            r == &self.users,
    {
        &self.users
    }

    /// A copy of a user's public key.
    pub fn get_user_public_key(&self, name: &str) -> (r: Option<Vec<u8>>)
        ensures
            r is Some <==> self.spec_has_user(name@),
            r is Some && self.wf() ==> r->0@ == self.spec_user(name@).public_key@,
    {
        match self.find_user_index(name) {
            Some(i) => Some(clone_bytes(&self.users[i].public_key)),
            None => None,
        }
    }

    /// Finds the position of a pending proposal by id.
    pub fn find_pending_index(&self, id: &str) -> (r: Option<usize>)
        ensures
            r is Some <==> self.spec_has_pending(id@),
            r is Some ==> 0 <= r->0 < self.pending_transactions@.len()
                && self.pending_transactions@[r->0 as int].id@ == id@,
            r is Some && self.wf() ==> r->0 == self.spec_pending_index(id@),
    {
        let mut i: usize = 0;
        while i < self.pending_transactions.len()
            invariant
                i <= self.pending_transactions@.len(),
                forall|j: int|
                    0 <= j < i ==> (#[trigger] self.pending_transactions@[j]).id@ != id@,
            decreases self.pending_transactions@.len() - i,
        {
            if str_eq(self.pending_transactions[i].id.as_str(), id) {
                proof {
                    if self.wf() {
                        let k = self.spec_pending_index(id@);
                        assert(self.pending_transactions@[k].id@ == id@);
                        assert(k == i);
                    }
                }
                return Some(i);
            }
            i = i + 1;
        }
        None
    }

    /// Records a proposal in the pending table, replacing any proposal
    /// already recorded under its id.
    pub fn add_pending(&mut self, pending_tx: PendingTransaction)
        ensures
            final(self).users == old(self).users,
            !old(self).spec_has_pending(pending_tx.id@) ==> final(self).pending_transactions@
                == old(self).pending_transactions@.push(pending_tx),
            old(self).spec_has_pending(pending_tx.id@) && old(self).wf() ==> final(self).pending_transactions@ == old(self).pending_transactions@.update(
                old(self).spec_pending_index(pending_tx.id@),
                pending_tx,
            ),
            old(self).wf() ==> final(self).wf(),
            final(self).spec_has_pending(pending_tx.id@),
            forall|other: Seq<char>|
                #[trigger] old(self).spec_has_pending(other) ==> final(self).spec_has_pending(
                    other,
                ),
            old(self).wf() ==> final(self).spec_pending(pending_tx.id@) == pending_tx,
            old(self).wf() ==> forall|other: Seq<char>|
                #[trigger] old(self).spec_has_pending(other) && other != pending_tx.id@
                    ==> final(self).spec_pending(other) == old(self).spec_pending(other),
    {
        let ghost old_pending = self.pending_transactions@;
        match self.find_pending_index(pending_tx.id.as_str()) {
            Some(i) => {
                self.pending_transactions.set(i, pending_tx);
                proof {
                    let pending = self.pending_transactions@;
                    assert(pending[i as int].id@ == pending_tx.id@);
                    assert forall|other: Seq<char>|
                        #[trigger] old(self).spec_has_pending(other) implies self.spec_has_pending(
                        other,
                    ) by {
                        let k = choose|k: int|
                            0 <= k < old_pending.len() && (#[trigger] old_pending[k]).id@ == other;
                        if k == i {
                            assert(pending[i as int].id@ == other || old(self).wf());
                            if old(self).wf() {
                                assert(old_pending[i as int].id@ == pending_tx.id@ || k != i);
                            }
                            assert(pending[i as int].id@ == other);
                        } else {
                            assert(pending[k].id@ == other);
                        }
                    }
                }
            },
            None => {
                self.pending_transactions.push(pending_tx);
                proof {
                    let pending = self.pending_transactions@;
                    assert(pending[old_pending.len() as int].id@ == pending_tx.id@);
                    assert forall|other: Seq<char>|
                        #[trigger] old(self).spec_has_pending(other) implies self.spec_has_pending(
                        other,
                    ) by {
                        let k = choose|k: int|
                            0 <= k < old_pending.len() && (#[trigger] old_pending[k]).id@ == other;
                        assert(pending[k].id@ == other);
                    }
                }
            },
        }
        proof {
            if old(self).wf() {
                let pending = self.pending_transactions@;
                assert forall|i: int, j: int|
                    #![trigger pending[i], pending[j]]
                    0 <= i < j < pending.len() implies pending[i].id@ != pending[j].id@ by {
                    if j < old_pending.len() {
                    } else if j == old_pending.len() && pending.len() > old_pending.len() {
                        assert(pending[i] == old_pending[i]);
                        assert(!old(self).spec_has_pending(pending[j].id@));
                    }
                }
            }
        }
    }



    /// Rewrites one user for a finalized transfer: moves the amount in
    /// or out of their wallet and appends the record to their history.
    #[verifier::rlimit(100)]
    fn update_user_for_transfer(
        &mut self,
        index: usize,
        transaction_id: &str,
        sender: &str,
        receiver: &str,
        amount: u64,
        signature: &Vec<u8>,
        timestamp: u64,
        debit: bool,
    )
        requires
            old(self).wf(),
            index < old(self).users@.len(),
            !old(self).users@[index as int].local_dag.spec_contains_id(transaction_id@),
            debit ==> old(self).users@[index as int].wallet.balance >= amount,
            !debit ==> old(self).users@[index as int].wallet.balance + amount <= u64::MAX,
        ensures
            final(self).wf(),
            final(self).users@.len() == old(self).users@.len(),
            final(self).pending_transactions == old(self).pending_transactions,
            forall|i: int|
                0 <= i < old(self).users@.len() && i != index ==> #[trigger] final(self).users@[i]
                    == old(self).users@[i],
            ({
                let old_user = old(self).users@[index as int];
                let new_user = final(self).users@[index as int];
                &&& new_user.name == old_user.name
                &&& new_user.public_key == old_user.public_key
                &&& new_user.key_pair_wrapper == old_user.key_pair_wrapper
                &&& new_user.initial_balance == old_user.initial_balance
                &&& new_user.wallet.balance == (if debit {
                    old_user.wallet.balance - amount
                } else {
                    old_user.wallet.balance + amount
                })
                &&& new_user.local_dag.wf()
                &&& new_user.local_dag.transactions@.len() == old_user.local_dag.transactions@.len()
                    + 1
                &&& new_user.local_dag.spec_contains_id(transaction_id@)
                &&& new_user.local_dag.transactions@.last().id@ == transaction_id@
                &&& new_user.local_dag.transactions@.last().sender@ == sender@
                &&& new_user.local_dag.transactions@.last().receiver@ == receiver@
                &&& new_user.local_dag.transactions@.last().amount == amount
                &&& new_user.local_dag.transactions@.last().timestamp == timestamp
                &&& new_user.local_dag.transactions@.last().signature@ == signature@
                &&& forall|owner: Seq<char>, init: int|
                    #[trigger] balance_after(new_user.local_dag.transactions@, owner, init)
                        == balance_after(old_user.local_dag.transactions@, owner, init) - (if sender@
                        == owner {
                        amount as int
                    } else {
                        0
                    }) + (if receiver@ == owner {
                        amount as int
                    } else {
                        0
                    })
            }),
    {
        let mut scratch = User {
            name: String::new(),
            wallet: Wallet { balance: 0 },
            public_key: Vec::new(),
            key_pair_wrapper: KeyPairWrapper::missing(),
            local_dag: LocalDAG::new(),
            initial_balance: 0,
        };
        self.users.set_and_swap(index, &mut scratch);
        if debit {
            scratch.wallet.balance = scratch.wallet.balance - amount;
        } else {
            scratch.wallet.balance = scratch.wallet.balance + amount;
        }
        let appended = scratch.local_dag.add_transaction(
            String::from_str(transaction_id),
            String::from_str(sender),
            String::from_str(receiver),
            amount,
            crate::strutil::clone_bytes(signature),
            timestamp,
        );
        proof {
            assert(appended is Ok);
        }
        self.users.set_and_swap(index, &mut scratch);
        proof {
            let post = *self;
            assert forall|i: int, j: int|
                #![trigger post.users@[i], post.users@[j]]
                0 <= i < j < post.users@.len() implies post.users@[i].name@
                != post.users@[j].name@ by {
                assert(old(self).users@[i].name@ != old(self).users@[j].name@);
            }
            assert forall|i: int| 0 <= i < post.users@.len() implies (
                #[trigger] post.users@[i]).wf() by {
                if i != index {
                    assert(post.users@[i] == old(self).users@[i]);
                }
            }
        }
    }

    /// Applies a finalized transfer: debits the sender, credits the
    /// receiver, and appends the same record to both histories, so the
    /// two records carry identical content hashes.
    #[verifier::rlimit(100)]
    pub fn apply_transfer(
        &mut self,
        transaction_id: &str,
        sender: &str,
        receiver: &str,
        amount: u64,
        signature: &Vec<u8>,
        timestamp: u64,
    )
        requires
            old(self).wf(),
            old(self).balanced(),
            old(self).spec_has_user(sender@),
            old(self).spec_has_user(receiver@),
            sender@ != receiver@,
            old(self).spec_user(sender@).wallet.balance >= amount,
            old(self).spec_user(receiver@).wallet.balance + amount <= u64::MAX,
            !old(self).spec_user(sender@).local_dag.spec_contains_id(transaction_id@),
            !old(self).spec_user(receiver@).local_dag.spec_contains_id(transaction_id@),
        ensures
            final(self).wf(),
            final(self).balanced(),
            final(self).pending_transactions == old(self).pending_transactions,
            final(self).users@.len() == old(self).users@.len(),
            forall|i: int|
                0 <= i < old(self).users@.len() && i != old(self).spec_user_index(sender@) && i
                    != old(self).spec_user_index(receiver@) ==> #[trigger] final(self).users@[i]
                    == old(self).users@[i],
            forall|i: int|
                0 <= i < old(self).users@.len() ==> (#[trigger] final(self).users@[i]).name
                    == old(self).users@[i].name && final(self).users@[i].public_key
                    == old(self).users@[i].public_key && final(self).users@[i].key_pair_wrapper
                    == old(self).users@[i].key_pair_wrapper && final(self).users@[i].initial_balance
                    == old(self).users@[i].initial_balance,
            forall|n: Seq<char>| #[trigger] final(self).spec_has_user(n) == old(self).spec_has_user(n),
            final(self).spec_has_user(sender@) && final(self).spec_has_user(receiver@),
            final(self).spec_user_index(sender@) == old(self).spec_user_index(sender@),
            final(self).spec_user_index(receiver@) == old(self).spec_user_index(receiver@),
            final(self).spec_user(sender@).name == old(self).spec_user(sender@).name,
            final(self).spec_user(sender@).public_key == old(self).spec_user(sender@).public_key,
            final(self).spec_user(sender@).key_pair_wrapper == old(self).spec_user(
                sender@,
            ).key_pair_wrapper,
            final(self).spec_user(sender@).initial_balance == old(self).spec_user(
                sender@,
            ).initial_balance,
            final(self).spec_user(receiver@).name == old(self).spec_user(receiver@).name,
            final(self).spec_user(receiver@).public_key == old(self).spec_user(
                receiver@,
            ).public_key,
            final(self).spec_user(receiver@).key_pair_wrapper == old(self).spec_user(
                receiver@,
            ).key_pair_wrapper,
            final(self).spec_user(receiver@).initial_balance == old(self).spec_user(
                receiver@,
            ).initial_balance,
            final(self).spec_user(sender@).wallet.balance == old(self).spec_user(
                sender@,
            ).wallet.balance - amount,
            final(self).spec_user(receiver@).wallet.balance == old(self).spec_user(
                receiver@,
            ).wallet.balance + amount,
            final(self).spec_user(sender@).local_dag.spec_contains_id(transaction_id@),
            final(self).spec_user(receiver@).local_dag.spec_contains_id(transaction_id@),
            ({
                let sender_chain = final(self).spec_user(sender@).local_dag.transactions@;
                let receiver_chain = final(self).spec_user(receiver@).local_dag.transactions@;
                &&& sender_chain.len() == old(self).spec_user(
                    sender@,
                ).local_dag.transactions@.len() + 1
                &&& receiver_chain.len() == old(self).spec_user(
                    receiver@,
                ).local_dag.transactions@.len() + 1
                &&& sender_chain.last().id@ == transaction_id@
                &&& receiver_chain.last().id@ == transaction_id@
                &&& sender_chain.last().sender@ == sender@
                &&& sender_chain.last().receiver@ == receiver@
                &&& sender_chain.last().amount == amount
                &&& sender_chain.last().timestamp == timestamp
                &&& sender_chain.last().signature@ == signature@
                &&& receiver_chain.last().sender@ == sender@
                &&& receiver_chain.last().receiver@ == receiver@
                &&& receiver_chain.last().amount == amount
                &&& receiver_chain.last().timestamp == timestamp
                &&& receiver_chain.last().signature@ == signature@
                &&& sender_chain.last().spec_content_hash()
                    == receiver_chain.last().spec_content_hash()
            }),
    {
        let sender_index = match self.find_user_index(sender) {
            Some(index) => index,
            None => {
                proof {
                    assert(false);
                }
                return ;
            },
        };
        let receiver_index = match self.find_user_index(receiver) {
            Some(index) => index,
            None => {
                proof {
                    assert(false);
                }
                return ;
            },
        };
        proof {
            assert(sender_index != receiver_index);
        }
        self.update_user_for_transfer(
            sender_index,
            transaction_id,
            sender,
            receiver,
            amount,
            signature,
            timestamp,
            true,
        );
        proof {
            assert(self.users@[receiver_index as int] == old(self).users@[receiver_index as int]);
        }
        self.update_user_for_transfer(
            receiver_index,
            transaction_id,
            sender,
            receiver,
            amount,
            signature,
            timestamp,
            false,
        );
        proof {
            let post = *self;
            assert(post.spec_user_index(sender@) == sender_index) by {
                assert(post.users@[sender_index as int].name@ == sender@);
                let k = post.spec_user_index(sender@);
                assert(post.spec_has_user(sender@));
                assert(post.users@[k].name@ == sender@);
            }
            assert(post.spec_user_index(receiver@) == receiver_index) by {
                assert(post.users@[receiver_index as int].name@ == receiver@);
                let k = post.spec_user_index(receiver@);
                assert(post.spec_has_user(receiver@));
                assert(post.users@[k].name@ == receiver@);
            }
            assert forall|i: int| 0 <= i < post.users@.len() implies (
                #[trigger] post.users@[i]).balanced() by {
                if i == sender_index {
                    assert(post.users@[i].name@ == sender@);
                } else if i == receiver_index {
                    assert(post.users@[i].name@ == receiver@);
                } else {
                    assert(post.users@[i] == old(self).users@[i]);
                }
            }
            assert(post.spec_user(sender@).local_dag.transactions@.last().spec_content_hash()
                == post.spec_user(receiver@).local_dag.transactions@.last().spec_content_hash());
            assert forall|n: Seq<char>| #[trigger] post.spec_has_user(n) == old(self).spec_has_user(
                n,
            ) by {
                if post.spec_has_user(n) {
                    let k = choose|k: int|
                        0 <= k < post.users@.len() && (#[trigger] post.users@[k]).name@ == n;
                    assert(old(self).users@[k].name@ == n);
                }
                if old(self).spec_has_user(n) {
                    let k = choose|k: int|
                        0 <= k < old(self).users@.len() && (#[trigger] old(self).users@[k]).name@
                            == n;
                    assert(post.users@[k].name@ == n);
                }
            }
        }
    }

    /// Removes and returns the pending proposal with this id.
    pub fn remove_pending(&mut self, id: &str) -> (r: Option<PendingTransaction>)
        ensures
            r is Some <==> old(self).spec_has_pending(id@),
            r is None ==> *final(self) == *old(self),
            final(self).users == old(self).users,
            r is Some ==> r->0.id@ == id@,
            r is Some && old(self).wf() ==> r->0 == old(self).spec_pending(id@) && final(self).pending_transactions@ == old(self).pending_transactions@.remove(
                old(self).spec_pending_index(id@),
            ) && final(self).wf() && !final(self).spec_has_pending(id@),
    {
        match self.find_pending_index(id) {
            Some(i) => {
                let pending_tx = self.pending_transactions.remove(i);
                proof {
                    if old(self).wf() {
                        let pending = self.pending_transactions@;
                        assert forall|a: int, b: int|
                            #![trigger pending[a], pending[b]]
                            0 <= a < b < pending.len() implies pending[a].id@ != pending[b].id@ by {
                            assert(pending[a] == if a < i {
                                old(self).pending_transactions@[a]
                            } else {
                                old(self).pending_transactions@[a + 1]
                            });
                            assert(pending[b] == if b < i {
                                old(self).pending_transactions@[b]
                            } else {
                                old(self).pending_transactions@[b + 1]
                            });
                        }
                        assert forall|a: int| 0 <= a < pending.len() implies (#[trigger] pending[a]).id@
                            != id@ by {
                            assert(pending[a] == if a < i {
                                old(self).pending_transactions@[a]
                            } else {
                                old(self).pending_transactions@[a + 1]
                            });
                        }
                    }
                }
                Some(pending_tx)
            },
            None => None,
        }
    }
}

} // verus!
