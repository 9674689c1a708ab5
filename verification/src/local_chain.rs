use vstd::prelude::*;
use vstd::bytes::spec_u64_to_le_bytes;
use vstd::bytes::u64_to_le_bytes;
use vstd::utf8::encode_utf8;
use crate::errors::LedgerError;
use crate::hashing::sha256_of;
use crate::hashing::sha256;
use crate::strutil::clone_string_vec;
use crate::strutil::clone_bytes;
use crate::strutil::str_eq;
use crate::numfmt::dec_chars;
use crate::numfmt::u64_to_string;
use crate::crypto::sig_valid;
use crate::crypto::canonical_msg;
use crate::crypto::canonical_message;
use crate::crypto::KeyPairWrapper;
use crate::pool::UserPool;

verus! {

/// The byte string whose SHA-256 digest is a record's content hash:
/// the id, sender and receiver in UTF-8, the amount and timestamp in
/// little-endian, and the signature, concatenated.
pub open spec fn tx_hash_input(
    id: Seq<char>,
    sender: Seq<char>,
    receiver: Seq<char>,
    amount: u64,
    timestamp: u64,
    signature: Seq<u8>,
) -> Seq<u8> {
    encode_utf8(id) + encode_utf8(sender) + encode_utf8(receiver) + spec_u64_to_le_bytes(amount)
        + spec_u64_to_le_bytes(timestamp) + signature
}

/// The content hash of a transaction record.
pub open spec fn tx_content_hash(
    id: Seq<char>,
    sender: Seq<char>,
    receiver: Seq<char>,
    amount: u64,
    timestamp: u64,
    signature: Seq<u8>,
) -> Seq<u8> {
    sha256_of(tx_hash_input(id, sender, receiver, amount, timestamp, signature))
}

/// One record of a user's local history, linked to the record that was
/// the head of the chain when it was appended.
#[derive(Debug)]
pub struct Transaction {
    pub id: String,
    pub sender: String,
    pub receiver: String,
    pub amount: u64,
    pub parent_id: Option<String>,
    pub child_ids: Vec<String>,
    pub signature: Vec<u8>,
    pub timestamp: u64,
}

impl Clone for Transaction {
    /// Clones the record, keeping every field's content.
    fn clone(&self) -> (res: Self)
        ensures
            res.id == self.id,
            res.sender == self.sender,
            res.receiver == self.receiver,
            res.amount == self.amount,
            res.parent_id == self.parent_id,
            res.child_ids@ == self.child_ids@,
            res.signature@ == self.signature@,
            res.timestamp == self.timestamp,
    {
        let parent_id = match &self.parent_id {
            Some(parent) => Some(parent.clone()),
            None => None,
        };
        Transaction {
            id: self.id.clone(),
            sender: self.sender.clone(),
            receiver: self.receiver.clone(),
            amount: self.amount,
            parent_id,
            child_ids: clone_string_vec(&self.child_ids),
            signature: clone_bytes(&self.signature),
            timestamp: self.timestamp,
        }
    }
}

impl Transaction {
    /// The content hash of this record's fields.
    pub open spec fn spec_content_hash(&self) -> Seq<u8> {
        tx_content_hash(
            self.id@,
            self.sender@,
            self.receiver@,
            self.amount,
            self.timestamp,
            self.signature@,
        )
    }

    /// Creates a record with the given fields and no children yet.
    pub fn new(
        id: String,
        sender: String,
        receiver: String,
        amount: u64,
        parent_id: Option<String>,
        signature: Vec<u8>,
        timestamp: u64,
    ) -> (tx: Transaction)
        ensures
            tx.id == id,
            tx.sender == sender,
            tx.receiver == receiver,
            tx.amount == amount,
            tx.parent_id == parent_id,
            tx.child_ids@ == Seq::<String>::empty(),
            tx.signature == signature,
            tx.timestamp == timestamp,
    {
        Transaction {
            id,
            sender,
            receiver,
            amount,
            parent_id,
            child_ids: Vec::new(),
            signature,
            timestamp,
        }
    }

    /// Computes the SHA-256 content hash over this record's id,
    /// sender, receiver, amount, timestamp and signature.
    pub fn compute_hash(&self) -> (r: Vec<u8>)
        ensures
            r@ == self.spec_content_hash(),
            r@.len() == 32,
    {
        let mut input: Vec<u8> = self.id.as_str().as_bytes_vec();
        let mut sender_bytes = self.sender.as_str().as_bytes_vec();
        input.append(&mut sender_bytes);
        let mut receiver_bytes = self.receiver.as_str().as_bytes_vec();
        input.append(&mut receiver_bytes);
        let mut amount_bytes = u64_to_le_bytes(self.amount);
        input.append(&mut amount_bytes);
        let mut timestamp_bytes = u64_to_le_bytes(self.timestamp);
        input.append(&mut timestamp_bytes);
        let mut signature_bytes = clone_bytes(&self.signature);
        input.append(&mut signature_bytes);
        proof {
            assert(input@ =~= tx_hash_input(
                self.id@,
                self.sender@,
                self.receiver@,
                self.amount,
                self.timestamp,
                self.signature@,
            ));
        }
        sha256(input.as_slice())
    }
}

/// Whether some record in the run holds the given id.
pub open spec fn txs_contain_id(txs: Seq<Transaction>, id: Seq<char>) -> bool {
    exists|i: int| 0 <= i < txs.len() && (#[trigger] txs[i]).id@ == id
}

/// The owner's balance after replaying a run of records from `balance`:
/// each record debits the owner when they sent it and credits them when
/// they received it.
pub open spec fn balance_after(txs: Seq<Transaction>, owner: Seq<char>, balance: int) -> int
    decreases txs.len(),
{
    if txs.len() == 0 {
        balance
    } else {
        let before = balance_after(txs.drop_last(), owner, balance);
        let last = txs.last();
        before - (if last.sender@ == owner {
            last.amount as int
        } else {
            0
        }) + (if last.receiver@ == owner {
            last.amount as int
        } else {
            0
        })
    }
}

/// The line structure at one chain position: the first record has no
/// parent, every later record's parent is its predecessor, every
/// record but the last has its successor as its one child, and the
/// last record has no children.
pub open spec fn chain_link_ok(txs: Seq<Transaction>, i: int) -> bool {
    &&& (i == 0 ==> txs[i].parent_id is None)
    &&& (i > 0 ==> txs[i].parent_id is Some && txs[i].parent_id->0@ == txs[i - 1].id@)
    &&& (i < txs.len() - 1 ==> txs[i].child_ids@.len() == 1 && txs[i].child_ids@[0]@ == txs[i
        + 1].id@)
    &&& (i == txs.len() - 1 ==> txs[i].child_ids@.len() == 0)
}

/// A user's local history: an append-only line of records. The vector
/// order is the chain order, oldest first.
#[derive(Debug)]
pub struct LocalDAG {
    pub transactions: Vec<Transaction>,
    pub latest_transaction_id: Option<String>,
}

impl LocalDAG {
    /// Whether some record holds the given id.
    pub open spec fn spec_contains_id(&self, id: Seq<char>) -> bool {
        txs_contain_id(self.transactions@, id)
    }

    /// The record holding the given id; meaningful where the chain
    /// holds it and ids never repeat.
    pub open spec fn spec_record(&self, id: Seq<char>) -> Transaction {
        self.transactions@[choose|i: int|
            0 <= i < self.transactions@.len() && (#[trigger] self.transactions@[i]).id@ == id]
    }

    /// The structure every local chain keeps: the records form one
    /// line. The first record has no parent, every later record's
    /// parent is its predecessor, every record but the last has its
    /// successor as its one child, ids never repeat, and the latest
    /// pointer names the last record.
    pub open spec fn wf(&self) -> bool {
        let txs = self.transactions@;
        &&& forall|i: int, j: int|
            #![trigger txs[i], txs[j]]
            0 <= i < j < txs.len() ==> txs[i].id@ != txs[j].id@
        &&& forall|i: int| 0 <= i < txs.len() ==> #[trigger] chain_link_ok(txs, i)
        &&& if txs.len() == 0 {
            self.latest_transaction_id is None
        } else {
            self.latest_transaction_id is Some && self.latest_transaction_id->0@
                == txs.last().id@
        }
    }

    /// Creates an empty chain.
    pub fn new() -> (chain: LocalDAG)
        ensures
            chain.transactions@.len() == 0,
            chain.latest_transaction_id is None,
            chain.wf(),
    {
        LocalDAG { transactions: Vec::new(), latest_transaction_id: None }
    }

    /// Appends a record whose parent is the current head. Fails only
    /// when the id is already recorded, which would fork the line.
    #[verifier::rlimit(60)]
    pub fn add_transaction(
        &mut self,
        transaction_id: String,
        sender_name: String,
        receiver_name: String,
        amount: u64,
        signature: Vec<u8>,
        timestamp: u64,
    ) -> (r: Result<(), LedgerError>)
        requires
            old(self).wf(),
        ensures
            r is Ok <==> !old(self).spec_contains_id(transaction_id@),
            r is Err ==> *final(self) == *old(self) && r->Err_0
                == LedgerError::DuplicateTransaction,
            r is Ok ==> {
                let txs = final(self).transactions@;
                let old_txs = old(self).transactions@;
                &&& txs.len() == old_txs.len() + 1
                &&& forall|i: int| 0 <= i < old_txs.len() - 1 ==> txs[i] == old_txs[i]
                &&& old_txs.len() > 0 ==> {
                    &&& txs[old_txs.len() - 1].id == old_txs.last().id
                    &&& txs[old_txs.len() - 1].sender == old_txs.last().sender
                    &&& txs[old_txs.len() - 1].receiver == old_txs.last().receiver
                    &&& txs[old_txs.len() - 1].amount == old_txs.last().amount
                    &&& txs[old_txs.len() - 1].parent_id == old_txs.last().parent_id
                    &&& txs[old_txs.len() - 1].signature == old_txs.last().signature
                    &&& txs[old_txs.len() - 1].timestamp == old_txs.last().timestamp
                    &&& txs[old_txs.len() - 1].child_ids@ == old_txs.last().child_ids@.push(
                        transaction_id,
                    )
                }
                &&& txs.last().id == transaction_id
                &&& txs.last().sender == sender_name
                &&& txs.last().receiver == receiver_name
                &&& txs.last().amount == amount
                &&& txs.last().signature == signature
                &&& txs.last().timestamp == timestamp
                &&& txs.last().child_ids@.len() == 0
                &&& (old_txs.len() == 0 ==> txs.last().parent_id is None)
                &&& (old_txs.len() > 0 ==> txs.last().parent_id is Some
                    && txs.last().parent_id->0@ == old_txs.last().id@)
                &&& final(self).latest_transaction_id is Some
                &&& final(self).latest_transaction_id->0@ == transaction_id@
                &&& final(self).wf()
                &&& forall|owner: Seq<char>, init: int|
                    #[trigger] balance_after(txs, owner, init) == balance_after(old_txs, owner, init)
                        - (if sender_name@ == owner {
                        amount as int
                    } else {
                        0
                    }) + (if receiver_name@ == owner {
                        amount as int
                    } else {
                        0
                    })
            },
    {
        if self.contains_id(transaction_id.as_str()) {
            return Err(LedgerError::DuplicateTransaction);
        }
        let parent_id = match &self.latest_transaction_id {
            Some(latest) => Some(latest.clone()),
            None => None,
        };
        let tx = Transaction::new(
            transaction_id.clone(),
            sender_name,
            receiver_name,
            amount,
            parent_id,
            signature,
            timestamp,
        );
        if self.transactions.len() > 0 {
            let mut tail = match self.transactions.pop() {
                Some(tail) => tail,
                None => {
                    proof {
                        assert(false);
                    }
                    return Err(LedgerError::DuplicateTransaction);
                },
            };
            tail.child_ids.push(transaction_id.clone());
            self.transactions.push(tail);
        }
        self.transactions.push(tx);
        self.latest_transaction_id = Some(transaction_id);
        proof {
            let txs = self.transactions@;
            let old_txs = old(self).transactions@;
            assert(txs.last() == txs[old_txs.len() as int]);
            assert(txs.drop_last() =~= txs.take(old_txs.len() as int));
            assert forall|i: int, j: int|
                #![trigger txs[i], txs[j]]
                0 <= i < j < txs.len() implies txs[i].id@ != txs[j].id@ by {
                if j < old_txs.len() {
                    assert(txs[i].id@ == old_txs[i].id@ && txs[j].id@ == old_txs[j].id@);
                } else {
                    assert(txs[i].id@ == old_txs[i].id@);
                    assert(!old(self).spec_contains_id(txs[j].id@));
                }
            }
            assert forall|owner: Seq<char>, init: int|
                #[trigger] balance_after(txs, owner, init) == balance_after(old_txs, owner, init)
                    - (if sender_name@ == owner {
                    amount as int
                } else {
                    0
                }) + (if receiver_name@ == owner {
                    amount as int
                } else {
                    0
                }) by {
                lemma_balance_alike(old_txs, txs.drop_last(), owner, init);
            }
            assert forall|i: int| 0 <= i < txs.len() implies #[trigger] chain_link_ok(txs, i) by {
                let old_len = old_txs.len() as int;
                if i < old_len - 1 {
                    assert(chain_link_ok(old_txs, i));
                    assert(txs[i] == old_txs[i]);
                    if i > 0 {
                        assert(txs[i - 1] == old_txs[i - 1]);
                    }
                    assert(txs[i + 1].id == old_txs[i + 1].id);
                } else if old_len > 0 && i == old_len - 1 {
                    assert(chain_link_ok(old_txs, i));
                    if i > 0 {
                        assert(txs[i - 1] == old_txs[i - 1]);
                    }
                    assert(txs[i].child_ids@.len() == 1);
                    assert(txs[i].child_ids@[0]@ == txs[i + 1].id@);
                } else {
                    assert(i == old_len);
                    if old_len > 0 {
                        assert(txs[i - 1].id@ == old_txs.last().id@);
                    }
                }
            }
        }
        Ok(())
    }


    /// Replays this chain as `user_name`'s history: checks every
    /// record's signature against the sender's current key in the
    /// pool, that every parent link names a record of the chain, and
    /// the owner's running balance from their opening balance.
    #[verifier::rlimit(100)]
    pub fn validate_transactions(
        &self,
        user_name: &str,
        user_public_key: &[u8],
        user_pool: &UserPool,
    ) -> (r: Result<(), LedgerError>)
        requires
            user_pool.wf(),
        ensures
            r == spec_validate_chain(*self, user_name@, *user_pool),
    {
        let initial_balance = match user_pool.get_user_initial_balance(user_name) {
            Some(balance) => balance,
            None => 0,
        };
        let mut balance: u64 = initial_balance;
        let mut i: usize = 0;
        while i < self.transactions.len()
            invariant
                user_pool.wf(),
                i <= self.transactions@.len(),
                spec_validate_chain(*self, user_name@, *user_pool) == spec_validate_from(
                    self.transactions@,
                    i as int,
                    balance as int,
                    user_name@,
                    *user_pool,
                ),
            decreases self.transactions@.len() - i,
        {
            let ghost entry_balance = balance as int;
            let tx = &self.transactions[i];
            let sender_public_key = match user_pool.get_user_public_key(tx.sender.as_str()) {
                Some(key) => key,
                None => {
                    return Err(LedgerError::UnknownUser);
                },
            };
            let message = canonical_message(
                tx.id.as_str(),
                tx.sender.as_str(),
                tx.receiver.as_str(),
                tx.amount,
                tx.timestamp,
            );
            match KeyPairWrapper::verify(&sender_public_key, message.as_str(), &tx.signature) {
                Ok(()) => {},
                Err(_) => {
                    return Err(LedgerError::BadSignature);
                },
            }
            match &tx.parent_id {
                None => {},
                Some(parent) => {
                    if !self.contains_id(parent.as_str()) {
                        return Err(LedgerError::BrokenChain);
                    }
                },
            }
            if str_eq(tx.sender.as_str(), user_name) {
                if balance < tx.amount {
                    return Err(LedgerError::InsufficientBalance);
                }
                balance = balance - tx.amount;
            }
            if str_eq(tx.receiver.as_str(), user_name) {
                balance = match balance.checked_add(tx.amount) {
                    Some(updated) => updated,
                    None => {
                        return Err(LedgerError::BalanceOverflow);
                    },
                };
            }
            proof {
                let txs = self.transactions@;
                let spec_tx = txs[i as int];
                let updated = entry_balance - (if spec_tx.sender@ == user_name@ {
                    spec_tx.amount as int
                } else {
                    0
                }) + (if spec_tx.receiver@ == user_name@ {
                    spec_tx.amount as int
                } else {
                    0
                });
                assert(balance as int == updated);
                assert(spec_validate_from(txs, i as int, entry_balance, user_name@, *user_pool)
                    == spec_validate_from(txs, i as int + 1, updated, user_name@, *user_pool));
            }
            i = i + 1;
        }
        Ok(())
    }


    /// Renders the chain as text, one line a record, each a step
    /// deeper than the one it follows.
    pub fn get_dag_as_string(&self) -> (s: String)
        ensures
            s@ == chain_text(self.transactions@),
    {
        let mut s = String::new();
        let mut i: usize = 0;
        while i < self.transactions.len()
            invariant
                i <= self.transactions@.len(),
                s@ =~= chain_text(self.transactions@.take(i as int)),
            decreases self.transactions@.len() - i,
        {
            let line = render_tx_line(&self.transactions[i], i);
            s.append(line.as_str());
            i = i + 1;
            proof {
                let taken = self.transactions@.take(i as int);
                assert(taken.drop_last() =~= self.transactions@.take(i as int - 1));
                assert(taken.last() == self.transactions@[i as int - 1]);
                assert(s@ =~= chain_text(taken));
            }
        }
        proof {
            assert(self.transactions@.take(self.transactions@.len() as int)
                =~= self.transactions@);
        }
        s
    }

    /// Looks a record up by id.
    pub fn get_transaction_by_id(&self, transaction_id: &str) -> (r: Option<&Transaction>)
        ensures
            r is Some <==> self.spec_contains_id(transaction_id@),
            r is Some ==> r->0.id@ == transaction_id@ && self.transactions@.contains(*r->0),
    {
        let mut i: usize = 0;
        while i < self.transactions.len()
            invariant
                i <= self.transactions@.len(),
                forall|j: int|
                    0 <= j < i ==> (#[trigger] self.transactions@[j]).id@ != transaction_id@,
            decreases self.transactions@.len() - i,
        {
            if crate::strutil::str_eq(self.transactions[i].id.as_str(), transaction_id) {
                return Some(&self.transactions[i]);
            }
            i = i + 1;
        }
        None
    }

    /// Whether a record with this id exists.
    pub fn contains_id(&self, transaction_id: &str) -> (r: bool)
        ensures
            r == self.spec_contains_id(transaction_id@),
    {
        self.get_transaction_by_id(transaction_id).is_some()
    }

    /// Looks a record up by id.
    pub fn get_transaction(&self, transaction_id: &str) -> (r: Option<&Transaction>)
        ensures
            r is Some <==> self.spec_contains_id(transaction_id@),
            r is Some ==> r->0.id@ == transaction_id@ && self.transactions@.contains(*r->0),
    {
        self.get_transaction_by_id(transaction_id)
    }
}


/// The result of replaying a chain for `owner` from position `i` with
/// the given running balance: the first failing record decides, a
/// record fails on an unknown sender, a bad signature, a parent id no
/// record holds, a debit the balance does not cover, or a credit the
/// wallet cannot hold, in that order.
pub open spec fn spec_validate_from(
    txs: Seq<Transaction>,
    i: int,
    balance: int,
    owner: Seq<char>,
    pool: UserPool,
) -> Result<(), LedgerError>
    decreases txs.len() - i,
{
    if i < 0 || i >= txs.len() {
        Ok(())
    } else {
        let tx = txs[i];
        if !pool.spec_has_user(tx.sender@) {
            Err(LedgerError::UnknownUser)
        } else if !sig_valid(
            pool.spec_user(tx.sender@).public_key@,
            canonical_msg(tx.id@, tx.sender@, tx.receiver@, tx.amount, tx.timestamp),
            tx.signature@,
        ) {
            Err(LedgerError::BadSignature)
        } else if tx.parent_id is Some && !txs_contain_id(txs, tx.parent_id->0@) {
            Err(LedgerError::BrokenChain)
        } else if tx.sender@ == owner && balance < tx.amount {
            Err(LedgerError::InsufficientBalance)
        } else {
            let updated = balance - (if tx.sender@ == owner {
                tx.amount as int
            } else {
                0
            }) + (if tx.receiver@ == owner {
                tx.amount as int
            } else {
                0
            });
            if updated > u64::MAX {
                Err(LedgerError::BalanceOverflow)
            } else {
                spec_validate_from(txs, i + 1, updated, owner, pool)
            }
        }
    }
}

/// The result of replaying a whole chain for `owner`, starting from
/// the opening balance the pool records for them (0 when unknown).
pub open spec fn spec_validate_chain(chain: LocalDAG, owner: Seq<char>, pool: UserPool) -> Result<
    (),
    LedgerError,
> {
    spec_validate_from(
        chain.transactions@,
        0,
        (if pool.spec_has_user(owner) {
            pool.spec_user(owner).initial_balance
        } else {
            0
        }) as int,
        owner,
        pool,
    )
}


/// The decimal renderings of a byte string, comma separated.
pub open spec fn dec_list(bytes: Seq<u8>) -> Seq<char>
    decreases bytes.len(),
{
    if bytes.len() == 0 {
        Seq::<char>::empty()
    } else if bytes.len() == 1 {
        dec_chars(bytes[0] as nat)
    } else {
        dec_list(bytes.drop_last()) + ", "@ + dec_chars(bytes.last() as nat)
    }
}

/// A string in quotes.
pub open spec fn quoted(s: Seq<char>) -> Seq<char> {
    "\""@ + s + "\""@
}

/// The quoted renderings of a list of ids, comma separated.
pub open spec fn quoted_list(ids: Seq<String>) -> Seq<char>
    decreases ids.len(),
{
    if ids.len() == 0 {
        Seq::<char>::empty()
    } else if ids.len() == 1 {
        quoted(ids[0]@)
    } else {
        quoted_list(ids.drop_last()) + ", "@ + quoted(ids.last()@)
    }
}

/// How a record's parent link reads.
pub open spec fn parent_text(parent: Option<String>) -> Seq<char> {
    match parent {
        None => "None"@,
        Some(p) => "Some("@ + quoted(p@) + ")"@,
    }
}

/// Two spaces of indent for each level.
pub open spec fn indent_chars(depth: nat) -> Seq<char>
    decreases depth,
{
    if depth == 0 {
        Seq::<char>::empty()
    } else {
        indent_chars((depth - 1) as nat) + "  "@
    }
}

/// One record's line of the chain dump.
pub open spec fn tx_line(tx: Transaction, depth: nat) -> Seq<char> {
    indent_chars(depth) + "Transaction ID: "@ + tx.id@ + ", Sender: "@ + tx.sender@
        + ", Receiver: "@ + tx.receiver@ + ", Amount: "@ + dec_chars(tx.amount as nat)
        + ", Timestamp: "@ + dec_chars(tx.timestamp as nat) + ", Signature: "@ + ("["@ + dec_list(
        tx.signature@,
    ) + "]"@) + ", Parent: "@ + parent_text(tx.parent_id) + ", Children: "@ + ("["@ + quoted_list(
        tx.child_ids@,
    ) + "]"@) + "\n"@
}

/// The whole chain dump: one line a record, indented by position.
pub open spec fn chain_text(txs: Seq<Transaction>) -> Seq<char>
    decreases txs.len(),
{
    if txs.len() == 0 {
        Seq::<char>::empty()
    } else {
        chain_text(txs.drop_last()) + tx_line(txs.last(), (txs.len() - 1) as nat)
    }
}

fn render_bytes(bytes: &Vec<u8>) -> (s: String)
    ensures
        s@ == "["@ + dec_list(bytes@) + "]"@,
{
    let mut s = String::from_str("[");
    let mut i: usize = 0;
    while i < bytes.len()
        invariant
            i <= bytes@.len(),
            s@ =~= "["@ + dec_list(bytes@.take(i as int)),
        decreases bytes@.len() - i,
    {
        if i > 0 {
            s.append(", ");
        }
        let piece = u64_to_string(bytes[i] as u64);
        s.append(piece.as_str());
        i = i + 1;
        proof {
            let taken = bytes@.take(i as int);
            assert(taken.drop_last() =~= bytes@.take(i as int - 1));
            assert(taken.last() == bytes@[i as int - 1]);
            assert(s@ =~= "["@ + dec_list(taken));
        }
    }
    proof {
        assert(bytes@.take(bytes@.len() as int) =~= bytes@);
    }
    s.append("]");
    s
}

fn render_children(ids: &Vec<String>) -> (s: String)
    ensures
        s@ == "["@ + quoted_list(ids@) + "]"@,
{
    let mut s = String::from_str("[");
    let mut i: usize = 0;
    while i < ids.len()
        invariant
            i <= ids@.len(),
            s@ =~= "["@ + quoted_list(ids@.take(i as int)),
        decreases ids@.len() - i,
    {
        if i > 0 {
            s.append(", ");
        }
        s.append("\"");
        s.append(ids[i].as_str());
        s.append("\"");
        i = i + 1;
        proof {
            let taken = ids@.take(i as int);
            assert(taken.drop_last() =~= ids@.take(i as int - 1));
            assert(taken.last() == ids@[i as int - 1]);
            assert(s@ =~= "["@ + quoted_list(taken));
        }
    }
    proof {
        assert(ids@.take(ids@.len() as int) =~= ids@);
    }
    s.append("]");
    s
}

fn render_indent(depth: usize) -> (s: String)
    ensures
        s@ == indent_chars(depth as nat),
{
    let mut s = String::new();
    let mut i: usize = 0;
    while i < depth
        invariant
            i <= depth,
            s@ =~= indent_chars(i as nat),
        decreases depth - i,
    {
        s.append("  ");
        i = i + 1;
    }
    s
}

fn render_tx_line(tx: &Transaction, depth: usize) -> (s: String)
    ensures
        s@ == tx_line(*tx, depth as nat),
{
    let mut s = render_indent(depth);
    s.append("Transaction ID: ");
    s.append(tx.id.as_str());
    s.append(", Sender: ");
    s.append(tx.sender.as_str());
    s.append(", Receiver: ");
    s.append(tx.receiver.as_str());
    s.append(", Amount: ");
    let amount_text = u64_to_string(tx.amount);
    s.append(amount_text.as_str());
    s.append(", Timestamp: ");
    let timestamp_text = u64_to_string(tx.timestamp);
    s.append(timestamp_text.as_str());
    s.append(", Signature: ");
    let signature_text = render_bytes(&tx.signature);
    s.append(signature_text.as_str());
    s.append(", Parent: ");
    match &tx.parent_id {
        None => {
            s.append("None");
        },
        Some(parent) => {
            s.append("Some(");
            s.append("\"");
            s.append(parent.as_str());
            s.append("\"");
            s.append(")");
        },
    }
    s.append(", Children: ");
    let children_text = render_children(&tx.child_ids);
    s.append(children_text.as_str());
    s.append("\n");
    proof {
        assert(s@ =~= tx_line(*tx, depth as nat));
    }
    s
}


/// The total every record credits the owner with.
pub open spec fn sum_received(txs: Seq<Transaction>, owner: Seq<char>) -> int
    decreases txs.len(),
{
    if txs.len() == 0 {
        0
    } else {
        sum_received(txs.drop_last(), owner) + (if txs.last().receiver@ == owner {
            txs.last().amount as int
        } else {
            0
        })
    }
}

/// The total every record debits the owner with.
pub open spec fn sum_sent(txs: Seq<Transaction>, owner: Seq<char>) -> int
    decreases txs.len(),
{
    if txs.len() == 0 {
        0
    } else {
        sum_sent(txs.drop_last(), owner) + (if txs.last().sender@ == owner {
            txs.last().amount as int
        } else {
            0
        })
    }
}

/// A replayed balance is the starting balance plus everything the
/// owner received minus everything they sent. Together with the
/// balance invariant that every pool operation keeps, a user's wallet
/// always reads `initial_balance + sum_received - sum_sent` over their
/// committed history.
pub proof fn lemma_balance_is_initial_plus_flows(
    txs: Seq<Transaction>,
    owner: Seq<char>,
    initial: int,
)
    ensures
        balance_after(txs, owner, initial) == initial + sum_received(txs, owner) - sum_sent(
            txs,
            owner,
        ),
    decreases txs.len(),
{
    if txs.len() > 0 {
        lemma_balance_is_initial_plus_flows(txs.drop_last(), owner, initial);
    }
}

/// In a well-formed chain, any held record with an id is the chain's
/// one record under that id.
pub proof fn lemma_record_unique(chain: LocalDAG, tx: Transaction, id: Seq<char>)
    requires
        chain.wf(),
        chain.transactions@.contains(tx),
        tx.id@ == id,
    ensures
        chain.spec_contains_id(id),
        chain.spec_record(id) == tx,
{
    let txs = chain.transactions@;
    let i = choose|i: int| 0 <= i < txs.len() && txs[i] == tx;
    assert(txs[i].id@ == id);
    assert(chain.spec_contains_id(id));
    let k = choose|k: int| 0 <= k < txs.len() && (#[trigger] txs[k]).id@ == id;
    if i != k {
        if i < k {
            assert(txs[i].id@ != txs[k].id@);
        } else {
            assert(txs[k].id@ != txs[i].id@);
        }
        assert(false);
    }
}

/// Replaying a balance reads only each record's sender, receiver and
/// amount, so two runs that agree on those replay alike.
pub proof fn lemma_balance_alike(
    txs1: Seq<Transaction>,
    txs2: Seq<Transaction>,
    owner: Seq<char>,
    balance: int,
)
    requires
        txs1.len() == txs2.len(),
        forall|i: int|
            #![trigger txs2[i]]
            0 <= i < txs1.len() ==> txs2[i].sender@ == txs1[i].sender@ && txs2[i].receiver@
                == txs1[i].receiver@ && txs2[i].amount == txs1[i].amount,
    ensures
        balance_after(txs1, owner, balance) == balance_after(txs2, owner, balance),
    decreases txs1.len(),
{
    if txs1.len() > 0 {
        assert forall|i: int|
            #![trigger txs2.drop_last()[i]]
            0 <= i < txs1.drop_last().len() implies txs2.drop_last()[i].sender@
            == txs1.drop_last()[i].sender@ && txs2.drop_last()[i].receiver@
            == txs1.drop_last()[i].receiver@ && txs2.drop_last()[i].amount
            == txs1.drop_last()[i].amount by {
            assert(txs2.drop_last()[i] == txs2[i]);
        }
        lemma_balance_alike(txs1.drop_last(), txs2.drop_last(), owner, balance);
        assert(txs2.last() == txs2[txs1.len() - 1]);
    }
}

} // verus!
