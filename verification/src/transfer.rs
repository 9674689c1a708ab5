use vstd::prelude::*;
use crate::errors::LedgerError;
use crate::blockchain::Blockchain;
use crate::wallet::User;
use crate::wallet::UserPool;
use crate::wallet::Wallet;
use crate::numfmt::dec_chars;
use crate::numfmt::u64_to_string;

verus! {

/// The line a transfer writes into the chain.
pub open spec fn transfer_text(sender: Seq<char>, amount: u64, receiver: Seq<char>) -> Seq<char> {
    sender + " sent "@ + dec_chars(amount as nat) + " tokens to "@ + receiver
}

/// Moves tokens between two registered users and records the transfer
/// as a new block on the chain. A failed transfer changes nothing.
pub fn process_transaction(
    user_pool: &mut UserPool,
    blockchain: &mut Blockchain,
    sender_name: &str,
    receiver_name: &str,
    amount: u64,
) -> (r: Result<(u64, u64), LedgerError>)
    requires
        old(user_pool).wf(),
        old(blockchain).chain@.len() >= 1,
        old(blockchain).chain@.len() <= u32::MAX,
    ensures
        r == Err::<(u64, u64), LedgerError>(LedgerError::UnknownUser) <==> !(old(
            user_pool,
        ).spec_has_user(sender_name@) && old(user_pool).spec_has_user(receiver_name@)),
        r is Err ==> *final(user_pool) == *old(user_pool) && *final(blockchain) == *old(
            blockchain,
        ),
        r is Ok ==> {
            let sender_index = old(user_pool).spec_user_index(sender_name@);
            let receiver_index = old(user_pool).spec_user_index(receiver_name@);
            &&& final(user_pool).wf()
            &&& final(user_pool).users@.len() == old(user_pool).users@.len()
            &&& (sender_name@ != receiver_name@ ==> {
                &&& r->Ok_0.0 == old(user_pool).users@[sender_index].wallet.balance - amount
                &&& r->Ok_0.1 == old(user_pool).users@[receiver_index].wallet.balance + amount
                &&& final(user_pool).users@[sender_index].wallet.balance == r->Ok_0.0
                &&& final(user_pool).users@[receiver_index].wallet.balance == r->Ok_0.1
            })
            &&& (sender_name@ == receiver_name@ ==> r->Ok_0.0 == old(
                user_pool,
            ).users@[sender_index].wallet.balance && r->Ok_0.1 == r->Ok_0.0)
            &&& final(blockchain).chain@.len() == old(blockchain).chain@.len() + 1
            &&& final(blockchain).chain@.last().data@ == transfer_text(
                sender_name@,
                amount,
                receiver_name@,
            )
            &&& final(blockchain).chain@.last().hash_consistent()
        },
{
    let sender_index = match user_pool.find_user_index(sender_name) {
        Some(index) => index,
        None => {
            return Err(LedgerError::UnknownUser);
        },
    };
    let receiver_index = match user_pool.find_user_index(receiver_name) {
        Some(index) => index,
        None => {
            return Err(LedgerError::UnknownUser);
        },
    };
    let sender_balance = user_pool.users[sender_index].wallet.balance;
    if sender_balance < amount {
        return Err(LedgerError::InsufficientBalance);
    }
    let sender_new_balance: u64;
    let receiver_new_balance: u64;
    if sender_index == receiver_index {
        sender_new_balance = sender_balance;
        receiver_new_balance = sender_balance;
    } else {
        let receiver_balance = user_pool.users[receiver_index].wallet.balance;
        let credited = match receiver_balance.checked_add(amount) {
            Some(credited) => credited,
            None => {
                return Err(LedgerError::BalanceOverflow);
            },
        };
        sender_new_balance = sender_balance - amount;
        receiver_new_balance = credited;
        let sender_name_owned = user_pool.users[sender_index].name.clone();
        user_pool.users.set(
            sender_index,
            User { name: sender_name_owned, wallet: Wallet { balance: sender_new_balance } },
        );
        let receiver_name_owned = user_pool.users[receiver_index].name.clone();
        user_pool.users.set(
            receiver_index,
            User { name: receiver_name_owned, wallet: Wallet { balance: receiver_new_balance } },
        );
        proof {
            assert forall|a: int, b: int|
                #![trigger user_pool.users@[a], user_pool.users@[b]]
                0 <= a < b < user_pool.users@.len() implies user_pool.users@[a].name@
                != user_pool.users@[b].name@ by {
                assert(old(user_pool).users@[a].name@ != old(user_pool).users@[b].name@);
            }
        }
    }
    let mut transaction_info = String::new();
    transaction_info.append(sender_name);
    transaction_info.append(" sent ");
    let amount_text = u64_to_string(amount);
    transaction_info.append(amount_text.as_str());
    transaction_info.append(" tokens to ");
    transaction_info.append(receiver_name);
    proof {
        assert(transaction_info@ =~= transfer_text(sender_name@, amount, receiver_name@));
    }
    blockchain.add_block(transaction_info);
    Ok((sender_new_balance, receiver_new_balance))
}

} // verus!
