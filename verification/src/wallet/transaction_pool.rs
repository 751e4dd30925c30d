//! The pool of transactions that wait to be mined.

use crate::wallet::transaction::{
    first_output_to, transaction_views, Transaction, TransactionId, TransactionView,
};
use vstd::prelude::*;

verus! {

/// Pending transactions, at most one per identity when filled through
/// `update_or_add_transaction`.
pub struct TransactionPool {
    pub transactions: Vec<Transaction>,
}

impl View for TransactionPool {
    type V = Seq<TransactionView>;

    open spec fn view(&self) -> Seq<TransactionView> {
        transaction_views(self.transactions@)
    }
}

/// Whether no identity occurs twice.
pub open spec fn unique_ids(pool: Seq<TransactionView>) -> bool {
    forall|i: int, j: int| 0 <= i < j < pool.len() ==> pool[i].id != pool[j].id
}

/// The position, from `start` on, of the first transaction with identity `id`.
pub open spec fn position_from(pool: Seq<TransactionView>, id: TransactionId, start: int) -> Option<
    int,
>
    decreases pool.len() - start,
{
    if start < 0 || start >= pool.len() {
        None
    } else if pool[start].id == id {
        Some(start)
    } else {
        position_from(pool, id, start + 1)
    }
}

/// The position of the first transaction with identity `id`.
pub open spec fn position_of(pool: Seq<TransactionView>, id: TransactionId) -> Option<int> {
    position_from(pool, id, 0)
}

/// The pool after `transaction` was handed in: it takes the place of the
/// first transaction with its identity, or the last place if there is none.
pub open spec fn stored(pool: Seq<TransactionView>, transaction: TransactionView) -> Seq<
    TransactionView,
> {
    match position_of(pool, transaction.id) {
        Some(i) => pool.update(i, transaction),
        None => pool.push(transaction),
    }
}

/// The position, from `start` on, of the first transaction whose input
/// names `address` as the sender.
pub open spec fn authored_from(pool: Seq<TransactionView>, address: Seq<char>, start: int) -> Option<
    int,
>
    decreases pool.len() - start,
{
    if start < 0 || start >= pool.len() {
        None
    } else if pool[start].input is Some && pool[start].input.unwrap().address == address {
        Some(start)
    } else {
        authored_from(pool, address, start + 1)
    }
}

/// The position of the first transaction whose input names `address` as
/// the sender.
pub open spec fn first_authored_by(pool: Seq<TransactionView>, address: Seq<char>) -> Option<int> {
    authored_from(pool, address, 0)
}

/// Whether the pending transaction of `address`, if the pool holds one with
/// an output to the address, can give up `amount` from that output.
pub open spec fn pending_covers(pool: Seq<TransactionView>, address: Seq<char>, amount: u64) -> bool {
    match first_authored_by(pool, address) {
        Some(i) => match first_output_to(pool[i].outputs, address) {
            Some(k) => pool[i].outputs[k].amount >= amount,
            None => true,
        },
        None => true,
    }
}

/// The test a pending transaction has to pass before it is mined: the
/// outputs add up to what the input states, and the signature verifies.
pub open spec fn admissible() -> spec_fn(TransactionView) -> bool {
    |t: TransactionView| t.balanced() && t.verifies()
}

/// What `position_from` finds is the first match at or after `start`.
pub proof fn lemma_position_from(pool: Seq<TransactionView>, id: TransactionId, start: int)
    requires
        0 <= start,
    ensures
        match position_from(pool, id, start) {
            Some(i) => {
                &&& start <= i < pool.len()
                &&& pool[i].id == id
                &&& forall|j: int| start <= j < i ==> pool[j].id != id
            },
            None => forall|j: int| start <= j < pool.len() ==> pool[j].id != id,
        },
    decreases pool.len() - start,
{
    if start < pool.len() && pool[start].id != id {
        lemma_position_from(pool, id, start + 1);
    }
}

/// The first match at or after `start` is what `position_from` finds.
pub proof fn lemma_position_found(pool: Seq<TransactionView>, id: TransactionId, start: int, i: int)
    requires
        0 <= start <= i < pool.len(),
        pool[i].id == id,
        forall|j: int| start <= j < i ==> pool[j].id != id,
    ensures
        position_from(pool, id, start) == Some(i),
    decreases i - start,
{
    if start < i {
        lemma_position_found(pool, id, start + 1, i);
    }
}

/// Handing in the same transaction a second time changes nothing, and a
/// transaction whose identity the pool already holds never makes it longer.
pub proof fn lemma_update_or_add_idempotent(pool: Seq<TransactionView>, transaction: TransactionView)
    ensures
        stored(stored(pool, transaction), transaction) == stored(pool, transaction),
        position_of(pool, transaction.id) is Some ==> stored(pool, transaction).len() == pool.len(),
        position_of(pool, transaction.id) is None ==> stored(pool, transaction).len() == pool.len()
            + 1,
{
    let once = stored(pool, transaction);
    lemma_position_from(pool, transaction.id, 0);
    let at = match position_of(pool, transaction.id) {
        Some(i) => i,
        None => pool.len() as int,
    };
    lemma_position_found(once, transaction.id, 0, at);
    assert(once.update(at, transaction) =~= once);
}

/// Handing in a transaction keeps identities unique.
pub proof fn lemma_update_or_add_keeps_unique(pool: Seq<TransactionView>, transaction: TransactionView)
    requires
        unique_ids(pool),
    ensures
        unique_ids(stored(pool, transaction)),
{
    lemma_position_from(pool, transaction.id, 0);
}

impl TransactionPool {
    /// An empty pool.
    pub fn new() -> (pool: TransactionPool)
        ensures
            pool@.len() == 0,
            unique_ids(pool@),
    {
        TransactionPool { transactions: Vec::new() }
    }

    /// Puts the transaction in the place of the pending transaction with the
    /// same identity, or at the end if there is none.
    pub fn update_or_add_transaction(&mut self, transaction: Transaction)
        ensures
            final(self)@ == stored(old(self)@, transaction@),
            unique_ids(old(self)@) ==> unique_ids(final(self)@),
    {
        let mut at: usize = 0;
        while at < self.transactions.len() && self.transactions[at].id.0 != transaction.id.0
            invariant
                at <= self.transactions.len(),
                position_of(self@, transaction@.id) == position_from(
                    self@,
                    transaction@.id,
                    at as int,
                ),
            decreases self.transactions.len() - at,
        {
            at += 1;
        }
        proof {
            if unique_ids(self@) {
                lemma_update_or_add_keeps_unique(self@, transaction@);
            }
        }
        if at < self.transactions.len() {
            self.transactions.set(at, transaction);
            assert(self@ =~= old(self)@.update(at as int, transaction@));
        } else {
            self.transactions.push(transaction);
            assert(self@ =~= old(self)@.push(transaction@));
        }
    }

    /// A copy of the first pending transaction whose input names `address`
    /// as the sender. Transactions without input are passed over.
    pub fn existing_transaction(&self, address: &str) -> (found: Option<Transaction>)
        ensures
            match first_authored_by(self@, address@) {
                Some(i) => found is Some && found.unwrap()@ == self@[i],
                None => found is None,
            },
    {
        let wanted = address.to_owned();
        let mut i: usize = 0;
        while i < self.transactions.len()
            invariant
                i <= self.transactions.len(),
                wanted@ == address@,
                first_authored_by(self@, address@) == authored_from(self@, address@, i as int),
            decreases self.transactions.len() - i,
        {
            let authored = match &self.transactions[i].input {
                Some(input) => input.address == wanted,
                None => false,
            };
            if authored {
                return Some(self.transactions[i].clone());
            }
            i += 1;
        }
        None
    }

    /// Copies of the pending transactions that may be mined, in the order of
    /// the pool: those whose outputs add up to what their input states and
    /// whose signature verifies. The pool is not changed.
    pub fn valid_transactions(&self) -> (valid: Vec<Transaction>)
        ensures
            transaction_views(valid@) == self@.filter(admissible()),
    {
        let mut valid: Vec<Transaction> = Vec::new();
        let mut i: usize = 0;
        proof {
            reveal(Seq::filter);
            assert(self@.take(0) =~= Seq::<TransactionView>::empty());
        }
        assert(transaction_views(valid@) =~= self@.take(0).filter(admissible()));
        while i < self.transactions.len()
            invariant
                i <= self.transactions.len(),
                transaction_views(valid@) == self@.take(i as int).filter(admissible()),
            decreases self.transactions.len() - i,
        {
            let t = &self.transactions[i];
            proof {
                reveal(Seq::filter);
                assert(self@.take(i + 1).drop_last() =~= self@.take(i as int));
                assert(self@.take(i + 1).last() == t@);
            }
            if t.is_balanced() && t.verify() {
                let ghost before = transaction_views(valid@);
                valid.push(t.clone());
                assert(transaction_views(valid@) =~= before.push(t@));
            }
            i += 1;
        }
        assert(self@.take(i as int) =~= self@);
        valid
    }

    /// Whether the pending transaction of `address`, if the pool holds one
    /// with an output to the address, can give up `amount` from that output.
    pub fn covers(&self, address: &str, amount: u64) -> (ok: bool)
        ensures
            ok == pending_covers(self@, address@, amount),
    {
        match self.existing_transaction(address) {
            Some(pending) => match pending.find_output(address) {
                Some(kept) => pending.outputs[kept].amount >= amount,
                None => true,
            },
            None => true,
        }
    }

    /// Empties the pool.
    pub fn clear(&mut self)
        ensures
            final(self)@.len() == 0,
    {
        self.transactions.clear();
    }
}

} // verus!
