//! A wallet: a key pair, the address derived from it and a cached balance.

use crate::blockchain::block::BlockView;
use crate::blockchain::blockchain::Blockchain;
use crate::utils::base16;
use crate::utils::base16::{hex_bytes, hex_text, lemma_hex_round_trip};
use crate::utils::config::INITIAL_BALANCE;
use crate::utils::json::{decimal_text, write_number};
use crate::wallet::keys;
use crate::wallet::keys::{signature_of, signature_verifies, KeyPair};
use crate::wallet::transaction::{
    extended_outputs, first_output_to, is_random_uuid, output_views, signed_by,
    transaction_views,
    transfer_outputs, OutputView, Transaction, TransactionOutput, TransactionView,
};
use crate::wallet::transaction_pool::{
    authored_from, first_authored_by, lemma_position_found, lemma_position_from,
    lemma_update_or_add_keeps_unique, pending_covers, position_of, stored, unique_ids,
    TransactionPool,
};
use vstd::prelude::*;

verus! {

/// A key pair with the address it signs for, which is the hexadecimal text
/// of its public key, and a cached balance; the balance that counts is
/// derived from the chain.
pub struct Wallet {
    balance: u64,
    keys: KeyPair,
    public_key: String,
}

/// Whether `signature`, the hexadecimal text of a DER signature, is a
/// signature of `message` under the key whose SEC1 encoding `address` spells
/// in hexadecimal. False where either text is not hexadecimal.
pub open spec fn address_verifies(
    address: Seq<char>,
    message: Seq<char>,
    signature: Seq<char>,
) -> bool {
    match (hex_bytes(address), hex_bytes(signature)) {
        (Some(key), Some(sig)) => signature_verifies(key, message, sig),
        _ => false,
    }
}

/// Every transaction of a chain, block after block.
pub open spec fn chain_transactions(chain: Seq<BlockView>) -> Seq<TransactionView>
    decreases chain.len(),
{
    if chain.len() == 0 {
        Seq::empty()
    } else {
        chain_transactions(chain.drop_last()) + chain.last().data
    }
}

/// Whether the input of a transaction names `address` as the sender.
pub open spec fn authored_by(transaction: TransactionView, address: Seq<char>) -> bool {
    transaction.input is Some && transaction.input.unwrap().address == address
}

/// The second at which a signed transaction was signed.
pub open spec fn signed_at(transaction: TransactionView) -> int {
    transaction.input.unwrap().timestamp.seconds() as int
}

/// The position of the transaction that `address` signed last: among the
/// transactions it authored the one with the greatest second of signing,
/// and among several of that second the last in the list.
pub open spec fn latest_authored(transactions: Seq<TransactionView>, address: Seq<char>) -> Option<
    int,
>
    decreases transactions.len(),
{
    if transactions.len() == 0 {
        None
    } else {
        let earlier = latest_authored(transactions.drop_last(), address);
        if authored_by(transactions.last(), address) && (earlier is None || signed_at(
            transactions[earlier.unwrap()],
        ) <= signed_at(transactions.last())) {
            Some(transactions.len() - 1)
        } else {
            earlier
        }
    }
}

/// The sum of the outputs that go to `address`.
pub open spec fn amount_to(outputs: Seq<OutputView>, address: Seq<char>) -> nat
    decreases outputs.len(),
{
    if outputs.len() == 0 {
        0
    } else {
        amount_to(outputs.drop_last(), address) + if outputs.last().address == address {
            outputs.last().amount as nat
        } else {
            0
        }
    }
}

/// What `address` gets from one transaction if that was signed after the
/// second `start`; nothing from a transaction without input.
pub open spec fn gain(transaction: TransactionView, address: Seq<char>, start: int) -> nat {
    if transaction.input is Some && signed_at(transaction) > start {
        amount_to(transaction.outputs, address)
    } else {
        0
    }
}

/// What `address` gets from the transactions signed after the second `start`.
pub open spec fn received_after(
    transactions: Seq<TransactionView>,
    address: Seq<char>,
    start: int,
) -> nat
    decreases transactions.len(),
{
    if transactions.len() == 0 {
        0
    } else {
        received_after(transactions.drop_last(), address, start) + gain(
            transactions.last(),
            address,
            start,
        )
    }
}

/// What the sender of a transaction kept for itself: the amount of the
/// first output to its own address, nothing if there is none.
pub open spec fn kept_amount(outputs: Seq<OutputView>, address: Seq<char>) -> nat {
    match first_output_to(outputs, address) {
        Some(k) => outputs[k].amount as nat,
        None => 0,
    }
}

/// The balance of `address` after the given transactions. It starts from
/// what the address kept in the transaction it signed last, or from the
/// initial balance and second zero if it signed none, and adds what it got
/// from every transaction signed later.
pub open spec fn balance_after(transactions: Seq<TransactionView>, address: Seq<char>) -> nat {
    match latest_authored(transactions, address) {
        Some(i) => kept_amount(transactions[i].outputs, address) + received_after(
            transactions,
            address,
            signed_at(transactions[i]),
        ),
        None => INITIAL_BALANCE as nat + received_after(transactions, address, 0),
    }
}

/// The outputs of the pending transaction of `sender` after it has sent
/// the amounts of `sends`, each to its recipient, one after the other out of
/// `balance`: the first opens the transaction, the others extend it.
pub open spec fn outputs_after_sends(
    balance: u64,
    sender: Seq<char>,
    sends: Seq<(Seq<char>, u64)>,
) -> Seq<OutputView>
    decreases sends.len(),
{
    if sends.len() == 0 {
        Seq::empty()
    } else if sends.len() == 1 {
        if sends[0].1 <= balance {
            transfer_outputs(balance, sender, sends[0].0, sends[0].1)
        } else {
            Seq::empty()
        }
    } else {
        let before = outputs_after_sends(balance, sender, sends.drop_last());
        match first_output_to(before, sender) {
            Some(kept) if sends.last().1 <= balance => extended_outputs(
                before,
                kept,
                sends.last().0,
                sends.last().1,
            ),
            _ => before,
        }
    }
}

/// The sum of the amounts of a list of sends.
pub open spec fn total_sent(sends: Seq<(Seq<char>, u64)>) -> nat
    decreases sends.len(),
{
    if sends.len() == 0 {
        0
    } else {
        total_sent(sends.drop_last()) + sends.last().1 as nat
    }
}

/// After a wallet has sent several amounts that its balance covers in sum,
/// with no block mined in between, the first output of the pending
/// transaction goes to the wallet itself and holds the balance less the sum
/// of the amounts; every send found that output and could take its amount
/// out of it.
pub proof fn lemma_outstanding_output(balance: u64, sender: Seq<char>, sends: Seq<(Seq<char>, u64)>)
    requires
        sends.len() > 0,
        total_sent(sends) <= balance,
    ensures
        outputs_after_sends(balance, sender, sends).len() == sends.len() + 1,
        first_output_to(outputs_after_sends(balance, sender, sends), sender) == Some(0int),
        outputs_after_sends(balance, sender, sends)[0].address == sender,
        outputs_after_sends(balance, sender, sends)[0].amount == balance - total_sent(sends),
        outputs_after_sends(balance, sender, sends).last() == (OutputView {
            amount: sends.last().1,
            address: sends.last().0,
        }),
    decreases sends.len(),
{
    if sends.len() == 1 {
        assert(sends.drop_last().len() == 0);
        assert(total_sent(sends.drop_last()) == 0);
    } else {
        lemma_outstanding_output(balance, sender, sends.drop_last());
    }
}

/// What a successful `create_transaction` does when the wallet's signature
/// was returned: the amount is within the balance, the transaction made
/// names the wallet as its sender, it extends the pending transaction of the
/// wallet or opens a new one, and the pool takes it in.
pub open spec fn sent(
    before: Seq<TransactionView>,
    after: Seq<TransactionView>,
    made: TransactionView,
    address: Seq<char>,
    balance: u64,
    recipient: Seq<char>,
    amount: u64,
) -> bool {
    &&& amount <= balance
    &&& after == stored(before, made)
    &&& authored_by(made, address)
    &&& match first_authored_by(before, address) {
        Some(i) => {
            &&& made.id == before[i].id
            &&& first_output_to(before[i].outputs, address) matches Some(kept) && made.outputs
                == extended_outputs(before[i].outputs, kept, recipient, amount)
        },
        None => made.outputs == transfer_outputs(balance, address, recipient, amount),
    }
}

/// The `i`-th of a run of sends: from the pool `pools[i]` to the pool
/// `pools[i + 1]`, making the transaction `made[i]`.
pub open spec fn send_step(
    pools: Seq<Seq<TransactionView>>,
    made: Seq<TransactionView>,
    address: Seq<char>,
    balance: u64,
    sends: Seq<(Seq<char>, u64)>,
    i: int,
) -> bool {
    sent(pools[i], pools[i + 1], made[i], address, balance, sends[i].0, sends[i].1)
}

/// Whether `transaction` stands at `j` in the pool, names `address` as its
/// sender, and no other transaction of the pool does.
pub open spec fn only_at(
    pool: Seq<TransactionView>,
    address: Seq<char>,
    transaction: TransactionView,
    j: int,
) -> bool {
    &&& 0 <= j < pool.len()
    &&& pool[j] == transaction
    &&& authored_by(transaction, address)
    &&& forall|m: int| 0 <= m < pool.len() && authored_by(#[trigger] pool[m], address) ==> m == j
}

/// Whether `transaction` is the one transaction of the pool that names
/// `address` as its sender.
pub open spec fn holds_only(
    pool: Seq<TransactionView>,
    address: Seq<char>,
    transaction: TransactionView,
) -> bool {
    exists|j: int| #[trigger] only_at(pool, address, transaction, j)
}

/// The first transaction of a sender at or after `start` is what
/// `authored_from` finds.
pub proof fn lemma_authored_found(pool: Seq<TransactionView>, address: Seq<char>, start: int, j: int)
    requires
        0 <= start <= j < pool.len(),
        authored_by(pool[j], address),
        forall|m: int| start <= m < j ==> !authored_by(#[trigger] pool[m], address),
    ensures
        authored_from(pool, address, start) == Some(j),
    decreases j - start,
{
    if start < j {
        assert(!authored_by(pool[start], address));
        lemma_authored_found(pool, address, start + 1, j);
    }
}

/// Where no transaction at or after `start` names the sender,
/// `authored_from` finds none.
pub proof fn lemma_authored_none(pool: Seq<TransactionView>, address: Seq<char>, start: int)
    requires
        0 <= start,
        forall|m: int| start <= m < pool.len() ==> !authored_by(#[trigger] pool[m], address),
    ensures
        authored_from(pool, address, start) is None,
    decreases pool.len() - start,
{
    if start < pool.len() {
        assert(!authored_by(pool[start], address));
        lemma_authored_none(pool, address, start + 1);
    }
}

/// A wallet sends several amounts that its balance covers in sum, with no
/// block mined in between, into a pool that held no transaction of the
/// wallet, and each time its signature is returned. Then the last
/// transaction made keeps, in its first output, the balance less the sum of
/// the amounts for the wallet, and it is the one transaction of the wallet
/// that the pool holds.
pub proof fn lemma_sends_accumulate(
    pools: Seq<Seq<TransactionView>>,
    made: Seq<TransactionView>,
    address: Seq<char>,
    balance: u64,
    sends: Seq<(Seq<char>, u64)>,
)
    requires
        sends.len() > 0,
        made.len() == sends.len(),
        pools.len() == sends.len() + 1,
        unique_ids(pools[0]),
        forall|m: int| 0 <= m < pools[0].len() ==> !authored_by(#[trigger] pools[0][m], address),
        total_sent(sends) <= balance,
        forall|i: int|
            0 <= i < sends.len() ==> #[trigger] send_step(pools, made, address, balance, sends, i),
    ensures
        made.last().outputs == outputs_after_sends(balance, address, sends),
        made.last().outputs[0] == (OutputView {
            amount: (balance - total_sent(sends)) as u64,
            address,
        }),
        first_output_to(made.last().outputs, address) == Some(0int),
        holds_only(pools.last(), address, made.last()),
        unique_ids(pools.last()),
    decreases sends.len(),
{
    let k = sends.len() as int;
    let before = pools[k - 1];
    let after = pools[k];
    let t = made[k - 1];
    assert(send_step(pools, made, address, balance, sends, k - 1));
    lemma_position_from(before, t.id, 0);
    if k == 1 {
        lemma_update_or_add_keeps_unique(before, t);
        assert(sends.drop_last().len() == 0);
        assert(total_sent(sends.drop_last()) == 0);
        lemma_authored_none(before, address, 0);
        lemma_outstanding_output(balance, address, sends);
        let j = match position_of(before, t.id) {
            Some(p) => p,
            None => before.len() as int,
        };
        assert(only_at(after, address, t, j));
    } else {
        let earlier = sends.drop_last();
        let pools_earlier = pools.drop_last();
        let made_earlier = made.drop_last();
        assert forall|i: int| 0 <= i < earlier.len() implies #[trigger] send_step(
            pools_earlier,
            made_earlier,
            address,
            balance,
            earlier,
            i,
        ) by {
            assert(send_step(pools, made, address, balance, sends, i));
        }
        lemma_sends_accumulate(pools_earlier, made_earlier, address, balance, earlier);
        let prev = made[k - 2];
        assert(made_earlier.last() == prev);
        assert(pools_earlier.last() == before);
        lemma_update_or_add_keeps_unique(before, t);
        let j = choose|j: int| only_at(before, address, prev, j);
        assert(only_at(before, address, prev, j));
        assert forall|m: int| 0 <= m < j implies !authored_by(#[trigger] before[m], address) by {}
        lemma_authored_found(before, address, 0, j);
        lemma_outstanding_output(balance, address, earlier);
        assert forall|m: int| 0 <= m < j implies before[m].id != t.id by {}
        lemma_position_found(before, t.id, 0, j);
        assert(after == before.update(j, t));
        lemma_outstanding_output(balance, address, sends);
        assert(only_at(after, address, t, j));
    }
}

/// What an address got from a part of the transactions is no more than what
/// it got from all of them.
pub proof fn lemma_received_grows(
    transactions: Seq<TransactionView>,
    address: Seq<char>,
    start: int,
    n: int,
)
    requires
        0 <= n <= transactions.len(),
    ensures
        received_after(transactions.take(n), address, start) <= received_after(
            transactions,
            address,
            start,
        ),
    decreases transactions.len() - n,
{
    if n < transactions.len() {
        lemma_received_grows(transactions, address, start, n + 1);
        assert(transactions.take(n + 1).drop_last() =~= transactions.take(n));
    } else {
        assert(transactions.take(n) =~= transactions);
    }
}

/// The sum of the amounts that go to `address` among the given outputs.
fn sum_to(outputs: &Vec<TransactionOutput>, address: &String) -> (sum: u128)
    ensures
        sum == amount_to(output_views(outputs@), address@),
        sum <= outputs.len() * u64::MAX,
{
    let ghost views = output_views(outputs@);
    let mut sum: u128 = 0;
    let mut i: usize = 0;
    while i < outputs.len()
        invariant
            i <= outputs.len(),
            views == output_views(outputs@),
            sum == amount_to(views.take(i as int), address@),
            sum <= i * u64::MAX,
        decreases outputs.len() - i,
    {
        proof {
            assert(views.take(i + 1).drop_last() =~= views.take(i as int));
            assert(views.take(i + 1).last() == outputs@[i as int]@);
            assert((i + 1) * u64::MAX == i * u64::MAX + u64::MAX) by (nonlinear_arith);
            assert(i * u64::MAX <= usize::MAX * u64::MAX) by (nonlinear_arith)
                requires
                    i <= usize::MAX,
            ;
        }
        if outputs[i].address == *address {
            sum = sum + outputs[i].amount as u128;
        }
        i += 1;
    }
    assert(views.take(i as int) =~= views);
    sum
}

/// Copies every transaction of a chain into one list, block after block.
fn collect_transactions(blockchain: &Blockchain) -> (all: Vec<Transaction>)
    ensures
        transaction_views(all@) == chain_transactions(blockchain@),
{
    let mut all: Vec<Transaction> = Vec::new();
    let mut i: usize = 0;
    assert(blockchain@.take(0) =~= Seq::<BlockView>::empty());
    assert(transaction_views(all@) =~= chain_transactions(blockchain@.take(0)));
    while i < blockchain.chain.len()
        invariant
            i <= blockchain.chain.len(),
            transaction_views(all@) == chain_transactions(blockchain@.take(i as int)),
        decreases blockchain.chain.len() - i,
    {
        let block = &blockchain.chain[i];
        let ghost before = transaction_views(all@);
        let mut j: usize = 0;
        assert(block@.data.take(0) =~= Seq::<TransactionView>::empty());
        assert(transaction_views(all@) =~= before + block@.data.take(0));
        while j < block.data.len()
            invariant
                j <= block.data.len(),
                transaction_views(all@) == before + block@.data.take(j as int),
            decreases block.data.len() - j,
        {
            let ghost sofar = transaction_views(all@);
            all.push(block.data[j].clone());
            assert(transaction_views(all@) =~= sofar.push(block.data@[j as int]@));
            assert(block@.data.take(j + 1) =~= block@.data.take(j as int).push(
                block.data@[j as int]@,
            ));
            j += 1;
            assert(transaction_views(all@) =~= before + block@.data.take(j as int));
        }
        proof {
            assert(block@.data.take(j as int) =~= block@.data);
            assert(blockchain@.take(i + 1).drop_last() =~= blockchain@.take(i as int));
            assert(blockchain@.take(i + 1).last() == block@);
        }
        i += 1;
    }
    assert(blockchain@.take(i as int) =~= blockchain@);
    all
}

impl Wallet {
    #[verifier::type_invariant]
    spec fn keyed(self) -> bool {
        self.public_key@ == hex_text(self.keys.public_bytes())
    }

    /// The cached balance.
    pub closed spec fn spec_balance(&self) -> u64 {
        self.balance
    }

    /// The address.
    pub closed spec fn address(self) -> Seq<char> {
        self.public_key@
    }

    /// The secret scalar of the key pair.
    pub closed spec fn secret_bytes(self) -> Seq<u8> {
        self.keys.secret_bytes()
    }

    /// The SEC1 encoding of the public key of the key pair.
    pub closed spec fn public_bytes(self) -> Seq<u8> {
        self.keys.public_bytes()
    }

    /// Whether the address is the one of the key pair. It is so for every
    /// wallet that a program holds.
    pub open spec fn owns_address(self) -> bool {
        self.address() == hex_text(self.public_bytes())
    }

    /// The signature this wallet makes of a text, in hexadecimal.
    pub open spec fn signature(self, data: Seq<char>) -> Option<Seq<char>> {
        match signature_of(self.secret_bytes(), data) {
            Some(der) => Some(hex_text(der)),
            None => None,
        }
    }

    /// The wallet in words: its cached balance and its address.
    pub open spec fn text(self) -> Seq<char> {
        "Wallet -\n  balance: "@ + decimal_text(self.balance() as nat) + "\n  public_key: "@
            + self.address() + "\n"@
    }

    /// The cached balance.
    #[verifier::when_used_as_spec(spec_balance)]
    pub fn balance(&self) -> (balance: u64)
        ensures
            balance == self.spec_balance(),
    {
        self.balance
    }

    /// The address: the hexadecimal text of the public key.
    pub fn public_key(&self) -> (address: &String)
        ensures
            address@ == self.address(),
            self.owns_address(),
    {
        proof {
            use_type_invariant(self);
        }
        &self.public_key
    }

    /// The key pair.
    pub fn keys(&self) -> (keys: &KeyPair)
        ensures
            keys.secret_bytes() == self.secret_bytes(),
            keys.public_bytes() == self.public_bytes(),
    {
        &self.keys
    }

    /// The wallet in words, for a log or a terminal. The keys are left out.
    pub fn to_text(&self) -> (text: String)
        ensures
            text@ == self.text(),
    {
        let mut text = String::from_str("Wallet -\n  balance: ");
        text.append(write_number(self.balance).as_str());
        text.append("\n  public_key: ");
        text.append(self.public_key.as_str());
        text.append("\n");
        text
    }

    /// A wallet with a fresh key pair and the initial balance.
    pub fn new() -> (wallet: Wallet)
        ensures
            wallet.balance() == INITIAL_BALANCE,
            wallet.owns_address(),
    {
        Wallet::from_parts(KeyPair::generate(), INITIAL_BALANCE)
    }

    /// The wallet of a given key pair with a given cached balance.
    pub fn from_parts(keys: KeyPair, balance: u64) -> (wallet: Wallet)
        ensures
            wallet.balance() == balance,
            wallet.secret_bytes() == keys.secret_bytes(),
            wallet.public_bytes() == keys.public_bytes(),
            wallet.owns_address(),
    {
        let public_key = base16::encode(keys.verifying_key());
        Wallet { balance, keys, public_key }
    }

    /// The ledger's own wallet, the source of reward transactions. Like any
    /// wallet it has a key pair of its own and the address of that pair, so
    /// that what it signs verifies.
    pub fn blockchain_wallet() -> (wallet: Wallet)
        ensures
            wallet.balance() == INITIAL_BALANCE,
            wallet.owns_address(),
    {
        Wallet::new()
    }

    /// Signs a text. The signature is DER-encoded and written in hexadecimal;
    /// it verifies under the address of this wallet. `None` only where the
    /// signing procedure gives up on this key and text.
    pub fn sign(&self, data: &str) -> (signature: Option<String>)
        ensures
            match signature {
                Some(s) => {
                    &&& self.signature(data@) == Some(s@)
                    &&& address_verifies(self.address(), data@, s@)
                },
                None => self.signature(data@) is None,
            },
    {
        proof {
            use_type_invariant(self);
        }
        match self.keys.sign(data) {
            Some(der) => {
                let text = base16::encode(&der);
                proof {
                    lemma_hex_round_trip(der@);
                    lemma_hex_round_trip(self.keys.public_bytes());
                }
                Some(text)
            },
            None => None,
        }
    }

    /// Sends `amount` to `recipient`. The cached balance is first renewed
    /// from the chain. An amount above it is refused. Where the pool holds a
    /// pending transaction of this wallet, that transaction is extended and
    /// put back; it is refused if it has no output to this wallet. Otherwise
    /// a new transaction is made and added to the pool. The transaction is
    /// returned as the pool now holds it.
    ///
    /// The amount is checked against the balance, not against what the
    /// pending transaction still holds for the sender: the caller sees to it
    /// that it covers the amount.
    pub fn create_transaction(
        &mut self,
        recipient: String,
        amount: u64,
        transaction_pool: &mut TransactionPool,
        blockchain: &Blockchain,
    ) -> (result: Result<Transaction, &'static str>)
        requires
            balance_after(chain_transactions(blockchain@), old(self).address()) <= u64::MAX,
            amount <= balance_after(chain_transactions(blockchain@), old(self).address())
                ==> pending_covers(old(transaction_pool)@, old(self).address(), amount),
        ensures
            final(self).balance() == balance_after(
                chain_transactions(blockchain@),
                old(self).address(),
            ),
            final(self).address() == old(self).address(),
            final(self).secret_bytes() == old(self).secret_bytes(),
            final(self).public_bytes() == old(self).public_bytes(),
            match result {
                Ok(transaction) => {
                    &&& amount <= final(self).balance()
                    &&& final(transaction_pool)@ == stored(old(transaction_pool)@, transaction@)
                    &&& signed_by(transaction@.input, *final(self), transaction@.outputs)
                    &&& match first_authored_by(old(transaction_pool)@, old(self).address()) {
                        Some(i) => {
                            &&& transaction@.id == old(transaction_pool)@[i].id
                            &&& first_output_to(
                                old(transaction_pool)@[i].outputs,
                                old(self).address(),
                            ) matches Some(kept) && transaction@.outputs == extended_outputs(
                                old(transaction_pool)@[i].outputs,
                                kept,
                                recipient@,
                                amount,
                            )
                        },
                        None => {
                            &&& is_random_uuid(transaction@.id.0)
                            &&& transaction@.outputs == transfer_outputs(
                                final(self).balance(),
                                old(self).address(),
                                recipient@,
                                amount,
                            )
                        },
                    }
                    &&& (transaction@.input is Some ==> transaction@.verifies())
                    &&& (transaction@.input is Some ==> sent(
                        old(transaction_pool)@,
                        final(transaction_pool)@,
                        transaction@,
                        old(self).address(),
                        final(self).balance(),
                        recipient@,
                        amount,
                    ))
                },
                Err(reason) => {
                    &&& reason@ == "Amount exceeds balance"@
                    &&& final(transaction_pool)@ == old(transaction_pool)@
                    &&& (amount > final(self).balance() || (first_authored_by(
                        old(transaction_pool)@,
                        old(self).address(),
                    ) matches Some(i) && first_output_to(
                        old(transaction_pool)@[i].outputs,
                        old(self).address(),
                    ) is None))
                },
            },
    {
        proof {
            use_type_invariant(&*self);
        }
        self.balance = self.calculate_balance(blockchain);
        if amount > self.balance {
            return Err("Amount exceeds balance");
        }
        let transaction = transaction_pool.existing_transaction(self.public_key.as_str());
        match transaction {
            Some(mut existing_transaction) => {
                match existing_transaction.update(self, recipient, amount) {
                    Ok(updated_transaction) => {
                        transaction_pool.update_or_add_transaction(updated_transaction.clone());
                        Ok(updated_transaction)
                    },
                    Err(reason) => Err(reason),
                }
            },
            None => {
                let updated_transaction = Transaction::new(self, recipient, amount);
                transaction_pool.update_or_add_transaction(updated_transaction.clone());
                Ok(updated_transaction)
            },
        }
    }

    /// The balance of this wallet's address as the chain gives it. The
    /// cached balance takes no part in it.
    pub fn calculate_balance(&self, blockchain: &Blockchain) -> (balance: u64)
        requires
            balance_after(chain_transactions(blockchain@), self.address()) <= u64::MAX,
        ensures
            balance == balance_after(chain_transactions(blockchain@), self.address()),
    {
        match self.checked_balance(blockchain) {
            Some(balance) => balance,
            None => 0,
        }
    }

    /// The balance of this wallet's address as the chain gives it, or `None`
    /// where it is more than sixty-four bits hold.
    pub fn checked_balance(&self, blockchain: &Blockchain) -> (balance: Option<u64>)
        ensures
            match balance {
                Some(b) => b == balance_after(chain_transactions(blockchain@), self.address()),
                None => balance_after(chain_transactions(blockchain@), self.address())
                    > u64::MAX,
            },
    {
        let transactions = collect_transactions(blockchain);
        let ghost views = transaction_views(transactions@);
        let ghost address = self.address();
        let mut latest: Option<usize> = None;
        let mut i: usize = 0;
        assert(views.take(0) =~= Seq::<TransactionView>::empty());
        while i < transactions.len()
            invariant
                i <= transactions.len(),
                views == transaction_views(transactions@),
                address == self.address(),
                match latest {
                    Some(l) => l < i && authored_by(views[l as int], address) && latest_authored(
                        views.take(i as int),
                        address,
                    ) == Some(l as int),
                    None => latest_authored(views.take(i as int), address) is None,
                },
            decreases transactions.len() - i,
        {
            proof {
                assert(views.take(i + 1).drop_last() =~= views.take(i as int));
                assert(views.take(i + 1).last() == transactions@[i as int]@);
            }
            match &transactions[i].input {
                Some(input) => {
                    if input.address == self.public_key {
                        let newer = match latest {
                            Some(l) => match &transactions[l].input {
                                Some(earlier) => earlier.timestamp.timestamp()
                                    <= input.timestamp.timestamp(),
                                None => true,
                            },
                            None => true,
                        };
                        if newer {
                            latest = Some(i);
                        }
                    }
                },
                None => {},
            }
            i += 1;
        }
        assert(views.take(i as int) =~= views);
        let mut start_time: i64 = 0;
        let mut balance: u128 = INITIAL_BALANCE as u128;
        match latest {
            Some(l) => {
                let recent = &transactions[l];
                match &recent.input {
                    Some(input) => {
                        start_time = input.timestamp.timestamp();
                    },
                    None => {},
                }
                balance = match recent.find_output(self.public_key.as_str()) {
                    Some(k) => recent.outputs[k].amount as u128,
                    None => 0,
                };
            },
            None => {},
        }
        let ghost base = balance as nat;
        assert(base + received_after(views, address, start_time as int) == balance_after(
            views,
            address,
        ));
        let mut j: usize = 0;
        assert(views.take(0) =~= Seq::<TransactionView>::empty());
        while j < transactions.len()
            invariant
                j <= transactions.len(),
                views == transaction_views(transactions@),
                address == self.address(),
                views == chain_transactions(blockchain@),
                balance <= u64::MAX,
                base + received_after(views, address, start_time as int) == balance_after(
                    views,
                    address,
                ),
                balance == base + received_after(views.take(j as int), address, start_time as int),
            decreases transactions.len() - j,
        {
            let transaction = &transactions[j];
            proof {
                assert(views.take(j + 1).drop_last() =~= views.take(j as int));
                assert(views.take(j + 1).last() == transaction@);
                lemma_received_grows(views, address, start_time as int, j + 1);
            }
            let later = match &transaction.input {
                Some(input) => input.timestamp.timestamp() > start_time,
                None => false,
            };
            if later {
                let gained = sum_to(&transaction.outputs, &self.public_key);
                assert(transaction.outputs.len() * u64::MAX + u64::MAX <= u128::MAX)
                    by (nonlinear_arith)
                    requires
                        transaction.outputs.len() <= u64::MAX,
                ;
                balance = balance + gained;
                if balance > u64::MAX as u128 {
                    assert(balance == base + received_after(
                        views.take(j + 1),
                        address,
                        start_time as int,
                    ));
                    assert(balance_after(views, address) >= balance);
                    return None;
                }
            }
            j += 1;
        }
        assert(views.take(j as int) =~= views);
        Some(balance as u64)
    }

    /// Checks a hexadecimal signature of a text against a hexadecimal
    /// address. A malformed address or signature verifies nothing.
    pub fn verify(address: &str, data: &str, signature: &str) -> (ok: bool)
        ensures
            ok == address_verifies(address@, data@, signature@),
    {
        match base16::decode(address) {
            Some(key) => match base16::decode(signature) {
                Some(sig) => keys::verify_message(&key, data, &sig),
                None => false,
            },
            None => false,
        }
    }
}

impl Clone for Wallet {
    fn clone(&self) -> (copy: Self)
        ensures
            copy.balance() == self.balance(),
            copy.address() == self.address(),
            copy.secret_bytes() == self.secret_bytes(),
            copy.public_bytes() == self.public_bytes(),
    {
        proof {
            use_type_invariant(self);
        }
        Wallet {
            balance: self.balance,
            keys: self.keys.clone(),
            public_key: self.public_key.clone(),
        }
    }
}

} // verus!
