//! Signed transfers of value from one address to several.

use crate::utils::base16::hex_text;
use crate::utils::config::MINING_REWARD;
use crate::utils::json::{array_text, decimal_text, json_string, write_array, write_number, write_string};
use crate::utils::time::Timestamp;
use crate::utils::utils::{canonical_hash, crypto_hash};
use crate::wallet::wallet::{address_verifies, Wallet};
use vstd::prelude::*;

verus! {

/// The identity of a transaction: the 128 bits of a UUID.
#[derive(PartialEq, Eq, Structural, Debug, Clone, Copy, Hash, Default)]
pub struct TransactionId(pub u128);

/// What the sender vouches for: its balance when it signed, its address and
/// its signature of the outputs.
#[derive(Debug, PartialEq)]
pub struct TransactionInput {
    pub timestamp: Timestamp,
    pub amount: u64,
    pub address: String,
    pub signature: String,
}

/// An amount and the address it goes to.
#[derive(Debug, PartialEq)]
pub struct TransactionOutput {
    pub amount: u64,
    pub address: String,
}

/// A transfer. Without input and outputs it records a refused attempt.
#[derive(Debug, PartialEq)]
pub struct Transaction {
    pub id: TransactionId,
    pub input: Option<TransactionInput>,
    pub outputs: Vec<TransactionOutput>,
}

/// A `TransactionInput` as plain values.
pub struct InputView {
    pub timestamp: Timestamp,
    pub amount: u64,
    pub address: Seq<char>,
    pub signature: Seq<char>,
}

/// A `TransactionOutput` as plain values.
pub struct OutputView {
    pub amount: u64,
    pub address: Seq<char>,
}

/// A `Transaction` as plain values.
pub struct TransactionView {
    pub id: TransactionId,
    pub input: Option<InputView>,
    pub outputs: Seq<OutputView>,
}

impl View for TransactionInput {
    type V = InputView;

    open spec fn view(&self) -> InputView {
        InputView {
            timestamp: self.timestamp,
            amount: self.amount,
            address: self.address@,
            signature: self.signature@,
        }
    }
}

impl View for TransactionOutput {
    type V = OutputView;

    open spec fn view(&self) -> OutputView {
        OutputView { amount: self.amount, address: self.address@ }
    }
}

impl View for Transaction {
    type V = TransactionView;

    open spec fn view(&self) -> TransactionView {
        TransactionView {
            id: self.id,
            input: match self.input {
                Some(input) => Some(input@),
                None => None,
            },
            outputs: output_views(self.outputs@),
        }
    }
}

/// The outputs of a vector as plain values.
pub open spec fn output_views(outputs: Seq<TransactionOutput>) -> Seq<OutputView> {
    outputs.map_values(|o: TransactionOutput| o@)
}

/// The transactions of a vector as plain values.
pub open spec fn transaction_views(transactions: Seq<Transaction>) -> Seq<TransactionView> {
    transactions.map_values(|t: Transaction| t@)
}

/// 256 to the power `k`.
pub open spec fn radix_power(k: int) -> int
    decreases k,
{
    if k <= 0 {
        1
    } else {
        256 * radix_power(k - 1)
    }
}

/// The sixteen bytes of an identity, most significant first.
pub open spec fn id_bytes(id: u128) -> Seq<u8> {
    Seq::new(16, |i: int| (id as int / radix_power(15 - i) % 256) as u8)
}

/// An identity in the usual notation of a UUID: thirty-two lower-case
/// hexadecimal digits in groups of 8, 4, 4, 4 and 12, joined by hyphens.
pub open spec fn id_text(id: u128) -> Seq<char> {
    let digits = hex_text(id_bytes(id));
    digits.subrange(0, 8) + "-"@ + digits.subrange(8, 12) + "-"@ + digits.subrange(12, 16) + "-"@
        + digits.subrange(16, 20) + "-"@ + digits.subrange(20, 32)
}

/// The JSON object of an output, keys in alphabetical order.
pub open spec fn output_json(output: OutputView) -> Seq<char> {
    "{\"address\":"@ + json_string(output.address) + ",\"amount\":"@ + decimal_text(
        output.amount as nat,
    ) + "}"@
}

/// The JSON array of a list of outputs.
pub open spec fn outputs_json(outputs: Seq<OutputView>) -> Seq<char> {
    array_text(outputs.map_values(|o: OutputView| output_json(o)))
}

/// The JSON object of an input, keys in alphabetical order.
pub open spec fn input_json(input: InputView) -> Seq<char> {
    "{\"address\":"@ + json_string(input.address) + ",\"amount\":"@ + decimal_text(
        input.amount as nat,
    ) + ",\"signature\":"@ + json_string(input.signature) + ",\"timestamp\":"@
        + input.timestamp.json_text() + "}"@
}

/// The JSON object of a transaction; an absent input is written `null`.
pub open spec fn transaction_json(transaction: TransactionView) -> Seq<char> {
    "{\"id\":"@ + json_string(id_text(transaction.id.0)) + ",\"input\":"@ + (match transaction.input {
        Some(input) => input_json(input),
        None => "null"@,
    }) + ",\"outputs\":"@ + outputs_json(transaction.outputs) + "}"@
}

/// The JSON array of a list of transactions.
pub open spec fn transactions_json(transactions: Seq<TransactionView>) -> Seq<char> {
    array_text(transactions.map_values(|t: TransactionView| transaction_json(t)))
}

/// An output in words.
pub open spec fn output_text(output: OutputView) -> Seq<char> {
    "TransactionOutput: \n\tamount: "@ + decimal_text(output.amount as nat) + "\n\taddress: "@
        + output.address + "\n"@
}

/// An input in words; the time stamp is written as in JSON.
pub open spec fn input_text(input: InputView) -> Seq<char> {
    "TransactionInput: \n\ttimestamp: "@ + input.timestamp.json_text() + "\n\tamount: "@
        + decimal_text(input.amount as nat) + "\n\taddress: "@ + input.address
        + "\n\tsignature: "@ + input.signature + "\n"@
}

/// A transaction in words: the identity as a UUID, input and outputs as JSON.
pub open spec fn transaction_text(transaction: TransactionView) -> Seq<char> {
    "Transaction: \n\tid: "@ + id_text(transaction.id.0) + "\n\tinput: "@ + (match transaction.input {
        Some(input) => input_json(input),
        None => "null"@,
    }) + "\n\toutputs: "@ + outputs_json(transaction.outputs) + "\n"@
}

/// The text that a sender signs: the canonical hash of the outputs.
pub open spec fn outputs_hash(outputs: Seq<OutputView>) -> Seq<char> {
    canonical_hash(seq![outputs_json(outputs)])
}

/// The sum of the amounts of a list of outputs.
pub open spec fn total_amount(outputs: Seq<OutputView>) -> nat
    decreases outputs.len(),
{
    if outputs.len() == 0 {
        0
    } else {
        total_amount(outputs.drop_last()) + outputs.last().amount as nat
    }
}

/// The position, from `start` on, of the first output that goes to `address`.
pub open spec fn first_output_from(outputs: Seq<OutputView>, address: Seq<char>, start: int) -> Option<
    int,
>
    decreases outputs.len() - start,
{
    if start < 0 || start >= outputs.len() {
        None
    } else if outputs[start].address == address {
        Some(start)
    } else {
        first_output_from(outputs, address, start + 1)
    }
}

/// The position of the first output that goes to `address`.
pub open spec fn first_output_to(outputs: Seq<OutputView>, address: Seq<char>) -> Option<int> {
    first_output_from(outputs, address, 0)
}

/// The outputs of a new transfer of `amount` out of `balance`: what the
/// sender keeps, then what the recipient gets.
pub open spec fn transfer_outputs(
    balance: u64,
    sender: Seq<char>,
    recipient: Seq<char>,
    amount: u64,
) -> Seq<OutputView> {
    seq![
        OutputView { amount: (balance - amount) as u64, address: sender },
        OutputView { amount, address: recipient },
    ]
}

/// The outputs after a further transfer of `amount`: the output at `kept`
/// gives up the amount, and an output for the recipient is added at the end.
pub open spec fn extended_outputs(
    outputs: Seq<OutputView>,
    kept: int,
    recipient: Seq<char>,
    amount: u64,
) -> Seq<OutputView> {
    outputs.update(
        kept,
        OutputView { amount: (outputs[kept].amount - amount) as u64, address: outputs[kept].address },
    ).push(OutputView { amount, address: recipient })
}

/// Whether `input` is what signing `outputs` with `sender` leaves behind: the
/// sender's balance, address and signature, or no input where the signing
/// procedure gave up.
pub open spec fn signed_by(input: Option<InputView>, sender: Wallet, outputs: Seq<OutputView>) -> bool {
    match sender.signature(outputs_hash(outputs)) {
        Some(signature) => {
            &&& input is Some
            &&& input.unwrap().amount == sender.balance()
            &&& input.unwrap().address == sender.address()
            &&& input.unwrap().signature == signature
        },
        None => input is None,
    }
}

impl TransactionView {
    /// Whether the input's signature is a signature of the outputs under the
    /// input's address. A transaction without input does not verify.
    pub open spec fn verifies(self) -> bool {
        match self.input {
            Some(input) => address_verifies(
                input.address,
                outputs_hash(self.outputs),
                input.signature,
            ),
            None => false,
        }
    }

    /// Whether the outputs add up to the amount the input states.
    pub open spec fn balanced(self) -> bool {
        match self.input {
            Some(input) => total_amount(self.outputs) == input.amount,
            None => false,
        }
    }
}

/// The bits that tell the version and the variant of a UUID: the four bits
/// from bit 76 and the two bits from bit 62.
pub const UUID_MARK_BITS: u128 = 0x0000_0000_0000_f000_c000_0000_0000_0000;

/// The mark bits of a random UUID: version four, variant one-zero.
pub const UUID_RANDOM_MARK: u128 = 0x0000_0000_0000_4000_8000_0000_0000_0000;

/// Whether an identity carries the marks of a random UUID.
pub open spec fn is_random_uuid(id: u128) -> bool {
    (id & UUID_MARK_BITS) == UUID_RANDOM_MARK
}

/// Draws a random identity with `uuid::Uuid::new_v4` and returns its 128
/// bits. `new_v4` takes 128 random bits and overwrites the version with
/// four and the variant with one-zero; all other bits are left to chance.
#[verifier::external_body]
fn random_id() -> (id: u128)
    ensures
        is_random_uuid(id),
{
    uuid::Uuid::new_v4().as_u128()
}

/// Builds the UUID with `Uuid::from_u128`, which takes the bits most
/// significant byte first, and writes it as `Uuid` displays itself:
/// lower-case, hyphenated.
#[verifier::external_body]
fn write_id(id: u128) -> (text: String)
    ensures
        text@ == id_text(id),
{
    uuid::Uuid::from_u128(id).to_string()
}

impl TransactionId {
    /// A fresh random identity: a UUID of version four. Two calls give the
    /// same identity only by a chance that is next to nothing.
    pub fn random() -> (id: TransactionId)
        ensures
            is_random_uuid(id.0),
    {
        TransactionId(random_id())
    }

    /// The identity in the notation of a UUID.
    pub fn to_text(&self) -> (text: String)
        ensures
            text@ == id_text(self.0),
    {
        write_id(self.0)
    }
}

impl Clone for TransactionInput {
    fn clone(&self) -> (copy: Self)
        ensures
            copy@ == self@,
    {
        TransactionInput {
            timestamp: self.timestamp,
            amount: self.amount,
            address: self.address.clone(),
            signature: self.signature.clone(),
        }
    }
}

impl Clone for TransactionOutput {
    fn clone(&self) -> (copy: Self)
        ensures
            copy@ == self@,
    {
        TransactionOutput { amount: self.amount, address: self.address.clone() }
    }
}

impl Clone for Transaction {
    fn clone(&self) -> (copy: Self)
        ensures
            copy@ == self@,
    {
        let input = match &self.input {
            Some(input) => Some(input.clone()),
            None => None,
        };
        let mut outputs: Vec<TransactionOutput> = Vec::new();
        let mut i: usize = 0;
        while i < self.outputs.len()
            invariant
                i <= self.outputs.len(),
                outputs.len() == i,
                forall|k: int| 0 <= k < i ==> outputs@[k]@ == self.outputs@[k]@,
            decreases self.outputs.len() - i,
        {
            outputs.push(self.outputs[i].clone());
            i += 1;
        }
        assert(output_views(outputs@) =~= output_views(self.outputs@));
        Transaction { id: self.id, input, outputs }
    }
}

impl TransactionInput {
    /// Writes the input as a JSON object.
    pub fn to_json(&self) -> (json: String)
        ensures
            json@ == input_json(self@),
    {
        let mut json = String::from_str("{\"address\":");
        json.append(write_string(self.address.as_str()).as_str());
        json.append(",\"amount\":");
        json.append(write_number(self.amount).as_str());
        json.append(",\"signature\":");
        json.append(write_string(self.signature.as_str()).as_str());
        json.append(",\"timestamp\":");
        json.append(self.timestamp.to_json().as_str());
        json.append("}");
        json
    }

    /// The input in words, for a log or a terminal.
    pub fn to_text(&self) -> (text: String)
        ensures
            text@ == input_text(self@),
    {
        let mut text = String::from_str("TransactionInput: \n\ttimestamp: ");
        text.append(self.timestamp.to_json().as_str());
        text.append("\n\tamount: ");
        text.append(write_number(self.amount).as_str());
        text.append("\n\taddress: ");
        text.append(self.address.as_str());
        text.append("\n\tsignature: ");
        text.append(self.signature.as_str());
        text.append("\n");
        text
    }

    /// Whether two inputs hold the same values.
    pub fn same_as(&self, other: &TransactionInput) -> (same: bool)
        ensures
            same == (self@ == other@),
    {
        proof {
            if self.timestamp.seconds() == other.timestamp.seconds()
                && self.timestamp.nanoseconds() == other.timestamp.nanoseconds() {
                self.timestamp.lemma_same_reading(other.timestamp);
            }
        }
        self.timestamp.timestamp() == other.timestamp.timestamp()
            && self.timestamp.timestamp_subsec_nanos() == other.timestamp.timestamp_subsec_nanos()
            && self.amount == other.amount && self.address == other.address && self.signature
            == other.signature
    }
}

impl TransactionOutput {
    /// An output of `amount` to `address`.
    pub fn new(amount: u64, address: String) -> (output: TransactionOutput)
        ensures
            output.amount == amount,
            output.address == address,
    {
        TransactionOutput { amount, address }
    }

    /// Writes the output as a JSON object.
    pub fn to_json(&self) -> (json: String)
        ensures
            json@ == output_json(self@),
    {
        let mut json = String::from_str("{\"address\":");
        json.append(write_string(self.address.as_str()).as_str());
        json.append(",\"amount\":");
        json.append(write_number(self.amount).as_str());
        json.append("}");
        json
    }

    /// The output in words, for a log or a terminal.
    pub fn to_text(&self) -> (text: String)
        ensures
            text@ == output_text(self@),
    {
        let mut text = String::from_str("TransactionOutput: \n\tamount: ");
        text.append(write_number(self.amount).as_str());
        text.append("\n\taddress: ");
        text.append(self.address.as_str());
        text.append("\n");
        text
    }

    /// Whether two outputs hold the same values.
    pub fn same_as(&self, other: &TransactionOutput) -> (same: bool)
        ensures
            same == (self@ == other@),
    {
        self.amount == other.amount && self.address == other.address
    }
}

/// Writes a list of outputs as a JSON array.
pub fn outputs_to_json(outputs: &Vec<TransactionOutput>) -> (json: String)
    ensures
        json@ == outputs_json(output_views(outputs@)),
{
    let mut items: Vec<String> = Vec::new();
    let mut i: usize = 0;
    while i < outputs.len()
        invariant
            i <= outputs.len(),
            items.len() == i,
            forall|k: int| 0 <= k < i ==> items@[k]@ == output_json(outputs@[k]@),
        decreases outputs.len() - i,
    {
        items.push(outputs[i].to_json());
        i += 1;
    }
    assert(items@.map_values(|s: String| s@) =~= output_views(outputs@).map_values(
        |o: OutputView| output_json(o),
    ));
    write_array(&items)
}

/// Writes a list of transactions as a JSON array.
pub fn transactions_to_json(transactions: &Vec<Transaction>) -> (json: String)
    ensures
        json@ == transactions_json(transaction_views(transactions@)),
{
    let mut items: Vec<String> = Vec::new();
    let mut i: usize = 0;
    while i < transactions.len()
        invariant
            i <= transactions.len(),
            items.len() == i,
            forall|k: int| 0 <= k < i ==> items@[k]@ == transaction_json(transactions@[k]@),
        decreases transactions.len() - i,
    {
        items.push(transactions[i].to_json());
        i += 1;
    }
    assert(items@.map_values(|s: String| s@) =~= transaction_views(transactions@).map_values(
        |t: TransactionView| transaction_json(t),
    ));
    write_array(&items)
}

/// Copies a list of transactions.
pub fn clone_transactions(transactions: &Vec<Transaction>) -> (copy: Vec<Transaction>)
    ensures
        transaction_views(copy@) == transaction_views(transactions@),
{
    let mut copy: Vec<Transaction> = Vec::new();
    let mut i: usize = 0;
    while i < transactions.len()
        invariant
            i <= transactions.len(),
            copy.len() == i,
            forall|k: int| 0 <= k < i ==> copy@[k]@ == transactions@[k]@,
        decreases transactions.len() - i,
    {
        copy.push(transactions[i].clone());
        i += 1;
    }
    assert(transaction_views(copy@) =~= transaction_views(transactions@));
    copy
}

/// Whether two lists of transactions hold the same values in the same order.
pub fn same_transactions(a: &Vec<Transaction>, b: &Vec<Transaction>) -> (same: bool)
    ensures
        same == (transaction_views(a@) == transaction_views(b@)),
{
    if a.len() != b.len() {
        assert(transaction_views(a@).len() != transaction_views(b@).len());
        return false;
    }
    let mut i: usize = 0;
    while i < a.len()
        invariant
            i <= a.len(),
            a.len() == b.len(),
            forall|k: int| 0 <= k < i ==> a@[k]@ == b@[k]@,
        decreases a.len() - i,
    {
        if !a[i].same_as(&b[i]) {
            assert(transaction_views(a@)[i as int] != transaction_views(b@)[i as int]);
            return false;
        }
        i += 1;
    }
    assert(transaction_views(a@) =~= transaction_views(b@));
    true
}

impl Transaction {
    /// A transfer of `amount` from the sender's cached balance to
    /// `recipient`. Where the amount exceeds the balance the result has a
    /// fresh identity, no input and no outputs. Otherwise the sender keeps the
    /// rest in the first output, the recipient gets the amount in the second,
    /// and the sender signs. Either way the identity is a fresh random UUID.
    pub fn new(sender_wallet: &Wallet, recipient: String, amount: u64) -> (transaction: Transaction)
        ensures
            is_random_uuid(transaction@.id.0),
            amount > sender_wallet.balance() ==> transaction@.input is None
                && transaction@.outputs.len() == 0,
            amount <= sender_wallet.balance() ==> transaction@.outputs == transfer_outputs(
                sender_wallet.balance(),
                sender_wallet.address(),
                recipient@,
                amount,
            ) && signed_by(transaction@.input, *sender_wallet, transaction@.outputs),
            transaction@.input is Some ==> transaction@.verifies(),
    {
        if amount > sender_wallet.balance() {
            return Transaction { id: TransactionId::random(), input: None, outputs: Vec::new() };
        }
        let sender_transaction_output = TransactionOutput::new(
            sender_wallet.balance() - amount,
            sender_wallet.public_key().clone(),
        );
        let receiver_transaction_output = TransactionOutput::new(amount, recipient);
        let mut outputs: Vec<TransactionOutput> = Vec::new();
        outputs.push(sender_transaction_output);
        outputs.push(receiver_transaction_output);
        let mut transaction = Transaction { id: TransactionId::random(), input: None, outputs };
        assert(transaction@.outputs =~= transfer_outputs(
            sender_wallet.balance(),
            sender_wallet.address(),
            recipient@,
            amount,
        ));
        transaction.sign(sender_wallet);
        transaction
    }

    /// Signs the outputs with the sender's key and records the sender's
    /// cached balance, address and signature, with the current time, as the
    /// input. Where the signing procedure gives up, the input is left empty.
    pub fn sign(&mut self, sender_wallet: &Wallet)
        ensures
            final(self)@.id == old(self)@.id,
            final(self)@.outputs == old(self)@.outputs,
            signed_by(final(self)@.input, *sender_wallet, old(self)@.outputs),
            final(self)@.input is Some ==> final(self)@.verifies(),
    {
        let hash = self.outputs_hash();
        match sender_wallet.sign(hash.as_str()) {
            Some(signature) => {
                self.input = Some(
                    TransactionInput {
                        timestamp: Timestamp::now(),
                        amount: sender_wallet.balance(),
                        address: sender_wallet.public_key().clone(),
                        signature,
                    },
                );
            },
            None => {
                self.input = None;
            },
        }
    }

    /// The canonical hash of the outputs, the text that is signed.
    pub fn outputs_hash(&self) -> (hash: String)
        ensures
            hash@ == outputs_hash(self@.outputs),
    {
        let mut fields: Vec<String> = Vec::new();
        fields.push(outputs_to_json(&self.outputs));
        assert(fields@.map_values(|s: String| s@) =~= seq![outputs_json(self@.outputs)]);
        crypto_hash(&fields)
    }

    /// Whether the input's signature is a signature of the outputs under the
    /// input's address. False without input, and false where address or
    /// signature are malformed.
    pub fn verify(&self) -> (ok: bool)
        ensures
            ok == self@.verifies(),
    {
        match &self.input {
            Some(input) => {
                let hash = self.outputs_hash();
                Wallet::verify(input.address.as_str(), hash.as_str(), input.signature.as_str())
            },
            None => false,
        }
    }

    /// The position of the first output that goes to `address`.
    pub fn find_output(&self, address: &str) -> (found: Option<usize>)
        ensures
            match found {
                Some(i) => first_output_to(self@.outputs, address@) == Some(i as int) && i
                    < self.outputs.len(),
                None => first_output_to(self@.outputs, address@) is None,
            },
    {
        let wanted = address.to_owned();
        let mut i: usize = 0;
        while i < self.outputs.len()
            invariant
                i <= self.outputs.len(),
                wanted@ == address@,
                first_output_to(self@.outputs, address@) == first_output_from(
                    self@.outputs,
                    address@,
                    i as int,
                ),
            decreases self.outputs.len() - i,
        {
            if self.outputs[i].address == wanted {
                return Some(i);
            }
            i += 1;
        }
        None
    }

    /// A further transfer of `amount` to `recipient` within this transaction.
    /// It is refused, and the transaction left as it is, where the amount
    /// exceeds the sender's cached balance or no output goes to the sender.
    /// Otherwise the sender's first output gives up the amount, an output for
    /// the recipient is added at the end, the sender signs again, and a copy
    /// of the transaction is returned.
    ///
    /// The amount is checked against the sender's balance, not against what
    /// the sender's output still holds: the caller sees to it that the output
    /// covers the amount.
    pub fn update(&mut self, sender_wallet: &Wallet, recipient: String, amount: u64) -> (result:
        Result<Transaction, &'static str>)
        requires
            amount <= sender_wallet.balance() ==> match first_output_to(
                old(self)@.outputs,
                sender_wallet.address(),
            ) {
                Some(kept) => old(self)@.outputs[kept].amount >= amount,
                None => true,
            },
        ensures
            match first_output_to(old(self)@.outputs, sender_wallet.address()) {
                Some(kept) if amount <= sender_wallet.balance() => {
                    &&& result is Ok
                    &&& result.unwrap()@ == final(self)@
                    &&& final(self)@.id == old(self)@.id
                    &&& final(self)@.outputs == extended_outputs(
                        old(self)@.outputs,
                        kept,
                        recipient@,
                        amount,
                    )
                    &&& signed_by(final(self)@.input, *sender_wallet, final(self)@.outputs)
                    &&& (final(self)@.input is Some ==> final(self)@.verifies())
                },
                _ => {
                    &&& result matches Err(reason) && reason@ == "Amount exceeds balance"@
                    &&& final(self)@ == old(self)@
                },
            },
    {
        let sender_output = self.find_output(sender_wallet.public_key().as_str());
        if amount > sender_wallet.balance() {
            return Err("Amount exceeds balance");
        }
        match sender_output {
            None => Err("Amount exceeds balance"),
            Some(kept) => {
                let remaining = self.outputs[kept].amount - amount;
                let address = self.outputs[kept].address.clone();
                self.outputs.set(kept, TransactionOutput::new(remaining, address));
                self.outputs.push(TransactionOutput::new(amount, recipient));
                assert(self@.outputs =~= extended_outputs(
                    old(self)@.outputs,
                    kept as int,
                    recipient@,
                    amount,
                ));
                self.sign(sender_wallet);
                Ok(self.clone())
            },
        }
    }

    /// The transaction that mints the mining reward: a single output of
    /// `MINING_REWARD` to the miner, signed by the ledger's wallet. No
    /// balance is checked.
    pub fn reward_transaction(miner_wallet: &Wallet, blockchain_wallet: &Wallet) -> (transaction:
        Transaction)
        ensures
            is_random_uuid(transaction@.id.0),
            transaction@.outputs == seq![
                OutputView { amount: MINING_REWARD, address: miner_wallet.address() },
            ],
            signed_by(transaction@.input, *blockchain_wallet, transaction@.outputs),
            transaction@.input is Some ==> transaction@.verifies(),
    {
        let mut outputs: Vec<TransactionOutput> = Vec::new();
        outputs.push(TransactionOutput::new(MINING_REWARD, miner_wallet.public_key().clone()));
        let mut transaction = Transaction { id: TransactionId::random(), input: None, outputs };
        assert(transaction@.outputs =~= seq![
            OutputView { amount: MINING_REWARD, address: miner_wallet.address() },
        ]);
        transaction.sign(blockchain_wallet);
        transaction
    }

    /// Whether the outputs add up to the amount that the input states. False
    /// without input.
    pub fn is_balanced(&self) -> (ok: bool)
        ensures
            ok == self@.balanced(),
    {
        match &self.input {
            None => false,
            Some(input) => {
                let mut total: u128 = 0;
                let mut i: usize = 0;
                while i < self.outputs.len()
                    invariant
                        i <= self.outputs.len(),
                        total == total_amount(self@.outputs.take(i as int)),
                        total <= i * u64::MAX,
                    decreases self.outputs.len() - i,
                {
                    proof {
                        assert(self@.outputs.take(i + 1).drop_last() =~= self@.outputs.take(
                            i as int,
                        ));
                        assert(self@.outputs.take(i + 1).last().amount == self.outputs@[i as int].amount);
                        assert((i + 1) * u64::MAX == i * u64::MAX + u64::MAX) by (nonlinear_arith);
                        assert(i * u64::MAX <= usize::MAX * u64::MAX) by (nonlinear_arith)
                            requires
                                i <= usize::MAX,
                        ;
                    }
                    total = total + self.outputs[i].amount as u128;
                    i += 1;
                }
                assert(self@.outputs.take(i as int) =~= self@.outputs);
                total == input.amount as u128
            },
        }
    }

    /// Writes the transaction as a JSON object.
    pub fn to_json(&self) -> (json: String)
        ensures
            json@ == transaction_json(self@),
    {
        let mut json = String::from_str("{\"id\":");
        json.append(write_string(self.id.to_text().as_str()).as_str());
        json.append(",\"input\":");
        match &self.input {
            Some(input) => {
                json.append(input.to_json().as_str());
            },
            None => {
                json.append("null");
            },
        }
        json.append(",\"outputs\":");
        json.append(outputs_to_json(&self.outputs).as_str());
        json.append("}");
        json
    }

    /// The transaction in words, for a log or a terminal.
    pub fn to_text(&self) -> (text: String)
        ensures
            text@ == transaction_text(self@),
    {
        let mut text = String::from_str("Transaction: \n\tid: ");
        text.append(self.id.to_text().as_str());
        text.append("\n\tinput: ");
        match &self.input {
            Some(input) => {
                text.append(input.to_json().as_str());
            },
            None => {
                text.append("null");
            },
        }
        text.append("\n\toutputs: ");
        text.append(outputs_to_json(&self.outputs).as_str());
        text.append("\n");
        text
    }

    /// Whether two transactions hold the same values.
    pub fn same_as(&self, other: &Transaction) -> (same: bool)
        ensures
            same == (self@ == other@),
    {
        if self.id.0 != other.id.0 {
            return false;
        }
        let same_input = match (&self.input, &other.input) {
            (Some(a), Some(b)) => a.same_as(b),
            (None, None) => true,
            _ => false,
        };
        if !same_input {
            return false;
        }
        if self.outputs.len() != other.outputs.len() {
            assert(self@.outputs.len() != other@.outputs.len());
            return false;
        }
        let mut i: usize = 0;
        while i < self.outputs.len()
            invariant
                i <= self.outputs.len(),
                self.outputs.len() == other.outputs.len(),
                forall|k: int| 0 <= k < i ==> self.outputs@[k]@ == other.outputs@[k]@,
            decreases self.outputs.len() - i,
        {
            if !self.outputs[i].same_as(&other.outputs[i]) {
                assert(self@.outputs[i as int] != other@.outputs[i as int]);
                return false;
            }
            i += 1;
        }
        assert(self@.outputs =~= other@.outputs);
        true
    }
}

} // verus!
