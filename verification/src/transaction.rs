//! Bitcoin transactions as the anchoring rules read them.

use vstd::prelude::*;
use crate::bytes::{bytes_eq, clone_bytes};

verus! {

/// Compares two 32-byte hashes.
pub fn hash_eq(a: &[u8; 32], b: &[u8; 32]) -> (same: bool)
    ensures
        same == (a@ == b@),
{
    let mut i: usize = 0;
    while i < 32
        invariant
            i <= 32,
            forall|j: int| 0 <= j < i ==> a@[j] == b@[j],
        decreases 32 - i,
    {
        if a[i] != b[i] {
            return false;
        }
        i = i + 1;
    }
    assert(a@ =~= b@);
    true
}

/// The byte strings held by a list of byte vectors.
pub open spec fn byte_strings(items: Seq<Vec<u8>>) -> Seq<Seq<u8>> {
    Seq::new(items.len(), |i: int| items[i]@)
}

/// Copies a list of byte strings.
pub fn clone_byte_strings(items: &Vec<Vec<u8>>) -> (copy: Vec<Vec<u8>>)
    ensures
        byte_strings(copy@) == byte_strings(items@),
{
    let mut out: Vec<Vec<u8>> = Vec::new();
    let mut i: usize = 0;
    while i < items.len()
        invariant
            i <= items.len(),
            out@.len() == i,
            forall|j: int| 0 <= j < i ==> out@[j]@ == items@[j]@,
        decreases items.len() - i,
    {
        out.push(clone_bytes(&items[i]));
        i = i + 1;
    }
    assert(byte_strings(out@) =~= byte_strings(items@));
    out
}

/// An input of a transaction.
#[derive(Debug)]
pub struct TxIn {
    /// The identifier of the transaction whose output is spent.
    pub prev_txid: [u8; 32],
    /// The index of that output.
    pub vout: u32,
    /// The unlocking script; empty in SegWit inputs.
    pub script_sig: Vec<u8>,
    /// The sequence number.
    pub sequence: u32,
    /// The witness stack.
    pub witness: Vec<Vec<u8>>,
}

/// The value of a [`TxIn`].
pub struct TxInView {
    pub prev_txid: Seq<u8>,
    pub vout: u32,
    pub script_sig: Seq<u8>,
    pub sequence: u32,
    pub witness: Seq<Seq<u8>>,
}

impl View for TxIn {
    type V = TxInView;

    open spec fn view(&self) -> TxInView {
        TxInView {
            prev_txid: self.prev_txid@,
            vout: self.vout,
            script_sig: self.script_sig@,
            sequence: self.sequence,
            witness: byte_strings(self.witness@),
        }
    }
}

impl Clone for TxIn {
    fn clone(&self) -> (copy: TxIn)
        ensures
            copy@ == self@,
    {
        TxIn {
            prev_txid: self.prev_txid,
            vout: self.vout,
            script_sig: clone_bytes(&self.script_sig),
            sequence: self.sequence,
            witness: clone_byte_strings(&self.witness),
        }
    }
}

/// An output of a transaction.
#[derive(Debug)]
pub struct TxOut {
    /// The amount, in satoshis.
    pub value: u64,
    /// The locking script.
    pub script_pubkey: Vec<u8>,
}

/// The value of a [`TxOut`].
pub struct TxOutView {
    pub value: u64,
    pub script_pubkey: Seq<u8>,
}

impl View for TxOut {
    type V = TxOutView;

    open spec fn view(&self) -> TxOutView {
        TxOutView { value: self.value, script_pubkey: self.script_pubkey@ }
    }
}

impl Clone for TxOut {
    fn clone(&self) -> (copy: TxOut)
        ensures
            copy@ == self@,
    {
        TxOut { value: self.value, script_pubkey: clone_bytes(&self.script_pubkey) }
    }
}

/// A Bitcoin transaction.
#[derive(Debug)]
pub struct Transaction {
    /// The protocol version.
    pub version: u32,
    /// The block height or time before which the transaction is not valid.
    pub lock_time: u32,
    /// The inputs.
    pub input: Vec<TxIn>,
    /// The outputs.
    pub output: Vec<TxOut>,
}

/// The value of a [`Transaction`].
pub struct TransactionView {
    pub version: u32,
    pub lock_time: u32,
    pub input: Seq<TxInView>,
    pub output: Seq<TxOutView>,
}

/// The values of a list of inputs.
pub open spec fn input_views(inputs: Seq<TxIn>) -> Seq<TxInView> {
    Seq::new(inputs.len(), |i: int| inputs[i]@)
}

/// The values of a list of outputs.
pub open spec fn output_views(outputs: Seq<TxOut>) -> Seq<TxOutView> {
    Seq::new(outputs.len(), |i: int| outputs[i]@)
}

impl View for Transaction {
    type V = TransactionView;

    open spec fn view(&self) -> TransactionView {
        TransactionView {
            version: self.version,
            lock_time: self.lock_time,
            input: input_views(self.input@),
            output: output_views(self.output@),
        }
    }
}

impl Clone for Transaction {
    fn clone(&self) -> (copy: Transaction)
        ensures
            copy@ == self@,
    {
        let mut input: Vec<TxIn> = Vec::new();
        let mut i: usize = 0;
        while i < self.input.len()
            invariant
                i <= self.input.len(),
                input@.len() == i,
                forall|j: int| 0 <= j < i ==> input@[j]@ == self.input@[j]@,
            decreases self.input.len() - i,
        {
            input.push(self.input[i].clone());
            i = i + 1;
        }
        let mut output: Vec<TxOut> = Vec::new();
        let mut k: usize = 0;
        while k < self.output.len()
            invariant
                k <= self.output.len(),
                output@.len() == k,
                forall|j: int| 0 <= j < k ==> output@[j]@ == self.output@[j]@,
            decreases self.output.len() - k,
        {
            output.push(self.output[k].clone());
            k = k + 1;
        }
        assert(input_views(input@) =~= input_views(self.input@));
        assert(output_views(output@) =~= output_views(self.output@));
        Transaction { version: self.version, lock_time: self.lock_time, input, output }
    }
}

/// The transaction with the witness of every input taken away.
pub open spec fn without_witnesses(tx: TransactionView) -> TransactionView {
    TransactionView {
        input: Seq::new(
            tx.input.len(),
            |i: int| TxInView { witness: Seq::empty(), ..tx.input[i] },
        ),
        ..tx
    }
}

/// The identifier that `bitcoin::Transaction::txid` computes for a
/// transaction without witnesses.
pub uninterp spec fn base_transaction_id(tx: TransactionView) -> Seq<u8>;

/// The identifier of a transaction. It does not depend on the witnesses.
pub open spec fn transaction_id(tx: TransactionView) -> Seq<u8> {
    base_transaction_id(without_witnesses(tx))
}

/// Calls `bitcoin::Transaction::txid` on the transaction with these fields.
/// The identifier hashes the version, the inputs without their witnesses,
/// the outputs and the lock time, so it is the identifier of the
/// transaction without witnesses.
#[verifier::external_body]
fn compute_txid(tx: &Transaction) -> (id: [u8; 32])
    ensures
        id@ == base_transaction_id(without_witnesses(tx@)),
{
    let input = tx.input.iter().map(|i| bitcoin::TxIn {
        previous_output: bitcoin::OutPoint::new(bitcoin::hashes::Hash::from_inner(i.prev_txid), i.vout),
        script_sig: i.script_sig.clone().into(),
        sequence: i.sequence,
        witness: i.witness.clone(),
    }).collect();
    let output = tx.output.iter().map(|o| bitcoin::TxOut {
        value: o.value,
        script_pubkey: o.script_pubkey.clone().into(),
    }).collect();
    let tx = bitcoin::Transaction { version: tx.version, lock_time: tx.lock_time, input, output };
    bitcoin::hashes::Hash::into_inner(tx.txid())
}

/// The first output from position `from` on that pays to `script`.
pub open spec fn find_output(outputs: Seq<TxOutView>, script: Seq<u8>, from: int) -> Option<int>
    decreases outputs.len() - from,
{
    if from < 0 || from >= outputs.len() {
        None
    } else if outputs[from].script_pubkey == script {
        Some(from)
    } else {
        find_output(outputs, script, from + 1)
    }
}

/// An output is found exactly where one pays to the script; what is found
/// pays to it, and no output before it does.
pub proof fn lemma_find_output(outputs: Seq<TxOutView>, script: Seq<u8>, from: int)
    requires
        0 <= from,
    ensures
        find_output(outputs, script, from) is Some <==> exists|i: int|
            from <= i < outputs.len() && outputs[i].script_pubkey == script,
        find_output(outputs, script, from) matches Some(n) ==> {
            &&& from <= n < outputs.len()
            &&& outputs[n].script_pubkey == script
            &&& forall|j: int| from <= j < n ==> outputs[j].script_pubkey != script
        },
    decreases outputs.len() - from,
{
    if from < outputs.len() && outputs[from].script_pubkey != script {
        lemma_find_output(outputs, script, from + 1);
    }
}

/// Whether some output of the transaction pays to `script`.
pub open spec fn pays_to(tx: TransactionView, script: Seq<u8>) -> bool {
    exists|i: int| 0 <= i < tx.output.len() && tx.output[i].script_pubkey == script
}

/// The consensus serialization of a transaction, as
/// `bitcoin::consensus::serialize` writes it.
pub uninterp spec fn transaction_encoding(tx: TransactionView) -> Seq<u8>;

/// Calls `bitcoin::consensus::serialize` on the transaction with these fields.
#[verifier::external_body]
fn serialize_transaction(tx: &Transaction) -> (bytes: Vec<u8>)
    ensures
        bytes@ == transaction_encoding(tx@),
{
    let input = tx.input.iter().map(|i| bitcoin::TxIn {
        previous_output: bitcoin::OutPoint::new(bitcoin::hashes::Hash::from_inner(i.prev_txid), i.vout),
        script_sig: i.script_sig.clone().into(),
        sequence: i.sequence,
        witness: i.witness.clone(),
    }).collect();
    let output = tx.output.iter().map(|o| bitcoin::TxOut {
        value: o.value,
        script_pubkey: o.script_pubkey.clone().into(),
    }).collect();
    let tx = bitcoin::Transaction { version: tx.version, lock_time: tx.lock_time, input, output };
    bitcoin::consensus::serialize(&tx)
}

/// The transaction that `bitcoin::consensus::deserialize` reads from the
/// bytes, if it accepts them.
pub uninterp spec fn decoded_transaction(bytes: Seq<u8>) -> Option<TransactionView>;

/// Calls `bitcoin::consensus::deserialize` and hands out the fields of the
/// transaction that it read.
#[verifier::external_body]
fn deserialize_transaction(bytes: &Vec<u8>) -> (tx: Option<Transaction>)
    ensures
        tx is Some <==> decoded_transaction(bytes@) is Some,
        tx matches Some(t) ==> decoded_transaction(bytes@) == Some(t@),
{
    let tx: bitcoin::Transaction = bitcoin::consensus::deserialize(bytes).ok()?;
    let input = tx.input.into_iter().map(|i| TxIn {
        prev_txid: bitcoin::hashes::Hash::into_inner(i.previous_output.txid),
        vout: i.previous_output.vout,
        script_sig: i.script_sig.into_bytes(),
        sequence: i.sequence,
        witness: i.witness,
    }).collect();
    let output = tx.output.into_iter().map(|o| TxOut {
        value: o.value,
        script_pubkey: o.script_pubkey.into_bytes(),
    }).collect();
    Some(Transaction { version: tx.version, lock_time: tx.lock_time, input, output })
}

/// The digest that a signature of input `input` commits to, for the script
/// and the amount of the output that the input spends: what
/// `SighashComponents::sighash_all` of the bitcoin library computes.
pub uninterp spec fn input_sighash(
    tx: TransactionView,
    input: nat,
    script: Seq<u8>,
    value: u64,
) -> Seq<u8>;

/// Calls `bitcoin::util::bip143::SighashComponents::new` on the transaction
/// with these fields and `sighash_all` on its input `input`.
#[verifier::external_body]
fn compute_sighash(tx: Transaction, input: usize, script: Vec<u8>, value: u64) -> (digest: [u8; 32])
    requires
        input < tx.input@.len(),
    ensures
        digest@ == input_sighash(tx@, input as nat, script@, value),
{
    let ins = tx.input.into_iter().map(|i| bitcoin::TxIn {
        previous_output: bitcoin::OutPoint::new(bitcoin::hashes::Hash::from_inner(i.prev_txid), i.vout),
        script_sig: i.script_sig.into(),
        sequence: i.sequence,
        witness: i.witness,
    }).collect();
    let outs = tx.output.into_iter().map(|o| bitcoin::TxOut {
        value: o.value,
        script_pubkey: o.script_pubkey.into(),
    }).collect();
    let tx = bitcoin::Transaction { version: tx.version, lock_time: tx.lock_time, input: ins, output: outs };
    let digest = bitcoin::util::bip143::SighashComponents::new(&tx)
        .sighash_all(&tx.input[input], &script.into(), value);
    bitcoin::hashes::Hash::into_inner(digest)
}

/// Compares two lists of byte strings.
pub fn byte_strings_eq(a: &Vec<Vec<u8>>, b: &Vec<Vec<u8>>) -> (same: bool)
    ensures
        same == (byte_strings(a@) == byte_strings(b@)),
{
    if a.len() != b.len() {
        assert(byte_strings(a@).len() != byte_strings(b@).len());
        return false;
    }
    let mut i: usize = 0;
    while i < a.len()
        invariant
            i <= a@.len(),
            a@.len() == b@.len(),
            forall|j: int| 0 <= j < i ==> a@[j]@ == b@[j]@,
        decreases a.len() - i,
    {
        if !bytes_eq(&a[i], &b[i]) {
            assert(byte_strings(a@)[i as int] != byte_strings(b@)[i as int]);
            return false;
        }
        i = i + 1;
    }
    assert(byte_strings(a@) =~= byte_strings(b@));
    true
}

impl TxIn {
    /// Whether two inputs are the same.
    pub fn same(&self, other: &TxIn) -> (same: bool)
        ensures
            same == (self@ == other@),
    {
        hash_eq(&self.prev_txid, &other.prev_txid) && self.vout == other.vout && bytes_eq(
            &self.script_sig,
            &other.script_sig,
        ) && self.sequence == other.sequence && byte_strings_eq(&self.witness, &other.witness)
    }
}

impl TxOut {
    /// Whether two outputs are the same.
    pub fn same(&self, other: &TxOut) -> (same: bool)
        ensures
            same == (self@ == other@),
    {
        self.value == other.value && bytes_eq(&self.script_pubkey, &other.script_pubkey)
    }
}

impl Transaction {
    /// Whether two transactions are the same.
    pub fn same(&self, other: &Transaction) -> (same: bool)
        ensures
            same == (self@ == other@),
    {
        if self.version != other.version || self.lock_time != other.lock_time
            || self.input.len() != other.input.len() || self.output.len()
            != other.output.len() {
            assert(self@.input.len() == self.input@.len());
            assert(other@.input.len() == other.input@.len());
            assert(self@.output.len() == self.output@.len());
            assert(other@.output.len() == other.output@.len());
            return false;
        }
        let mut i: usize = 0;
        while i < self.input.len()
            invariant
                i <= self.input@.len(),
                self.input@.len() == other.input@.len(),
                forall|j: int| 0 <= j < i ==> self.input@[j]@ == other.input@[j]@,
            decreases self.input.len() - i,
        {
            if !self.input[i].same(&other.input[i]) {
                assert(self@.input[i as int] != other@.input[i as int]);
                return false;
            }
            i = i + 1;
        }
        let mut k: usize = 0;
        while k < self.output.len()
            invariant
                k <= self.output@.len(),
                self.output@.len() == other.output@.len(),
                forall|j: int| 0 <= j < k ==> self.output@[j]@ == other.output@[j]@,
            decreases self.output.len() - k,
        {
            if !self.output[k].same(&other.output[k]) {
                assert(self@.output[k as int] != other@.output[k as int]);
                return false;
            }
            k = k + 1;
        }
        assert(self@.input =~= other@.input);
        assert(self@.output =~= other@.output);
        true
    }

    /// The consensus serialization of the transaction.
    pub fn to_bytes(&self) -> (bytes: Vec<u8>)
        ensures
            bytes@ == transaction_encoding(self@),
    {
        serialize_transaction(self)
    }

    /// Reads a transaction from its consensus serialization.
    pub fn from_bytes(bytes: &Vec<u8>) -> (tx: Option<Transaction>)
        ensures
            tx is Some <==> decoded_transaction(bytes@) is Some,
            tx matches Some(t) ==> decoded_transaction(bytes@) == Some(t@),
    {
        deserialize_transaction(bytes)
    }

    /// The digest that a signature of input `input` commits to.
    pub fn sighash(&self, input: usize, script: &Vec<u8>, value: u64) -> (digest: [u8; 32])
        requires
            input < self.input@.len(),
        ensures
            digest@ == input_sighash(self@, input as nat, script@, value),
    {
        let copy = self.clone();
        assert(copy.input@.len() == copy@.input.len());
        assert(self.input@.len() == self@.input.len());
        compute_sighash(copy, input, clone_bytes(script), value)
    }

    /// The identifier of the transaction that the first input spends.
    pub fn prev_tx_id(&self) -> (id: [u8; 32])
        requires
            self.input@.len() > 0,
        ensures
            id@ == self@.input[0].prev_txid,
    {
        self.input[0].prev_txid
    }

    /// Finds the first output that pays to `script`.
    pub fn find_out(&self, script: &Vec<u8>) -> (found: Option<usize>)
        ensures
            found is Some <==> pays_to(self@, script@),
            found is Some <==> find_output(self@.output, script@, 0) is Some,
            found matches Some(n) ==> {
                &&& n < self.output@.len()
                &&& find_output(self@.output, script@, 0) == Some(n as int)
                &&& self.output@[n as int].script_pubkey@ == script@
                &&& forall|j: int| 0 <= j < n ==> self.output@[j].script_pubkey@ != script@
            },
    {
        proof {
            lemma_find_output(self@.output, script@, 0);
        }
        let mut n: usize = 0;
        while n < self.output.len()
            invariant
                n <= self.output@.len(),
                forall|j: int| 0 <= j < n ==> self.output@[j].script_pubkey@ != script@,
                forall|j: int| 0 <= j < n ==> self@.output[j].script_pubkey != script@,
            decreases self.output.len() - n,
        {
            if bytes_eq(&self.output[n].script_pubkey, script) {
                assert(self@.output[n as int].script_pubkey == script@);
                proof {
                    lemma_find_output(self@.output, script@, 0);
                }
                return Some(n);
            }
            assert(self@.output[n as int].script_pubkey == self.output@[n as int].script_pubkey@);
            n = n + 1;
        }
        assert forall|i: int| 0 <= i < self@.output.len() implies self@.output[i].script_pubkey
            != script@ by {
            assert(self@.output[i] == self.output@[i]@);
        }
        None
    }

    /// The identifier of the transaction.
    pub fn id(&self) -> (id: [u8; 32])
        ensures
            id@ == transaction_id(self@),
    {
        compute_txid(self)
    }
}

} // verus!
