//! Transactions, their canonical encoding, signing and verification.
use vstd::prelude::*;
use crate::address::{Address, lemma_view_injective};
use crate::signature::{Signature, signer_of};
use crate::signer::{SignerSync, SignError};

verus! {

/// The eight big-endian bytes of `n`.
pub open spec fn be_bytes(n: u64) -> Seq<u8> {
    Seq::new(8, |i: int| (n >> ((8 * (7 - i)) as u64)) as u8)
}

/// A transfer of value from one account to another.
#[derive(Debug)]
pub struct Transaction {
    /// nonce of the sender
    pub nonce: u64,
    /// sender address
    pub from: Address,
    /// recipient address
    pub to: Address,
    /// amount to transfer
    pub value: u64,
    /// reward for including the transaction
    pub tip: u64,
    /// data payload
    pub data: Vec<u8>,
}

/// The canonical byte encoding of a transaction: its fixed-width fields in order, then the
/// payload.
pub open spec fn encoding(tx: Transaction) -> Seq<u8> {
    be_bytes(tx.nonce) + tx.from@ + tx.to@ + be_bytes(tx.value) + be_bytes(tx.tip) + tx.data@
}

/// Distinct numbers have distinct big-endian bytes.
pub proof fn lemma_be_bytes_injective(n: u64, m: u64)
    requires
        be_bytes(n) == be_bytes(m),
    ensures
        n == m,
{
    assert(be_bytes(n)[0] == (n >> 56u64) as u8 && be_bytes(m)[0] == (m >> 56u64) as u8);
    assert(be_bytes(n)[1] == (n >> 48u64) as u8 && be_bytes(m)[1] == (m >> 48u64) as u8);
    assert(be_bytes(n)[2] == (n >> 40u64) as u8 && be_bytes(m)[2] == (m >> 40u64) as u8);
    assert(be_bytes(n)[3] == (n >> 32u64) as u8 && be_bytes(m)[3] == (m >> 32u64) as u8);
    assert(be_bytes(n)[4] == (n >> 24u64) as u8 && be_bytes(m)[4] == (m >> 24u64) as u8);
    assert(be_bytes(n)[5] == (n >> 16u64) as u8 && be_bytes(m)[5] == (m >> 16u64) as u8);
    assert(be_bytes(n)[6] == (n >> 8u64) as u8 && be_bytes(m)[6] == (m >> 8u64) as u8);
    assert(be_bytes(n)[7] == (n >> 0u64) as u8 && be_bytes(m)[7] == (m >> 0u64) as u8);
    assert(((n >> 56u64) as u8 == (m >> 56u64) as u8 && (n >> 48u64) as u8 == (m >> 48u64) as u8
        && (n >> 40u64) as u8 == (m >> 40u64) as u8 && (n >> 32u64) as u8 == (m >> 32u64) as u8
        && (n >> 24u64) as u8 == (m >> 24u64) as u8 && (n >> 16u64) as u8 == (m >> 16u64) as u8
        && (n >> 8u64) as u8 == (m >> 8u64) as u8 && (n >> 0u64) as u8 == (m >> 0u64) as u8) ==> n == m)
        by (bit_vector);
}

/// The canonical encoding tells transactions apart: equal encodings come from equal fields.
pub proof fn lemma_encoding_injective(a: Transaction, b: Transaction)
    requires
        encoding(a) == encoding(b),
    ensures
        a.nonce == b.nonce,
        a.from == b.from,
        a.to == b.to,
        a.value == b.value,
        a.tip == b.tip,
        a.data@ == b.data@,
{
    a.from.lemma_len();
    a.to.lemma_len();
    b.from.lemma_len();
    b.to.lemma_len();
    let ea = encoding(a);
    let eb = encoding(b);
    assert(ea.subrange(0, 8) =~= be_bytes(a.nonce));
    assert(eb.subrange(0, 8) =~= be_bytes(b.nonce));
    assert(ea.subrange(8, 28) =~= a.from@);
    assert(eb.subrange(8, 28) =~= b.from@);
    assert(ea.subrange(28, 48) =~= a.to@);
    assert(eb.subrange(28, 48) =~= b.to@);
    assert(ea.subrange(48, 56) =~= be_bytes(a.value));
    assert(eb.subrange(48, 56) =~= be_bytes(b.value));
    assert(ea.subrange(56, 64) =~= be_bytes(a.tip));
    assert(eb.subrange(56, 64) =~= be_bytes(b.tip));
    assert(ea.subrange(64, ea.len() as int) =~= a.data@);
    assert(eb.subrange(64, eb.len() as int) =~= b.data@);
    lemma_be_bytes_injective(a.nonce, b.nonce);
    lemma_be_bytes_injective(a.value, b.value);
    lemma_be_bytes_injective(a.tip, b.tip);
    lemma_view_injective(a.from, b.from);
    lemma_view_injective(a.to, b.to);
}

/// Why a signed transaction is rejected.
#[derive(Debug, Clone, Copy, PartialEq, Eq, Structural)]
pub enum TxError {
    /// No signer can be recovered from the signature.
    Recovery,
    /// The recovered signer is not the claimed sender.
    SignatureMismatch,
    /// The sender and the recipient are the same account.
    SelfTransfer,
}

/// What verification returns for a transaction and its signature.
pub open spec fn verify_outcome(tx: Transaction, sig: Signature) -> Result<(), TxError> {
    match signer_of(encoding(tx), sig) {
        None => Err(TxError::Recovery),
        Some(a) => if a != tx.from@ {
            Err(TxError::SignatureMismatch)
        } else if tx.from@ == tx.to@ {
            Err(TxError::SelfTransfer)
        } else {
            Ok(())
        },
    }
}

fn push_u64(out: &mut Vec<u8>, n: u64)
    ensures
        final(out)@ == old(out)@ + be_bytes(n),
{
    let ghost start = out@;
    let mut i: u64 = 0;
    while i < 8
        invariant
            i <= 8,
            out@ == start + be_bytes(n).subrange(0, i as int),
        decreases 8 - i,
    {
        out.push((n >> (8 * (7 - i))) as u8);
        i += 1;
        assert(out@ =~= start + be_bytes(n).subrange(0, i as int));
    }
    assert(be_bytes(n).subrange(0, 8) =~= be_bytes(n));
}

fn push_all(out: &mut Vec<u8>, bytes: &[u8])
    ensures
        final(out)@ == old(out)@ + bytes@,
{
    let ghost start = out@;
    let mut i: usize = 0;
    while i < bytes.len()
        invariant
            i <= bytes@.len(),
            out@ == start + bytes@.subrange(0, i as int),
        decreases bytes@.len() - i,
    {
        out.push(bytes[i]);
        i += 1;
        assert(out@ =~= start + bytes@.subrange(0, i as int));
    }
    assert(bytes@.subrange(0, bytes@.len() as int) =~= bytes@);
}

impl Transaction {
    /// The canonical byte encoding, the payload that is signed.
    pub fn encode(&self) -> (r: Vec<u8>)
        ensures
            r@ == encoding(*self),
    {
        let mut out: Vec<u8> = Vec::new();
        push_u64(&mut out, self.nonce);
        let from = self.from.to_bytes();
        push_all(&mut out, from.as_slice());
        let to = self.to.to_bytes();
        push_all(&mut out, to.as_slice());
        push_u64(&mut out, self.value);
        push_u64(&mut out, self.tip);
        push_all(&mut out, self.data.as_slice());
        assert(out@ =~= encoding(*self));
        out
    }

    /// Signs the canonical encoding with `signer`.
    pub fn sign_by<S: SignerSync>(self, signer: &S) -> (r: Result<SignedTx, SignError>)
        ensures
            r matches Ok(stx) ==> stx.transaction == self
                && signer_of(encoding(self), stx.signature) == Some(signer.signer_address()),
    {
        let encoded = self.encode();
        match signer.eip191_sign_msg(encoded.as_slice()) {
            Ok(signature) => Ok(SignedTx { transaction: self, signature }),
            Err(e) => Err(e),
        }
    }
}

/// A transaction with a signature over its canonical encoding.
pub struct SignedTx {
    pub transaction: Transaction,
    pub signature: Signature,
}

impl SignedTx {
    /// Checks that the signature recovers to the claimed sender, then that the sender
    /// does not send to itself; on success gives the authenticated transaction.
    pub fn verify(&self) -> (r: Result<&Transaction, TxError>)
        ensures
            r is Ok <==> verify_outcome(self.transaction, self.signature) is Ok,
            r matches Ok(tx) ==> *tx == self.transaction,
            r matches Err(e) ==> verify_outcome(self.transaction, self.signature) == Err::<(), TxError>(e),
    {
        let encoded = self.transaction.encode();
        let recovered = match self.signature.recover_address_from_msg(encoded.as_slice()) {
            Ok(a) => a,
            Err(_) => return Err(TxError::Recovery),
        };
        if recovered != self.transaction.from {
            return Err(TxError::SignatureMismatch);
        }
        if recovered == self.transaction.to {
            return Err(TxError::SelfTransfer);
        }
        Ok(&self.transaction)
    }
}

/// A transaction signed by its own sender and sent to another account verifies; one whose
/// signature recovers to another account fails with a mismatch; one sent to its own sender
/// fails as a self-transfer.
pub proof fn lemma_verification(tx: Transaction, sig: Signature, signer_address: Seq<u8>)
    requires
        signer_of(encoding(tx), sig) == Some(signer_address),
    ensures
        signer_address == tx.from@ && tx.from@ != tx.to@ ==> verify_outcome(tx, sig) == Ok::<(), TxError>(()),
        signer_address != tx.from@ ==> verify_outcome(tx, sig) == Err::<(), TxError>(TxError::SignatureMismatch),
        signer_address == tx.from@ && tx.from@ == tx.to@ ==> verify_outcome(tx, sig) == Err::<(), TxError>(TxError::SelfTransfer),
{
}

/// Relies on `jiff::Timestamp::now` and `as_millisecond`: the current time in milliseconds
/// since the Unix epoch.
#[verifier::external_body]
fn now_millis() -> (r: u64) {
    jiff::Timestamp::now().as_millisecond() as u64
}

/// A signed transaction with the metadata it carries in the pool and in a block.
pub struct BlockTx {
    pub tx: SignedTx,
    pub timestamp: u64,
    pub gas_price: u64,
    pub gas_units: u64,
}

impl BlockTx {
    /// Wraps a signed transaction, stamped with the current time.
    pub fn new(tx: SignedTx, gas_price: u64, gas_units: u64) -> (r: BlockTx)
        ensures
            r.tx == tx,
            r.gas_price == gas_price,
            r.gas_units == gas_units,
    {
        BlockTx { tx, timestamp: now_millis(), gas_price, gas_units }
    }

    /// The transaction held.
    pub fn tx(&self) -> (r: &Transaction)
        ensures
            *r == self.tx.transaction,
    {
        &self.tx.transaction
    }

    /// The tip of the transaction held.
    pub fn tip(&self) -> (r: u64)
        ensures
            r == self.tx.transaction.tip,
    {
        self.tx.transaction.tip
    }
}

} // verus!
