//! Transactions: a data payload identified by the SHA-256 digest of its bytes.

use vstd::prelude::*;
use vstd::utf8::{decode_utf8, encode_utf8, encode_utf8_decode_utf8};

use crate::util::{sha256, sha256_digest};

verus! {

/// A transaction of the blockchain.
///
/// The identifier is the SHA-256 digest of the UTF-8 bytes of the data.
#[derive(Debug)]
pub struct Transaction {
    /// The unique identifier: SHA-256 of the transaction data.
    pub id: Vec<u8>,
    /// The data payload of the transaction.
    pub data: String,
}

/// The mathematical value of a transaction.
pub struct TransactionView {
    pub id: Seq<u8>,
    pub data: Seq<char>,
}

impl View for Transaction {
    type V = TransactionView;

    open spec fn view(&self) -> TransactionView {
        TransactionView { id: self.id@, data: self.data@ }
    }
}

/// The identifier that a transaction carrying `data` receives.
pub open spec fn transaction_id(data: Seq<char>) -> Seq<u8> {
    sha256(encode_utf8(data))
}

/// The transaction built from `data`.
pub open spec fn spec_new_transaction(data: Seq<char>) -> TransactionView {
    TransactionView { id: transaction_id(data), data }
}

/// A transaction's identifier is the digest of bytes that decode back to its
/// data: the identifier commits to the data exactly, so distinct data are
/// hashed from distinct bytes.
pub proof fn lemma_transaction_id_commits_to_data(data: Seq<char>)
    ensures
        exists|bytes: Seq<u8>| transaction_id(data) == sha256(bytes) && decode_utf8(bytes) == data,
{
    encode_utf8_decode_utf8(data);
    assert(transaction_id(data) == sha256(encode_utf8(data)) && decode_utf8(encode_utf8(data))
        == data);
}

/// Transactions built from distinct data are digests of distinct bytes.
pub proof fn lemma_distinct_data_distinct_preimages(d1: Seq<char>, d2: Seq<char>)
    requires
        d1 != d2,
    ensures
        exists|b1: Seq<u8>, b2: Seq<u8>|
            b1 != b2 && transaction_id(d1) == sha256(b1) && transaction_id(d2) == sha256(b2),
{
    encode_utf8_decode_utf8(d1);
    encode_utf8_decode_utf8(d2);
    let b1 = encode_utf8(d1);
    let b2 = encode_utf8(d2);
    assert(b1 != b2);
    assert(transaction_id(d1) == sha256(b1) && transaction_id(d2) == sha256(b2));
}

impl Clone for Transaction {
    fn clone(&self) -> (res: Self)
        ensures
            res@ == self@,
    {
        let id = self.id.clone();
        assert(id@ =~= self.id@);
        Transaction { id, data: self.data.clone() }
    }
}

impl Transaction {
    /// Creates a transaction whose identifier is the SHA-256 digest of `data`.
    pub fn new(data: String) -> (res: Transaction)
        ensures
            res@ == spec_new_transaction(data@),
            res.data@ == data@,
            res.id@ == sha256(encode_utf8(data@)),
            res.id@.len() == 32,
    {
        let id = sha256_digest(data.as_str().as_bytes());
        Transaction { id, data }
    }

    /// Returns a copy of the identifier.
    pub fn get_id(&self) -> (res: Vec<u8>)
        ensures
            res@ == self.id@,
    {
        let id = self.id.clone();
        assert(id@ =~= self.id@);
        id
    }

    /// Returns the data payload.
    pub fn get_data(&self) -> (res: &String)
        ensures
            res@ == self.data@,
    {
        &self.data
    }
}

} // verus!
