//! Proof of work: the search for the first nonce whose block hash, read as a
//! big-endian number, falls below the target `2^(256 - TARGET_BITS)`.

use vstd::prelude::*;
use vstd::arithmetic::power2::pow2;
use vstd::arithmetic::power::{lemma_pow_multiplies, lemma_pow_positive, pow};
use vstd::arithmetic::power2::lemma_pow2;
use vstd::utf8::encode_utf8;
use num_bigint::{BigInt, Sign};
use std::ops::ShlAssign;

use crate::block::{transactions_hash, Block, BlockView};
use crate::transaction::TransactionView;
use crate::util::{
    be_bytes, encode_hex_lower, hex_lower, i32_to_be_bytes, i64_to_be_bytes, lemma_be_bytes_injective, lemma_be_bytes_len, lemma_hex_lower_len, sha256,
    sha256_digest,
};

verus! {

/// Number of leading zero bits required of a block hash.
pub const TARGET_BITS: i32 = 8;

/// The nonce at which the search gives up.
pub const MAX_NONCE: i64 = 9223372036854775807;

/// The value of a byte string read as a big-endian unsigned number.
pub open spec fn be_value(bytes: Seq<u8>) -> nat
    decreases bytes.len(),
{
    if bytes.len() == 0 {
        0
    } else {
        be_value(bytes.drop_last()) * 256 + bytes.last() as nat
    }
}

/// The mining target: hashes below it are accepted.
pub open spec fn target() -> nat {
    pow2((256 - TARGET_BITS) as nat)
}

/// Whether a hash meets the mining target.
pub open spec fn meets_target(hash: Seq<u8>) -> bool {
    be_value(hash) < target()
}

/// A big-endian number of `s.len()` bytes is below `256^s.len()`.
pub proof fn lemma_be_value_bound(s: Seq<u8>)
    ensures
        be_value(s) < pow(256, s.len()),
    decreases s.len(),
{
    reveal(pow);
    if s.len() > 0 {
        lemma_be_value_bound(s.drop_last());
        let p = pow(256, (s.len() - 1) as nat);
        let v = be_value(s.drop_last());
        let l = s.last() as int;
        assert(v * 256 + l < 256 * p) by (nonlinear_arith)
            requires
                v < p,
                0 <= l < 256,
        ;
    }
}

/// The first byte of a big-endian number weighs `256^(len - 1)`.
pub proof fn lemma_be_value_first(s: Seq<u8>)
    requires
        s.len() > 0,
    ensures
        be_value(s) == s[0] * pow(256, (s.len() - 1) as nat) + be_value(s.drop_first()),
    decreases s.len(),
{
    reveal(pow);
    if s.len() == 1 {
        assert(s.drop_last().len() == 0);
        assert(s.drop_first().len() == 0);
        assert(be_value(s.drop_last()) == 0);
        assert(be_value(s.drop_first()) == 0);
        assert(s.last() == s[0]);
        assert(pow(256, 0) == 1);
    } else {
        let t = s.drop_last();
        lemma_be_value_first(t);
        assert(t.drop_first() =~= s.drop_first().drop_last());
        assert(s.drop_first().last() == s.last());
        let p = pow(256, (s.len() - 2) as nat);
        assert(pow(256, (s.len() - 1) as nat) == 256 * p);
        let a = s[0] as int;
        let r = be_value(t.drop_first()) as int;
        assert((a * p + r) * 256 == a * (256 * p) + r * 256) by (nonlinear_arith);
        assert(t[0] == s[0]);
        assert(be_value(t) == a * p + r);
        assert(be_value(s) == be_value(t) * 256 + s.last());
        assert(be_value(s.drop_first()) == be_value(s.drop_first().drop_last()) * 256
            + s.drop_first().last());
        assert(be_value(s.drop_first()) == r * 256 + s.last());
    }
}

/// A 32-byte hash meets the target exactly when its first byte is zero:
/// the `TARGET_BITS` leading bits are zero.
pub proof fn lemma_meets_target_iff_first_byte_zero(hash: Seq<u8>)
    requires
        hash.len() == 32,
    ensures
        meets_target(hash) <==> hash[0] == 0,
{
    lemma_be_value_first(hash);
    lemma_be_value_bound(hash.drop_first());
    let p = pow(256, 31);
    lemma_pow2(248);
    reveal_with_fuel(pow, 9);
    assert(pow(2, 8) == 256);
    lemma_pow_multiplies(2, 8, 31);
    assert(target() == p);
    lemma_pow_positive(256, 31);
    let a = hash[0] as int;
    if a > 0 {
        assert(a * p >= p) by (nonlinear_arith)
            requires
                a >= 1,
                p > 0,
        ;
    }
}

/// The parts of a block that proof of work hashes.
pub struct MiningInput {
    pub pre_block_hash: Seq<char>,
    pub transactions: Seq<TransactionView>,
    pub timestamp: i64,
}

/// What proof of work reads of a block: neither its hash nor its nonce.
pub open spec fn mining_input(b: BlockView) -> MiningInput {
    MiningInput {
        pre_block_hash: b.pre_block_hash,
        transactions: b.transactions,
        timestamp: b.timestamp,
    }
}

/// The bytes hashed for a block and a nonce: the previous hash (UTF-8), the
/// transactions digest, then the timestamp, `TARGET_BITS` and the nonce, each
/// big-endian.
pub open spec fn pow_data(m: MiningInput, nonce: int) -> Seq<u8> {
    encode_utf8(m.pre_block_hash) + transactions_hash(m.transactions) + be_bytes(
        m.timestamp as u64 as nat,
        8,
    ) + be_bytes(TARGET_BITS as u32 as nat, 4) + be_bytes(nonce as u64 as nat, 8)
}

/// The hash of a block tried with a nonce.
pub open spec fn pow_hash(m: MiningInput, nonce: int) -> Seq<u8> {
    sha256(pow_data(m, nonce))
}

/// The first nonce from `n` on, below `MAX_NONCE`, whose hash meets the
/// target; `MAX_NONCE` when there is none.
pub open spec fn first_valid_nonce(m: MiningInput, n: int) -> int
    decreases MAX_NONCE - n,
{
    if n >= MAX_NONCE {
        MAX_NONCE as int
    } else if meets_target(pow_hash(m, n)) {
        n
    } else {
        first_valid_nonce(m, n + 1)
    }
}

/// The nonce that mining a block finds.
pub open spec fn mined_nonce(b: BlockView) -> int {
    first_valid_nonce(mining_input(b), 0)
}

/// The hash that mining a block yields: the hexadecimal hash of the nonce
/// found, or of the last nonce tried when the search gives up.
pub open spec fn mined_hash(b: BlockView) -> Seq<char> {
    let n = mined_nonce(b);
    hex_lower(pow_hash(mining_input(b), if n < MAX_NONCE { n } else { MAX_NONCE - 1 }))
}

/// The search finds the first nonce whose hash meets the target: every nonce
/// before it fails, and it meets the target unless the search gave up.
pub proof fn lemma_first_valid_nonce(m: MiningInput, n: int)
    requires
        0 <= n <= MAX_NONCE,
    ensures
        n <= first_valid_nonce(m, n) <= MAX_NONCE,
        first_valid_nonce(m, n) < MAX_NONCE ==> meets_target(
            pow_hash(m, first_valid_nonce(m, n)),
        ),
        forall|k: int| n <= k < first_valid_nonce(m, n) ==> !meets_target(#[trigger] pow_hash(m, k)),
    decreases MAX_NONCE - n,
{
    if n < MAX_NONCE && !meets_target(pow_hash(m, n)) {
        lemma_first_valid_nonce(m, n + 1);
        assert forall|k: int| n <= k < first_valid_nonce(m, n) implies !meets_target(
            #[trigger] pow_hash(m, k),
        ) by {
            if k > n {
                assert(n + 1 <= k < first_valid_nonce(m, n + 1));
            }
        }
    }
}

/// Mining finds the least nonce whose hash meets the target; when it finds
/// one, the mined hash is that hash in hexadecimal.
pub proof fn lemma_mined_nonce_is_least(b: BlockView)
    ensures
        0 <= mined_nonce(b) <= MAX_NONCE,
        forall|k: int| 0 <= k < mined_nonce(b) ==> !meets_target(#[trigger] pow_hash(mining_input(b), k)),
        mined_nonce(b) < MAX_NONCE ==> meets_target(pow_hash(mining_input(b), mined_nonce(b)))
            && mined_hash(b) == hex_lower(pow_hash(mining_input(b), mined_nonce(b))),
{
    lemma_first_valid_nonce(mining_input(b), 0);
}

/// Mining reads neither the hash, the nonce nor the height of a block: two
/// blocks that agree on their predecessor hash, transactions and timestamp
/// hash the same data for every nonce and mine alike.
pub proof fn lemma_mining_ignores_seal(b1: BlockView, b2: BlockView)
    requires
        b1.pre_block_hash == b2.pre_block_hash,
        b1.transactions == b2.transactions,
        b1.timestamp == b2.timestamp,
    ensures
        mining_input(b1) == mining_input(b2),
        mined_nonce(b1) == mined_nonce(b2),
        mined_hash(b1) == mined_hash(b2),
{
    assert(mining_input(b1) == mining_input(b2));
}

/// Proof of work hashes data of the same length for every nonce, and
/// distinct nonces give distinct data (they differ in the last eight bytes).
pub proof fn lemma_pow_data_distinct_nonces(m: MiningInput, n1: i64, n2: i64)
    requires
        n1 != n2,
    ensures
        pow_data(m, n1 as int).len() == pow_data(m, n2 as int).len(),
        pow_data(m, n1 as int) != pow_data(m, n2 as int),
{
    let prefix = encode_utf8(m.pre_block_hash) + transactions_hash(m.transactions) + be_bytes(
        m.timestamp as u64 as nat,
        8,
    ) + be_bytes(TARGET_BITS as u32 as nat, 4);
    let v1 = (n1 as int) as u64;
    let v2 = (n2 as int) as u64;
    assert(v1 == n1 as u64);
    assert(v2 == n2 as u64);
    assert(n1 as u64 != n2 as u64) by (bit_vector)
        requires
            n1 != n2,
    ;
    let e1 = be_bytes(v1 as nat, 8);
    let e2 = be_bytes(v2 as nat, 8);
    lemma_be_bytes_len(v1 as nat, 8);
    lemma_be_bytes_len(v2 as nat, 8);
    assert(pow_data(m, n1 as int) == prefix + e1);
    assert(pow_data(m, n2 as int) == prefix + e2);
    if pow_data(m, n1 as int) == pow_data(m, n2 as int) {
        assert(e1 =~= (prefix + e1).subrange(prefix.len() as int, prefix.len() + 8 as int));
        assert(e2 =~= (prefix + e2).subrange(prefix.len() as int, prefix.len() + 8 as int));
        reveal_with_fuel(pow, 9);
        assert(pow(256, 8) == 0x1_0000_0000_0000_0000);
        lemma_be_bytes_injective(v1 as nat, v2 as nat, 8);
    }
}

/// Compares a big-endian unsigned number with a power of two using
/// `num_bigint::BigInt` (`from_bytes_be`, `shl_assign`, `lt`).
/// Trusted: the result is whether the value of `bytes` is below `2^exponent`.
/// `BigInt` shifts panic on a negative shift, which `requires` leaves out.
#[verifier::external_body]
fn be_value_below_pow2(bytes: &[u8], exponent: i32) -> (res: bool)
    requires
        0 <= exponent,
    ensures
        res == (be_value(bytes@) < pow2(exponent as nat)),
{
    let mut target = BigInt::from(1);
    target.shl_assign(exponent);
    BigInt::from_bytes_be(Sign::Plus, bytes) < target
}

/// The proof-of-work search over one block.
pub struct ProofOfWork {
    /// The block being mined.
    block: Block,
    /// The target is `2^target_exponent`.
    target_exponent: i32,
}

impl View for ProofOfWork {
    type V = BlockView;

    closed spec fn view(&self) -> BlockView {
        self.block@
    }
}

impl ProofOfWork {
    #[verifier::type_invariant]
    spec fn target_is_fixed(self) -> bool {
        self.target_exponent == 256 - TARGET_BITS
    }

    /// Prepares the search over `block`.
    pub fn new_proof_of_work(block: Block) -> (res: ProofOfWork)
        ensures
            res@ == block@,
    {
        ProofOfWork { block, target_exponent: 256 - TARGET_BITS }
    }

    /// Whether a hash, read as a big-endian number, is below the mining target.
    pub fn hash_meets_target(&self, hash: &[u8]) -> (res: bool)
        ensures
            res == meets_target(hash@),
    {
        proof {
            use_type_invariant(self);
        }
        be_value_below_pow2(hash, self.target_exponent)
    }

    /// The bytes that are hashed for `nonce`.
    fn prepare_data(&self, nonce: i64) -> (res: Vec<u8>)
        ensures
            res@ == pow_data(mining_input(self@), nonce as int),
    {
        let mut data_bytes: Vec<u8> = Vec::new();
        let ghost m = mining_input(self@);

        let pre = self.block.pre_block_hash.as_str().as_bytes();
        data_bytes.extend_from_slice(pre);
        assert(data_bytes@ =~= encode_utf8(m.pre_block_hash));

        let ghost prev = data_bytes@;
        let transactions_hash = self.block.hash_transactions();
        data_bytes.extend_from_slice(transactions_hash.as_slice());
        assert(data_bytes@ =~= prev + transactions_hash@);

        let ghost prev = data_bytes@;
        let timestamp = i64_to_be_bytes(self.block.timestamp);
        data_bytes.extend_from_slice(timestamp.as_slice());
        assert(data_bytes@ =~= prev + timestamp@);

        let ghost prev = data_bytes@;
        let bits = i32_to_be_bytes(TARGET_BITS);
        data_bytes.extend_from_slice(bits.as_slice());
        assert(data_bytes@ =~= prev + bits@);

        let ghost prev = data_bytes@;
        let nonce_bytes = i64_to_be_bytes(nonce);
        data_bytes.extend_from_slice(nonce_bytes.as_slice());
        assert(data_bytes@ =~= prev + nonce_bytes@);

        data_bytes
    }

    /// Mines the block: tries nonces from 0 upwards until a hash meets the
    /// target, and returns that nonce with the hash in lower-case hexadecimal.
    pub fn run(&self) -> (res: (i64, String))
        ensures
            res.0 as int == mined_nonce(self@),
            res.1@ == mined_hash(self@),
            res.1@.len() == 64,
    {
        let ghost b = self@;
        let ghost m = mining_input(b);
        let mut nonce: i64 = 0;
        let mut hash: Vec<u8> = Vec::new();
        while nonce < MAX_NONCE
            invariant_except_break
                0 <= nonce <= MAX_NONCE,
                first_valid_nonce(m, nonce as int) == mined_nonce(b),
                nonce > 0 ==> hash@ == pow_hash(m, nonce - 1),
                nonce > 0 ==> hash@.len() == 32,
                b == self@,
                m == mining_input(b),
            ensures
                0 <= nonce <= MAX_NONCE,
                mined_nonce(b) == nonce as int,
                hash@ == pow_hash(m, if nonce < MAX_NONCE { nonce as int } else { MAX_NONCE - 1 }),
                hash@.len() == 32,
            decreases MAX_NONCE - nonce,
        {
            let data = self.prepare_data(nonce);
            hash = sha256_digest(data.as_slice());
            if self.hash_meets_target(hash.as_slice()) {
                break;
            } else {
                nonce += 1;
            }
        }
        let hex = encode_hex_lower(hash.as_slice());
        proof {
            lemma_hex_lower_len(hash@);
        }
        (nonce, hex)
    }
}

} // verus!
