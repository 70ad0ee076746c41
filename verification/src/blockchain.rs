//! A SHA-256 hash chain of blocks of transactions.
//!
//! A transaction's amount is carried as the text `Display` writes for it.

use vstd::prelude::*;
use vstd::utf8::encode_utf8;
use crate::crypto::{hex_text, sha256_bytes, sha256_digest, to_lower_hex};
use crate::text::{decimal_text, owned, push_decimal, push_str_chars, push_string_chars, string_from_chars, chars_of};

use crate::mother_core::unix_seconds_now;

verus! {

/// The system clock in whole seconds since the Unix epoch, as decimal text ("0"
/// when the clock reads earlier than the epoch).
fn now_ts() -> (r: String)
    ensures
        exists|n: u64| r@ == #[trigger] decimal_text(n as nat),
{
    let secs = unix_seconds_now();
    let mut digits: Vec<char> = Vec::new();
    push_decimal(secs, &mut digits);
    assert(digits@ =~= decimal_text(secs as nat));
    string_from_chars(digits.as_slice())
}

/// Appends bytes.
fn push_bytes(out: &mut Vec<u8>, b: &[u8])
    ensures
        final(out)@ == old(out)@ + b@,
{
    let mut i: usize = 0;
    while i < b.len()
        invariant
            i <= b@.len(),
            out@ == old(out)@ + b@.subrange(0, i as int),
        decreases b@.len() - i,
    {
        out.push(b[i]);
        i += 1;
        assert(out@ =~= old(out)@ + b@.subrange(0, i as int));
    }
    assert(b@.subrange(0, b@.len() as int) =~= b@);
}

/// A transfer between two parties, with an optional payload.
#[derive(Debug)]
pub struct Transaction {
    pub sender: String,
    pub receiver: String,
    pub amount: String,
    pub data: Option<String>,
}

/// The text a transaction contributes to its block's hash:
/// `sender->receiver:amount:data`.
pub open spec fn tx_input(tx: Transaction) -> Seq<char> {
    tx.sender@ + "->"@ + tx.receiver@ + ":"@ + tx.amount@ + ":"@ + match tx.data {
        Some(d) => d@,
        None => Seq::empty(),
    }
}

impl Transaction {
    pub fn new(sender: String, receiver: String, amount: String) -> (r: Transaction)
        ensures
            r == (Transaction { sender, receiver, amount, data: None }),
    {
        Transaction { sender, receiver, amount, data: None }
    }

    /// The same transaction with a payload.
    pub fn with_data(self, data: String) -> (r: Transaction)
        ensures
            r == (Transaction { data: Some(data), ..self }),
    {
        let mut t = self;
        t.data = Some(data);
        t
    }

    /// The text it contributes to its block's hash.
    pub fn to_hash_input(&self) -> (r: String)
        ensures
            r@ == tx_input(*self),
    {
        let mut out: Vec<char> = Vec::new();
        push_string_chars(&mut out, &self.sender);
        push_str_chars(&mut out, "->");
        push_string_chars(&mut out, &self.receiver);
        push_str_chars(&mut out, ":");
        push_string_chars(&mut out, &self.amount);
        push_str_chars(&mut out, ":");
        match &self.data {
            Some(d) => push_string_chars(&mut out, d),
            None => {},
        }
        assert(out@ =~= tx_input(*self));
        string_from_chars(out.as_slice())
    }
}

/// A block: its place in the chain, when it was made, its transactions, the hash
/// of the block before it, its own hash and the nonce found by mining.
#[derive(Debug)]
pub struct Block {
    pub index: u64,
    pub timestamp: String,
    pub transactions: Vec<Transaction>,
    pub previous_hash: String,
    pub hash: String,
    pub nonce: u64,
}

/// The UTF-8 bytes of the transactions' hash inputs, one after the other.
pub open spec fn txs_bytes(txs: Seq<Transaction>) -> Seq<u8>
    decreases txs.len(),
{
    if txs.len() == 0 {
        Seq::empty()
    } else {
        txs_bytes(txs.drop_last()) + encode_utf8(tx_input(txs[txs.len() - 1]))
    }
}

/// What a block's hash covers: its index, timestamp, previous hash and nonce, then
/// its transactions.
pub open spec fn block_bytes(b: Block) -> Seq<u8> {
    encode_utf8(decimal_text(b.index as nat)) + encode_utf8(b.timestamp@) + encode_utf8(b.previous_hash@)
        + encode_utf8(decimal_text(b.nonce as nat)) + txs_bytes(b.transactions@)
}

/// The hash a block should carry: the SHA-256 digest of its contents in lowercase
/// hexadecimal.
pub open spec fn block_digest(b: Block) -> Seq<char> {
    hex_text(sha256_digest(block_bytes(b)))
}

/// The hash the block would carry with nonce `n` in place of its own.
pub open spec fn digest_with_nonce(b: Block, n: u64) -> Seq<char> {
    block_digest(Block { nonce: n, ..b })
}

/// A block carries the hash of its contents.
pub open spec fn block_sealed(b: Block) -> bool {
    b.hash@ == block_digest(b)
}

/// Every block after the first carries the hash of its contents and the hash of the
/// block before it.
pub open spec fn chain_valid(c: Seq<Block>) -> bool {
    forall|i: int| 1 <= i < c.len() ==> block_sealed(#[trigger] c[i]) && c[i].previous_hash@ == c[i - 1].hash@
}

/// `text` starts with `n` zeros.
pub open spec fn has_zero_prefix(text: Seq<char>, n: nat) -> bool {
    n <= text.len() && forall|i: int| 0 <= i < n ==> text[i] == '0'
}

fn string_bytes(s: &String) -> (r: Vec<u8>)
    ensures
        r@ == encode_utf8(s@),
{
    let b = s.as_str().as_bytes();
    let mut out: Vec<u8> = Vec::new();
    push_bytes(&mut out, b);
    out
}

fn decimal_bytes(n: u64) -> (r: Vec<u8>)
    ensures
        r@ == encode_utf8(decimal_text(n as nat)),
{
    let mut digits: Vec<char> = Vec::new();
    push_decimal(n, &mut digits);
    assert(digits@ =~= decimal_text(n as nat));
    let s = string_from_chars(digits.as_slice());
    string_bytes(&s)
}

impl Block {
    /// The first block: index 0, no transactions, previous hash `0`, nonce 0, and
    /// the hash of its contents.
    pub fn genesis() -> (r: Block)
        ensures
            r.index == 0,
            r.transactions@.len() == 0,
            r.previous_hash@ == "0"@,
            r.nonce == 0,
            exists|n: u64| r.timestamp@ == #[trigger] decimal_text(n as nat),
            block_sealed(r),
    {
        let mut b = Block {
            index: 0,
            timestamp: now_ts(),
            transactions: Vec::new(),
            previous_hash: owned("0"),
            hash: String::new(),
            nonce: 0,
        };
        b.hash = b.calculate_hash();
        b
    }

    /// A block of transactions after the block whose hash is `previous_hash`, with
    /// nonce 0 and the hash of its contents.
    pub fn new(index: u64, transactions: Vec<Transaction>, previous_hash: String) -> (r: Block)
        ensures
            r.index == index,
            r.transactions == transactions,
            r.previous_hash == previous_hash,
            r.nonce == 0,
            exists|n: u64| r.timestamp@ == #[trigger] decimal_text(n as nat),
            block_sealed(r),
    {
        let mut b = Block { index, timestamp: now_ts(), transactions, previous_hash, hash: String::new(), nonce: 0 };
        b.hash = b.calculate_hash();
        b
    }

    /// The hash of the block's contents.
    pub fn calculate_hash(&self) -> (r: String)
        ensures
            r@ == block_digest(*self),
    {
        let mut data: Vec<u8> = Vec::new();
        let a = decimal_bytes(self.index);
        push_bytes(&mut data, a.as_slice());
        let b = string_bytes(&self.timestamp);
        push_bytes(&mut data, b.as_slice());
        let c = string_bytes(&self.previous_hash);
        push_bytes(&mut data, c.as_slice());
        let d = decimal_bytes(self.nonce);
        push_bytes(&mut data, d.as_slice());
        let ghost head = data@;
        let mut i: usize = 0;
        while i < self.transactions.len()
            invariant
                i <= self.transactions@.len(),
                data@ == head + txs_bytes(self.transactions@.take(i as int)),
            decreases self.transactions@.len() - i,
        {
            proof {
                assert(self.transactions@.take(i as int + 1).drop_last() =~= self.transactions@.take(i as int));
            }
            let input = self.transactions[i].to_hash_input();
            let e = string_bytes(&input);
            push_bytes(&mut data, e.as_slice());
            i += 1;
            assert(data@ =~= head + txs_bytes(self.transactions@.take(i as int)));
        }
        assert(self.transactions@.take(self.transactions@.len() as int) =~= self.transactions@);
        assert(data@ =~= block_bytes(*self));
        let digest = sha256_bytes(data.as_slice());
        to_lower_hex(&digest)
    }

    /// Proof of work: raises the nonce from where it is until the block's hash starts
    /// with `difficulty` zeros; the search ends without such a hash only when the
    /// nonce reaches `u64::MAX`.
    pub fn mine(&mut self, difficulty: usize)
        ensures
            final(self).index == old(self).index,
            final(self).timestamp == old(self).timestamp,
            final(self).transactions == old(self).transactions,
            final(self).previous_hash == old(self).previous_hash,
            final(self).nonce >= old(self).nonce,
            has_zero_prefix(final(self).hash@, difficulty as nat) || (final(self).nonce == u64::MAX && block_sealed(
                *final(self),
            )),
            has_zero_prefix(final(self).hash@, difficulty as nat) && final(self).nonce > old(self).nonce ==> block_sealed(
                *final(self),
            ),
            block_sealed(*old(self)) ==> block_sealed(*final(self)),
            has_zero_prefix(old(self).hash@, difficulty as nat) ==> *final(self) == *old(self),
            forall|n: u64|
                old(self).nonce < n < final(self).nonce ==> !has_zero_prefix(
                    #[trigger] digest_with_nonce(*old(self), n),
                    difficulty as nat,
                ),
    {
        let mut done = self.hash_has_zeros(difficulty);
        while !done
            invariant
                self.index == old(self).index,
                self.timestamp == old(self).timestamp,
                self.transactions == old(self).transactions,
                self.previous_hash == old(self).previous_hash,
                self.nonce >= old(self).nonce,
                self.nonce > old(self).nonce ==> block_sealed(*self),
                block_sealed(*old(self)) ==> block_sealed(*self),
                done ==> has_zero_prefix(self.hash@, difficulty as nat) || (self.nonce == u64::MAX && block_sealed(*self)),
                !done ==> !has_zero_prefix(self.hash@, difficulty as nat),
                has_zero_prefix(old(self).hash@, difficulty as nat) ==> done && *self == *old(self),
                forall|n: u64|
                    old(self).nonce < n < self.nonce ==> !has_zero_prefix(
                        #[trigger] digest_with_nonce(*old(self), n),
                        difficulty as nat,
                    ),
            decreases u64::MAX - self.nonce, if done { 0int } else { 1int },
        {
            let ghost cur = *self;
            proof {
                if self.nonce > old(self).nonce {
                    assert(block_bytes(Block { nonce: self.nonce, ..*old(self) }) == block_bytes(*self));
                    assert(digest_with_nonce(*old(self), self.nonce) == self.hash@);
                }
            }
            if self.nonce == u64::MAX {
                self.hash = self.calculate_hash();
                done = true;
            } else {
                self.nonce = self.nonce + 1;
                self.hash = self.calculate_hash();
                done = self.hash_has_zeros(difficulty);
            }
        }
    }

    /// Whether the hash starts with `n` zeros.
    fn hash_has_zeros(&self, n: usize) -> (r: bool)
        ensures
            r == has_zero_prefix(self.hash@, n as nat),
    {
        let cs = chars_of(self.hash.as_str());
        if n > cs.len() {
            return false;
        }
        let mut i: usize = 0;
        while i < n
            invariant
                cs@ == self.hash@,
                n <= cs@.len(),
                i <= n,
                forall|j: int| 0 <= j < i ==> cs@[j] == '0',
            decreases n - i,
        {
            if cs[i] != '0' {
                return false;
            }
            i += 1;
        }
        true
    }

    /// Whether the block carries the hash of its contents.
    pub fn is_valid(&self) -> (r: bool)
        ensures
            r == block_sealed(*self),
    {
        let h = self.calculate_hash();
        self.hash == h
    }
}

/// A chain of blocks and the transactions waiting for the next block.
#[derive(Debug)]
pub struct Blockchain {
    pub chain: Vec<Block>,
    pub pending: Vec<Transaction>,
}

impl Default for Blockchain {
    fn default() -> (r: Blockchain)
        ensures
            r.chain@.len() == 1,
            r.chain@[0].index == 0,
            block_sealed(r.chain@[0]),
            r.pending@.len() == 0,
            chain_valid(r.chain@),
    {
        Blockchain::new()
    }
}

impl Blockchain {
    /// A chain of just the genesis block, with nothing pending.
    pub fn new() -> (r: Blockchain)
        ensures
            r.chain@.len() == 1,
            r.chain@[0].index == 0,
            r.chain@[0].previous_hash@ == "0"@,
            block_sealed(r.chain@[0]),
            r.pending@.len() == 0,
            chain_valid(r.chain@),
    {
        let mut chain: Vec<Block> = Vec::new();
        chain.push(Block::genesis());
        Blockchain { chain, pending: Vec::new() }
    }

    /// The hash of the last block.
    pub fn latest_hash(&self) -> (r: &str)
        requires
            self.chain@.len() >= 1,
        ensures
            r@ == self.chain@[self.chain@.len() - 1].hash@,
    {
        self.chain[self.chain.len() - 1].hash.as_str()
    }

    /// The number of blocks.
    pub fn height(&self) -> (r: u64)
        ensures
            r == self.chain@.len(),
    {
        self.chain.len() as u64
    }

    /// Queues a transaction for the next block.
    pub fn add_transaction(&mut self, tx: Transaction)
        ensures
            final(self).chain == old(self).chain,
            final(self).pending@ == old(self).pending@.push(tx),
    {
        self.pending.push(tx);
    }

    /// Seals the pending transactions into a new block after the last one, and gives
    /// that block.
    pub fn seal_block(&mut self) -> (r: &Block)
        requires
            old(self).chain@.len() >= 1,
        ensures
            final(self).pending@.len() == 0,
            final(self).chain@.len() == old(self).chain@.len() + 1,
            final(self).chain@.drop_last() == old(self).chain@,
            *r == final(self).chain@.last(),
            r.index == old(self).chain@.len(),
            r.transactions == old(self).pending,
            r.previous_hash@ == old(self).chain@.last().hash@,
            r.nonce == 0,
            block_sealed(*r),
            chain_valid(old(self).chain@) ==> chain_valid(final(self).chain@),
    {
        let prev = owned(self.latest_hash());
        let index = self.height();
        let mut txs: Vec<Transaction> = Vec::new();
        std::mem::swap(&mut txs, &mut self.pending);
        let block = Block::new(index, txs, prev);
        self.chain.push(block);
        proof {
            lemma_push_sealed_block(old(self).chain@, block);
            assert(self.chain@.drop_last() =~= old(self).chain@);
        }
        let last = self.chain.len() - 1;
        &self.chain[last]
    }

    /// Seals the pending transactions into a new block after the last one, mined to
    /// `difficulty` leading zeros, and gives that block.
    pub fn mine_block(&mut self, difficulty: usize) -> (r: &Block)
        requires
            old(self).chain@.len() >= 1,
        ensures
            final(self).pending@.len() == 0,
            final(self).chain@.len() == old(self).chain@.len() + 1,
            final(self).chain@.drop_last() == old(self).chain@,
            *r == final(self).chain@.last(),
            r.index == old(self).chain@.len(),
            r.transactions == old(self).pending,
            r.previous_hash@ == old(self).chain@.last().hash@,
            has_zero_prefix(r.hash@, difficulty as nat) || r.nonce == u64::MAX,
            forall|n: u64| n < r.nonce ==> !has_zero_prefix(#[trigger] digest_with_nonce(*r, n), difficulty as nat),
            block_sealed(*r),
            chain_valid(old(self).chain@) ==> chain_valid(final(self).chain@),
    {
        let prev = owned(self.latest_hash());
        let index = self.height();
        let mut txs: Vec<Transaction> = Vec::new();
        std::mem::swap(&mut txs, &mut self.pending);
        let mut block = Block::new(index, txs, prev);
        let ghost b0 = block;
        block.mine(difficulty);
        proof {
            assert forall|n: u64| n < block.nonce implies !has_zero_prefix(
                #[trigger] digest_with_nonce(block, n),
                difficulty as nat,
            ) by {
                assert(block_bytes(Block { nonce: n, ..block }) == block_bytes(Block { nonce: n, ..b0 }));
                if n == 0 {
                    assert(Block { nonce: 0, ..b0 } == b0);
                    assert(digest_with_nonce(b0, 0) == b0.hash@);
                } else {
                    assert(digest_with_nonce(b0, n) == digest_with_nonce(block, n));
                }
            }
        }
        self.chain.push(block);
        proof {
            lemma_push_sealed_block(old(self).chain@, block);
            assert(self.chain@.drop_last() =~= old(self).chain@);
        }
        let last = self.chain.len() - 1;
        &self.chain[last]
    }

    /// Whether every block carries the hash of its contents and the hash of the
    /// block before it (the first block is not checked).
    pub fn verify(&self) -> (r: bool)
        ensures
            r == chain_valid(self.chain@),
    {
        let mut i: usize = 1;
        while i < self.chain.len()
            invariant
                1 <= i,
                forall|j: int| 1 <= j < i && j < self.chain@.len() ==> block_sealed(#[trigger] self.chain@[j])
                    && self.chain@[j].previous_hash@ == self.chain@[j - 1].hash@,
            decreases self.chain@.len() - i,
        {
            let curr = &self.chain[i];
            let prev = &self.chain[i - 1];
            if !curr.is_valid() {
                return false;
            }
            if curr.previous_hash != prev.hash {
                return false;
            }
            i += 1;
        }
        true
    }

    /// `Blockchain[height=H | latest=FIRST8...LAST8]`, with the first and last eight
    /// characters of the last block's hash.
    pub fn summary(&self) -> (r: String)
        requires
            self.chain@.len() >= 1,
            self.chain@.last().hash@.len() >= 8,
            forall|i: int| 0 <= i < self.chain@.last().hash@.len() ==> (#[trigger] self.chain@.last().hash@[i] as u32)
                < 0x80,
        ensures
            r@ == summary_text(self.chain@.len() as nat, self.chain@.last().hash@),
    {
        let h = chars_of(self.latest_hash());
        let n = h.len();
        let mut out: Vec<char> = Vec::new();
        push_str_chars(&mut out, "Blockchain[height=");
        push_decimal(self.height(), &mut out);
        push_str_chars(&mut out, " | latest=");
        let ghost mid = out@;
        let mut i: usize = 0;
        while i < 8
            invariant
                h@ == self.chain@.last().hash@,
                n == h@.len(),
                n >= 8,
                i <= 8,
                out@ == mid + h@.subrange(0, i as int),
            decreases 8 - i,
        {
            out.push(h[i]);
            i += 1;
            assert(out@ =~= mid + h@.subrange(0, i as int));
        }
        push_str_chars(&mut out, "...");
        let ghost mid2 = out@;
        let mut j: usize = n - 8;
        while j < n
            invariant
                h@ == self.chain@.last().hash@,
                n == h@.len(),
                n >= 8,
                n - 8 <= j <= n,
                out@ == mid2 + h@.subrange(n - 8, j as int),
            decreases n - j,
        {
            out.push(h[j]);
            j += 1;
            assert(out@ =~= mid2 + h@.subrange(n - 8, j as int));
        }
        push_str_chars(&mut out, "]");
        assert(out@ =~= summary_text(self.chain@.len() as nat, self.chain@.last().hash@));
        string_from_chars(out.as_slice())
    }
}

/// The summary of a chain of `height` blocks whose last hash is `h`.
pub open spec fn summary_text(height: nat, h: Seq<char>) -> Seq<char> {
    "Blockchain[height="@ + decimal_text(height) + " | latest="@ + h.subrange(0, 8) + "..."@ + h.subrange(
        h.len() - 8,
        h.len() as int,
    ) + "]"@
}

/// Adding a block that carries the hash of its contents and the hash of the last
/// block keeps a valid chain valid.
pub proof fn lemma_push_sealed_block(c: Seq<Block>, b: Block)
    requires
        c.len() >= 1,
        block_sealed(b),
        b.previous_hash@ == c[c.len() - 1].hash@,
    ensures
        chain_valid(c) ==> chain_valid(c.push(b)),
{
    if chain_valid(c) {
        let d = c.push(b);
        assert forall|i: int| 1 <= i < d.len() implies block_sealed(#[trigger] d[i]) && d[i].previous_hash@
            == d[i - 1].hash@ by {
            if i < c.len() {
                assert(d[i] == c[i]);
                assert(d[i - 1] == c[i - 1]);
            }
        }
    }
}

} // verus!
