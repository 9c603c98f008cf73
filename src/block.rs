//! Transactions, blocks, the canonical hash of a block and the
//! proof-of-work search that seals it.

use crate::outside::{sha256, sha256_of};
use crate::text::{decimal, hex_of, push_decimal, push_signed_decimal, signed_decimal, to_hex};
use vstd::prelude::*;

verus! {

/// Number of leading '0' hex characters a sealed block's hash starts with.
pub const DIFFICULTY: usize = 4;

/// A transfer of `amount` hundredths of a token from `sender` to `recipient`.
/// Nothing about the fields is checked: any values are recorded as given.
#[derive(Clone, Debug)]
pub struct Transaction {
    pub sender: String,
    pub recipient: String,
    pub amount: i64,
}

pub struct TransactionView {
    pub sender: Seq<char>,
    pub recipient: Seq<char>,
    pub amount: i64,
}

impl View for Transaction {
    type V = TransactionView;

    open spec fn view(&self) -> TransactionView {
        TransactionView { sender: self.sender@, recipient: self.recipient@, amount: self.amount }
    }
}

/// A block of the chain. `hash` and `nonce` are meaningful once the block
/// has been sealed.
#[derive(Clone, Debug)]
pub struct Block {
    pub index: u64,
    pub timestamp: i64,
    pub transactions: Vec<Transaction>,
    pub previous_hash: String,
    pub hash: String,
    pub nonce: u64,
}

pub struct BlockView {
    pub index: u64,
    pub timestamp: i64,
    pub transactions: Seq<TransactionView>,
    pub previous_hash: Seq<char>,
    pub hash: Seq<char>,
    pub nonce: u64,
}

impl View for Block {
    type V = BlockView;

    open spec fn view(&self) -> BlockView {
        BlockView {
            index: self.index,
            timestamp: self.timestamp,
            transactions: self.transactions@.map_values(|t: Transaction| t@),
            previous_hash: self.previous_hash@,
            hash: self.hash@,
            nonce: self.nonce,
        }
    }
}

/// One transaction as hashed: both identifiers length-prefixed, then the amount.
pub open spec fn transaction_text(t: TransactionView) -> Seq<char> {
    decimal(t.sender.len()) + seq![':'] + t.sender + decimal(t.recipient.len()) + seq![':']
        + t.recipient + signed_decimal(t.amount as int) + seq![';']
}

/// The transactions in order, each rendered by `transaction_text`.
pub open spec fn transactions_text(ts: Seq<TransactionView>) -> Seq<char>
    decreases ts.len(),
{
    if ts.len() == 0 {
        Seq::empty()
    } else {
        transactions_text(ts.drop_last()) + transaction_text(ts.last())
    }
}

/// The text that is digested to give a block's hash for a given nonce.
pub open spec fn canonical_text(b: BlockView, nonce: u64) -> Seq<char> {
    decimal(b.index as nat) + signed_decimal(b.timestamp as int) + seq!['[']
        + transactions_text(b.transactions) + seq![']'] + b.previous_hash + decimal(nonce as nat)
}

/// The hash of block `b` when its nonce is `nonce`: the SHA-256 digest of the
/// UTF-8 encoding of its canonical text, in lowercase hex.
pub open spec fn block_hash(b: BlockView, nonce: u64) -> Seq<char> {
    hex_of(sha256_of(vstd::utf8::encode_utf8(canonical_text(b, nonce))))
}

/// The difficulty predicate: the hash begins with `DIFFICULTY` '0' characters.
pub open spec fn meets_difficulty(hash: Seq<char>) -> bool {
    hash.len() >= DIFFICULTY && forall|i: int| 0 <= i < DIFFICULTY ==> hash[i] == '0'
}

/// A sealed block: its stored hash is the hash of its own fields and nonce,
/// and meets the difficulty.
pub open spec fn is_sealed(b: BlockView) -> bool {
    b.hash == block_hash(b, b.nonce) && meets_difficulty(b.hash)
}

/// Sealed with the smallest nonce that meets the difficulty.
pub open spec fn is_first_seal(b: BlockView) -> bool {
    is_sealed(b) && forall|n: u64| n < b.nonce ==> !meets_difficulty(#[trigger] block_hash(b, n))
}

/// No nonce of 64 bits gives `b` a hash that meets the difficulty.
pub open spec fn search_exhausted(b: BlockView) -> bool {
    forall|n: u64| !meets_difficulty(#[trigger] block_hash(b, n))
}

/// `s` is `b` with only its hash and nonce possibly changed.
pub open spec fn same_content(s: BlockView, b: BlockView) -> bool {
    s.index == b.index && s.timestamp == b.timestamp && s.transactions == b.transactions
        && s.previous_hash == b.previous_hash
}

/// Why sealing can fail.
#[derive(Clone, Copy, Debug, PartialEq, Eq, Structural)]
pub enum LedgerError {
    /// Every nonce was tried and none gave a hash that meets the difficulty.
    SearchExhausted,
    /// The chain holds as many blocks as a block index can count.
    ChainFull,
}

pub proof fn lemma_hex_len(bytes: Seq<u8>)
    ensures
        hex_of(bytes).len() == 2 * bytes.len(),
    decreases bytes.len(),
{
    if bytes.len() > 0 {
        lemma_hex_len(bytes.drop_last());
    }
}

fn push_literal_char(out: &mut String, s: &str, Ghost(c): Ghost<char>)
    requires
        s@.len() == 1,
        s@[0] == c,
    ensures
        final(out)@ == old(out)@ + seq![c],
{
    assert(s@ =~= seq![c]);
    out.append(s);
}

impl Transaction {
    /// A copy of this transaction.
    pub fn duplicate(&self) -> (r: Transaction)
        ensures
            r@ == self@,
    {
        Transaction {
            sender: self.sender.clone(),
            recipient: self.recipient.clone(),
            amount: self.amount,
        }
    }

    /// Appends this transaction's canonical text to `out`.
    pub fn push_text(&self, out: &mut String)
        ensures
            final(out)@ == old(out)@ + transaction_text(self@),
    {
        proof {
            reveal_strlit(":");
            reveal_strlit(";");
        }
        push_decimal(out, self.sender.as_str().unicode_len() as u64);
        push_literal_char(out, ":", Ghost(':'));
        out.append(self.sender.as_str());
        push_decimal(out, self.recipient.as_str().unicode_len() as u64);
        push_literal_char(out, ":", Ghost(':'));
        out.append(self.recipient.as_str());
        push_signed_decimal(out, self.amount);
        push_literal_char(out, ";", Ghost(';'));
        assert(final(out)@ =~= old(out)@ + transaction_text(self@));
    }
}

impl Block {
    /// A copy of this block.
    pub fn duplicate(&self) -> (r: Block)
        ensures
            r@ == self@,
    {
        let mut transactions: Vec<Transaction> = Vec::new();
        let mut i: usize = 0;
        while i < self.transactions.len()
            invariant
                i <= self.transactions@.len(),
                transactions@.len() == i,
                forall|j: int| 0 <= j < i ==> (#[trigger] transactions@[j])@ == self.transactions@[j]@,
            decreases self.transactions@.len() - i,
        {
            transactions.push(self.transactions[i].duplicate());
            i = i + 1;
        }
        assert(transactions@.map_values(|t: Transaction| t@) =~= self@.transactions);
        Block {
            index: self.index,
            timestamp: self.timestamp,
            transactions,
            previous_hash: self.previous_hash.clone(),
            hash: self.hash.clone(),
            nonce: self.nonce,
        }
    }

    /// The canonical text of this block with the given nonce.
    pub fn canonical_text(&self, nonce: u64) -> (r: String)
        ensures
            r@ == canonical_text(self@, nonce),
    {
        proof {
            reveal_strlit("[");
            reveal_strlit("]");
        }
        let mut out = String::new();
        push_decimal(&mut out, self.index);
        push_signed_decimal(&mut out, self.timestamp);
        push_literal_char(&mut out, "[", Ghost('['));
        let ghost start = out@;
        let mut i: usize = 0;
        while i < self.transactions.len()
            invariant
                i <= self.transactions@.len(),
                out@ == start + transactions_text(self@.transactions.subrange(0, i as int)),
            decreases self.transactions@.len() - i,
        {
            self.transactions[i].push_text(&mut out);
            proof {
                let ts = self@.transactions.subrange(0, i + 1);
                assert(ts.drop_last() =~= self@.transactions.subrange(0, i as int));
                assert(ts.last() == self.transactions@[i as int]@);
            }
            i = i + 1;
            assert(out@ =~= start + transactions_text(self@.transactions.subrange(0, i as int)));
        }
        assert(self@.transactions.subrange(0, i as int) =~= self@.transactions);
        push_literal_char(&mut out, "]", Ghost(']'));
        out.append(self.previous_hash.as_str());
        push_decimal(&mut out, nonce);
        assert(out@ =~= canonical_text(self@, nonce));
        out
    }

    /// The hash this block would have with the given nonce.
    pub fn hash_with(&self, nonce: u64) -> (r: String)
        ensures
            r@ == block_hash(self@, nonce),
            r@.len() == 64,
    {
        let text = self.canonical_text(nonce);
        let digest = sha256(text.as_str().as_bytes());
        proof {
            lemma_hex_len(digest@);
        }
        to_hex(digest.as_slice())
    }
}

/// Whether `hash` meets the difficulty.
pub fn check_difficulty(hash: &String) -> (r: bool)
    ensures
        r == meets_difficulty(hash@),
{
    let len = hash.as_str().unicode_len();
    if len < DIFFICULTY {
        return false;
    }
    let mut i: usize = 0;
    while i < DIFFICULTY
        invariant
            i <= DIFFICULTY,
            len == hash@.len(),
            len >= DIFFICULTY,
            forall|j: int| 0 <= j < i ==> hash@[j] == '0',
        decreases DIFFICULTY - i,
    {
        if hash.as_str().get_char(i) != '0' {
            return false;
        }
        i = i + 1;
    }
    true
}

/// Seals `block` in place: tries nonces from 0 upwards until the block's
/// hash meets the difficulty, and stores that nonce and hash. Fails only
/// when no nonce of 64 bits does; the content is kept either way.
pub fn seal(block: &mut Block) -> (r: Result<(), LedgerError>)
    ensures
        same_content(final(block)@, old(block)@),
        r is Err <==> search_exhausted(old(block)@),
        r is Err ==> r == Err::<(), LedgerError>(LedgerError::SearchExhausted),
        r is Ok ==> is_first_seal(final(block)@),
{
    let ghost start = block@;
    block.nonce = 0;
    loop
        invariant
            start == old(block)@,
            same_content(block@, start),
            forall|n: u64| n < block.nonce ==> !meets_difficulty(#[trigger] block_hash(start, n)),
        decreases u64::MAX - block.nonce,
    {
        let hash = block.hash_with(block.nonce);
        assert(block_hash(block@, block.nonce) == block_hash(start, block.nonce));
        if check_difficulty(&hash) {
            assert(meets_difficulty(block_hash(start, block.nonce)));
            block.hash = hash;
            assert forall|n: u64| n < block.nonce implies !meets_difficulty(
                #[trigger] block_hash(block@, n),
            ) by {
                assert(block_hash(block@, n) == block_hash(start, n));
            }
            return Ok(());
        }
        if block.nonce == u64::MAX {
            assert forall|n: u64| !meets_difficulty(#[trigger] block_hash(start, n)) by {
                if n == block.nonce {
                    assert(block_hash(block@, n) == block_hash(start, n));
                }
            }
            return Err(LedgerError::SearchExhausted);
        }
        block.nonce = block.nonce + 1;
    }
}

/// Returns `draft` sealed as `seal` does it.
pub fn calculate_hash(draft: Block) -> (r: Result<Block, LedgerError>)
    ensures
        r is Err <==> search_exhausted(draft@),
        r matches Err(e) ==> e == LedgerError::SearchExhausted,
        r matches Ok(s) ==> same_content(s@, draft@) && is_first_seal(s@),
{
    let mut block = draft;
    match seal(&mut block) {
        Ok(()) => Ok(block),
        Err(e) => Err(e),
    }
}

} // verus!
