//! The ledger: the chain of sealed blocks, the queue of pending
//! transactions and the supply accounting with its unlock schedule.

use crate::block::{
    block_hash, is_first_seal, is_sealed, meets_difficulty, same_content, search_exhausted, seal,
    Block, BlockView, LedgerError, Transaction, TransactionView,
};
use crate::outside::unix_now;
use crate::text::{hundredths_text, push_hundredths};
use vstd::prelude::*;

verus! {

/// Hundredths of a token per token: every amount is counted in hundredths.
pub const UNITS_PER_TOKEN: u64 = 100;

/// The supply fixed at construction: 100 billion tokens.
pub const TOTAL_SUPPLY: u64 = 10_000_000_000_000;

/// Seconds in a year of the unlock schedule.
pub const SECONDS_PER_YEAR: i64 = 31_536_000;

/// The reward for mining a block: one hundredth of a token.
pub const MINING_REWARD: i64 = 1;

/// Whole years from `creation` to `now`; none when `now` is not later.
pub open spec fn years_elapsed(creation: i64, now: i64) -> nat {
    if now > creation {
        ((now - creation) / (SECONDS_PER_YEAR as int)) as nat
    } else {
        0
    }
}

/// What the schedule unlocks after `years`: one percent of the total supply
/// for each whole year.
pub open spec fn unlock_amount(total: u64, years: nat) -> nat {
    (total * years / 100) as nat
}

/// What one release at `now` moves from the locked to the circulating pool.
pub open spec fn released(total: u64, locked: u64, creation: i64, now: i64) -> nat {
    let unlock = unlock_amount(total, years_elapsed(creation, now));
    if unlock > locked {
        locked as nat
    } else {
        unlock
    }
}

/// The locked pool after one release at `now`.
pub open spec fn locked_after_release(total: u64, locked: u64, creation: i64, now: i64) -> int {
    locked - released(total, locked, creation, now)
}

/// The two tracked pools hold nine tenths of the total supply, and the
/// locked pool at most the three tenths it started with.
pub open spec fn supply_balanced(total: u64, circulating: u64, locked: u64) -> bool {
    circulating + locked == total * 9 / 10 && locked <= total * 3 / 10
}

/// Each block after the first names its predecessor's hash; the first names "0".
pub open spec fn chain_linked(bs: Seq<BlockView>) -> bool {
    &&& bs.len() > 0 ==> bs[0].previous_hash == seq!['0']
    &&& forall|i: int| 0 < i < bs.len() ==> #[trigger] bs[i].previous_hash == bs[i - 1].hash
}

/// Every block is sealed and stands at the position given by its index.
pub open spec fn all_sealed(bs: Seq<BlockView>) -> bool {
    forall|i: int| 0 <= i < bs.len() ==> is_sealed(#[trigger] bs[i]) && bs[i].index == i
}

/// The transaction that pays the miner of a block.
pub open spec fn reward_transaction(reward_address: Seq<char>) -> TransactionView {
    TransactionView { sender: "system"@, recipient: reward_address, amount: MINING_REWARD }
}

/// The unsealed genesis block of a ledger created at `now`.
pub open spec fn genesis_draft(now: i64) -> BlockView {
    BlockView {
        index: 0,
        timestamp: now,
        transactions: seq![
            TransactionView { sender: "0"@, recipient: "0x"@, amount: (TOTAL_SUPPLY / 10) as i64 },
            TransactionView {
                sender: "0"@,
                recipient: "circulating"@,
                amount: (TOTAL_SUPPLY * 6 / 10) as i64,
            },
        ],
        previous_hash: "0"@,
        hash: Seq::empty(),
        nonce: 0,
    }
}

/// Appending a block sealed on top of the last one keeps the chain linked
/// and sealed.
pub proof fn lemma_append_sealed(bs: Seq<BlockView>, b: BlockView)
    requires
        bs.len() > 0,
        chain_linked(bs),
        all_sealed(bs),
        is_sealed(b),
        b.index == bs.len(),
        b.previous_hash == bs.last().hash,
    ensures
        chain_linked(bs.push(b)),
        all_sealed(bs.push(b)),
{
    let cs = bs.push(b);
    assert forall|i: int| 0 < i < cs.len() implies #[trigger] cs[i].previous_hash
        == cs[i - 1].hash by {
        if i < bs.len() {
            assert(cs[i] == bs[i]);
            assert(cs[i - 1] == bs[i - 1]);
        }
    }
    assert forall|i: int| 0 <= i < cs.len() implies is_sealed(#[trigger] cs[i]) && cs[i].index
        == i by {
        if i < bs.len() {
            assert(cs[i] == bs[i]);
        }
    }
}

/// The supply report of a ledger.
pub open spec fn state_text(total: u64, circulating: u64, locked: u64, creator: Seq<char>) -> Seq<char> {
    "Total Supply: "@ + hundredths_text(total as nat) + "\nCirculating Supply: "@
        + hundredths_text(circulating as nat) + "\nLocked Supply: "@ + hundredths_text(
        locked as nat,
    ) + "\nCreator Address: "@ + creator + "\n"@
}

/// From thirty whole years after creation on, one release empties the
/// locked pool.
pub proof fn lemma_locked_supply_drains(total: u64, locked: u64, creation: i64, now: i64)
    requires
        locked <= total * 3 / 10,
        now - creation >= 30 * SECONDS_PER_YEAR,
    ensures
        locked_after_release(total, locked, creation, now) == 0,
{
    let years = years_elapsed(creation, now);
    assert(years >= 30) by {
        assert((now - creation) / (SECONDS_PER_YEAR as int) >= (30 * SECONDS_PER_YEAR) / (
        SECONDS_PER_YEAR as int)) by (nonlinear_arith)
            requires
                now - creation >= 30 * SECONDS_PER_YEAR,
        ;
    }
    assert(total * years / 100 >= total * 3 / 10) by (nonlinear_arith)
        requires
            years >= 30,
            total >= 0,
    ;
}

/// A release never drives the locked pool below zero nor raises it, and an
/// empty locked pool stays empty.
pub proof fn lemma_release_bounded(total: u64, locked: u64, creation: i64, now: i64)
    ensures
        0 <= locked_after_release(total, locked, creation, now) <= locked,
        locked == 0 ==> locked_after_release(total, locked, creation, now) == 0,
{
}

/// The ledger.
pub struct Blockchain {
    pub blocks: Vec<Block>,
    pub pending_transactions: Vec<Transaction>,
    pub total_supply: u64,
    pub circulating_supply: u64,
    pub locked_supply: u64,
    pub creator_address: String,
    pub creation_time: i64,
}

impl Blockchain {
    pub open spec fn blocks_view(&self) -> Seq<BlockView> {
        self.blocks@.map_values(|b: Block| b@)
    }

    pub open spec fn pending_view(&self) -> Seq<TransactionView> {
        self.pending_transactions@.map_values(|t: Transaction| t@)
    }

    /// The ledger's invariant.
    pub open spec fn wf(&self) -> bool {
        &&& self.blocks@.len() > 0
        &&& chain_linked(self.blocks_view())
        &&& all_sealed(self.blocks_view())
        &&& supply_balanced(self.total_supply, self.circulating_supply, self.locked_supply)
    }

    /// The unsealed block that mining at `now` with `reward_address` seals.
    pub open spec fn mining_draft(&self, reward_address: Seq<char>, now: i64) -> BlockView {
        BlockView {
            index: self.blocks@.len() as u64,
            timestamp: now,
            transactions: self.pending_view().push(reward_transaction(reward_address)),
            previous_hash: self.blocks_view().last().hash,
            hash: Seq::empty(),
            nonce: 0,
        }
    }

    /// Only the supply pools differ between `self` and `other`.
    pub open spec fn same_but_supply(&self, other: &Blockchain) -> bool {
        &&& self.blocks == other.blocks
        &&& self.pending_transactions == other.pending_transactions
        &&& self.total_supply == other.total_supply
        &&& self.creator_address == other.creator_address
        &&& self.creation_time == other.creation_time
    }

    /// `self` is `before` after one release at `now`.
    pub open spec fn released_from(&self, before: &Blockchain, now: i64) -> bool {
        let r = released(before.total_supply, before.locked_supply, before.creation_time, now);
        &&& self.same_but_supply(before)
        &&& self.locked_supply == before.locked_supply - r
        &&& self.circulating_supply == before.circulating_supply + r
    }

    /// Every block after the first names the hash of the block before it and
    /// the first names "0"; every block's stored hash is the hash of its own
    /// fields and nonce and starts with the difficulty's zeros.
    pub proof fn lemma_chain_sealed(&self)
        requires
            self.wf(),
        ensures
            self.blocks@[0].previous_hash@ == "0"@,
            forall|i: int|
                0 < i < self.blocks@.len() ==> (#[trigger] self.blocks@[i]).previous_hash@
                    == self.blocks@[i - 1].hash@,
            forall|i: int|
                0 <= i < self.blocks@.len() ==> (#[trigger] self.blocks@[i]).hash@ == block_hash(
                    self.blocks@[i]@,
                    self.blocks@[i].nonce,
                ) && meets_difficulty(self.blocks@[i].hash@),
    {
        let bs = self.blocks_view();
        reveal_strlit("0");
        assert(bs[0].previous_hash =~= "0"@);
        assert forall|i: int| 0 < i < self.blocks@.len() implies (
        #[trigger] self.blocks@[i]).previous_hash@ == self.blocks@[i - 1].hash@ by {
            assert(bs[i].previous_hash == bs[i - 1].hash);
        }
        assert forall|i: int| 0 <= i < self.blocks@.len() implies (
        #[trigger] self.blocks@[i]).hash@ == block_hash(self.blocks@[i]@, self.blocks@[i].nonce)
            && meets_difficulty(self.blocks@[i].hash@) by {
            assert(is_sealed(bs[i]));
        }
    }

    /// A copy of the chain, block for block.
    pub fn list_blocks(&self) -> (r: Vec<Block>)
        ensures
            r@.map_values(|b: Block| b@) == self.blocks_view(),
    {
        let mut r: Vec<Block> = Vec::new();
        let mut i: usize = 0;
        while i < self.blocks.len()
            invariant
                i <= self.blocks@.len(),
                r@.len() == i,
                forall|j: int| 0 <= j < i ==> (#[trigger] r@[j])@ == self.blocks@[j]@,
            decreases self.blocks@.len() - i,
        {
            r.push(self.blocks[i].duplicate());
            i = i + 1;
        }
        assert(r@.map_values(|b: Block| b@) =~= self.blocks_view());
        r
    }

    /// The supply report: total, circulating and locked supply in tokens,
    /// then the creator's address, one per line.
    pub fn get_state(&self) -> (r: String)
        ensures
            r@ == state_text(
                self.total_supply,
                self.circulating_supply,
                self.locked_supply,
                self.creator_address@,
            ),
    {
        let mut out = String::from_str("Total Supply: ");
        push_hundredths(&mut out, self.total_supply);
        out.append("\nCirculating Supply: ");
        push_hundredths(&mut out, self.circulating_supply);
        out.append("\nLocked Supply: ");
        push_hundredths(&mut out, self.locked_supply);
        out.append("\nCreator Address: ");
        out.append(self.creator_address.as_str());
        out.append("\n");
        out
    }

    /// A ledger created at `now`: its genesis block gives the creator a tenth
    /// of the total supply and the circulating pool six tenths; three tenths
    /// start locked. Fails only when no nonce seals the genesis block.
    pub fn new_at(now: i64) -> (r: Result<Blockchain, LedgerError>)
        ensures
            r is Err <==> search_exhausted(genesis_draft(now)),
            r matches Err(e) ==> e == LedgerError::SearchExhausted,
            r matches Ok(c) ==> {
                &&& c.wf()
                &&& c.blocks@.len() == 1
                &&& same_content(c.blocks_view()[0], genesis_draft(now))
                &&& is_first_seal(c.blocks_view()[0])
                &&& c.pending_transactions@.len() == 0
                &&& c.total_supply == TOTAL_SUPPLY
                &&& c.locked_supply == TOTAL_SUPPLY * 3 / 10
                &&& c.circulating_supply == TOTAL_SUPPLY * 6 / 10
                &&& c.creator_address@ == "0x"@
                &&& c.creation_time == now
            },
    {
        let total_supply = TOTAL_SUPPLY;
        let locked_supply = total_supply / 10 * 3;
        let creator_supply = total_supply / 10;
        let circulating_supply = total_supply - locked_supply - creator_supply;
        let creator_address = String::from_str("0x");
        let transactions = vec![
            Transaction {
                sender: String::from_str("0"),
                recipient: creator_address.clone(),
                amount: creator_supply as i64,
            },
            Transaction {
                sender: String::from_str("0"),
                recipient: String::from_str("circulating"),
                amount: circulating_supply as i64,
            },
        ];
        let mut genesis = Block {
            index: 0,
            timestamp: now,
            transactions,
            previous_hash: String::from_str("0"),
            hash: String::new(),
            nonce: 0,
        };
        assert(genesis@.transactions =~= genesis_draft(now).transactions);
        assert(same_content(genesis@, genesis_draft(now)));
        match seal(&mut genesis) {
            Ok(()) => {
                let blocks = vec![genesis];
                let chain = Blockchain {
                    blocks,
                    pending_transactions: Vec::new(),
                    total_supply,
                    circulating_supply,
                    locked_supply,
                    creator_address,
                    creation_time: now,
                };
                assert(chain.blocks_view() =~= seq![genesis@]);
                proof {
                    reveal_strlit("0");
                }
                assert(chain.blocks_view()[0].previous_hash =~= seq!['0']);
                Ok(chain)
            },
            Err(e) => Err(e),
        }
    }

    /// A ledger created at the current time, as `new_at` describes it.
    pub fn new() -> (r: Result<Blockchain, LedgerError>)
        ensures
            r matches Err(e) ==> e == LedgerError::SearchExhausted && exists|t: i64|
                search_exhausted(#[trigger] genesis_draft(t)),
            r matches Ok(c) ==> {
                &&& c.wf()
                &&& c.blocks@.len() == 1
                &&& same_content(c.blocks_view()[0], genesis_draft(c.creation_time))
                &&& is_first_seal(c.blocks_view()[0])
                &&& c.pending_transactions@.len() == 0
                &&& c.total_supply == TOTAL_SUPPLY
                &&& c.locked_supply == TOTAL_SUPPLY * 3 / 10
                &&& c.circulating_supply == TOTAL_SUPPLY * 6 / 10
                &&& c.creator_address@ == "0x"@
            },
    {
        let now = unix_now();
        let r = Blockchain::new_at(now);
        assert(r is Err ==> search_exhausted(genesis_draft(now)));
        r
    }

    /// The chain already holds as many blocks as a block index can count.
    pub open spec fn is_full(&self) -> bool {
        self.blocks@.len() >= u64::MAX
    }

    /// The supply pools of `self` are those of `before` after one release at `now`.
    pub open spec fn supply_moved(&self, before: &Blockchain, now: i64) -> bool {
        let r = released(before.total_supply, before.locked_supply, before.creation_time, now);
        &&& self.locked_supply == before.locked_supply - r
        &&& self.circulating_supply == before.circulating_supply + r
    }

    /// `self` is `before` after a mining cycle at `now` that sealed its block:
    /// the supply released, the sealed draft appended, the queue emptied.
    pub open spec fn mined_from(&self, before: &Blockchain, reward_address: Seq<char>, now: i64) -> bool {
        &&& self.supply_moved(before, now)
        &&& self.pending_transactions@.len() == 0
        &&& self.blocks@.len() == before.blocks@.len() + 1
        &&& self.blocks_view().drop_last() == before.blocks_view()
        &&& same_content(self.blocks_view().last(), before.mining_draft(reward_address, now))
        &&& is_first_seal(self.blocks_view().last())
    }

    /// `self` is `before` after a mining cycle at `now` whose search found no
    /// nonce: the supply released, the chain and the queue as they were.
    pub open spec fn unsealed_from(&self, before: &Blockchain, reward_address: Seq<char>, now: i64) -> bool {
        &&& self.supply_moved(before, now)
        &&& self.blocks == before.blocks
        &&& self.pending_view() == before.pending_view()
        &&& search_exhausted(before.mining_draft(reward_address, now))
    }

    /// Moves what the schedule unlocks at `now` from the locked pool to the
    /// circulating pool, never more than is locked.
    pub fn release_locked_supply_at(&mut self, now: i64)
        requires
            old(self).wf(),
        ensures
            final(self).wf(),
            final(self).released_from(old(self), now),
            final(self).locked_supply as int == locked_after_release(
                old(self).total_supply,
                old(self).locked_supply,
                old(self).creation_time,
                now,
            ),
    {
        let years: u64 = if now > self.creation_time {
            ((now as i128 - self.creation_time as i128) / (SECONDS_PER_YEAR as i128)) as u64
        } else {
            0
        };
        assert(years == years_elapsed(self.creation_time, now));
        let total = self.total_supply as u128;
        assert(years <= u64::MAX / 31_536_000) by {
            if now > self.creation_time {
                assert((now - self.creation_time) <= u64::MAX);
            }
        }
        assert(total * (years as u128) <= (u64::MAX as u128) * ((u64::MAX / 31_536_000) as u128))
            by (nonlinear_arith)
            requires
                total <= u64::MAX,
                years <= u64::MAX / 31_536_000,
        ;
        let unlock: u128 = total * (years as u128) / 100;
        if unlock > self.locked_supply as u128 {
            self.circulating_supply = self.circulating_supply + self.locked_supply;
            self.locked_supply = 0;
        } else {
            let amount = unlock as u64;
            self.circulating_supply = self.circulating_supply + amount;
            self.locked_supply = self.locked_supply - amount;
        }
    }

    /// Moves what the schedule unlocks now from the locked pool to the
    /// circulating pool.
    pub fn release_locked_supply(&mut self)
        requires
            old(self).wf(),
        ensures
            final(self).wf(),
            exists|t: i64| #[trigger] final(self).released_from(old(self), t),
    {
        let now = unix_now();
        self.release_locked_supply_at(now);
        assert(self.released_from(old(self), now));
    }

    /// Adds `transaction` to the pending queue, unchecked.
    pub fn create_transaction(&mut self, transaction: Transaction)
        requires
            old(self).wf(),
        ensures
            final(self).wf(),
            final(self).pending_transactions@ == old(self).pending_transactions@.push(transaction),
            final(self).blocks == old(self).blocks,
            final(self).total_supply == old(self).total_supply,
            final(self).circulating_supply == old(self).circulating_supply,
            final(self).locked_supply == old(self).locked_supply,
            final(self).creator_address == old(self).creator_address,
            final(self).creation_time == old(self).creation_time,
    {
        self.pending_transactions.push(transaction);
    }

    /// One mining cycle at time `now`: releases unlocked supply, then seals a
    /// block of the pending transactions followed by the reward for
    /// `reward_address`, appends it and empties the queue. When no nonce
    /// seals the block, the chain and the queue are left as they were; when
    /// the chain is full, nothing is done.
    pub fn mine_pending_transactions_at(&mut self, reward_address: String, now: i64) -> (r: Result<
        (),
        LedgerError,
    >)
        requires
            old(self).wf(),
        ensures
            final(self).wf(),
            final(self).total_supply == old(self).total_supply,
            final(self).creator_address == old(self).creator_address,
            final(self).creation_time == old(self).creation_time,
            r == Err::<(), LedgerError>(LedgerError::ChainFull) <==> old(self).is_full(),
            old(self).is_full() ==> *final(self) == *old(self),
            r == Err::<(), LedgerError>(LedgerError::SearchExhausted) <==> !old(self).is_full()
                && search_exhausted(old(self).mining_draft(reward_address@, now)),
            r == Err::<(), LedgerError>(LedgerError::SearchExhausted) ==> final(self).unsealed_from(
                old(self),
                reward_address@,
                now,
            ),
            r is Ok ==> final(self).mined_from(old(self), reward_address@, now),
    {
        if self.blocks.len() as u128 >= u64::MAX as u128 {
            return Err(LedgerError::ChainFull);
        }
        let ghost before = *self;
        self.release_locked_supply_at(now);
        assert(self.mining_draft(reward_address@, now) == before.mining_draft(reward_address@, now));
        let index = self.blocks.len() as u64;
        let previous_hash = self.blocks[self.blocks.len() - 1].hash.clone();
        let mut transactions: Vec<Transaction> = Vec::new();
        std::mem::swap(&mut transactions, &mut self.pending_transactions);
        transactions.push(
            Transaction {
                sender: String::from_str("system"),
                recipient: reward_address,
                amount: MINING_REWARD,
            },
        );
        let mut block = Block {
            index,
            timestamp: now,
            transactions,
            previous_hash,
            hash: String::new(),
            nonce: 0,
        };
        assert(block@.transactions =~= before.pending_view().push(
            reward_transaction(reward_address@),
        ));
        assert(same_content(block@, before.mining_draft(reward_address@, now)));
        match seal(&mut block) {
            Ok(()) => {
                proof {
                    lemma_append_sealed(before.blocks_view(), block@);
                }
                self.blocks.push(block);
                assert(self.blocks_view() =~= before.blocks_view().push(block@));
                assert(self.blocks_view().drop_last() =~= before.blocks_view());
                Ok(())
            },
            Err(e) => {
                let mut restored = block.transactions;
                restored.pop();
                self.pending_transactions = restored;
                assert(self.pending_view() =~= block@.transactions.drop_last());
                assert(self.pending_view() =~= before.pending_view());
                Err(e)
            },
        }
    }

    /// One mining cycle at the current time, as `mine_pending_transactions_at`
    /// describes it.
    pub fn mine_pending_transactions(&mut self, reward_address: String) -> (r: Result<
        (),
        LedgerError,
    >)
        requires
            old(self).wf(),
        ensures
            final(self).wf(),
            final(self).total_supply == old(self).total_supply,
            final(self).creator_address == old(self).creator_address,
            final(self).creation_time == old(self).creation_time,
            r == Err::<(), LedgerError>(LedgerError::ChainFull) <==> old(self).is_full(),
            old(self).is_full() ==> *final(self) == *old(self),
            r == Err::<(), LedgerError>(LedgerError::SearchExhausted) ==> exists|t: i64|
                #[trigger] final(self).unsealed_from(old(self), reward_address@, t),
            r is Ok ==> exists|t: i64| #[trigger] final(self).mined_from(old(self), reward_address@, t),
    {
        let now = unix_now();
        let ghost reward = reward_address@;
        let r = self.mine_pending_transactions_at(reward_address, now);
        assert(r is Ok ==> self.mined_from(old(self), reward, now));
        assert(r == Err::<(), LedgerError>(LedgerError::SearchExhausted) ==> self.unsealed_from(
            old(self),
            reward,
            now,
        ));
        r
    }
}

} // verus!
