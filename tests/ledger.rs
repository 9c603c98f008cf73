use sigil::{
    calculate_hash, check_difficulty, Block, Blockchain, Transaction, MINING_REWARD,
    SECONDS_PER_YEAR, TOTAL_SUPPLY, UNITS_PER_TOKEN,
};

const TOKEN: i64 = UNITS_PER_TOKEN as i64;

fn tx(sender: &str, recipient: &str, amount: i64) -> Transaction {
    Transaction { sender: sender.to_string(), recipient: recipient.to_string(), amount }
}

fn same_tx(a: &Transaction, b: &Transaction) -> bool {
    a.sender == b.sender && a.recipient == b.recipient && a.amount == b.amount
}

const CREATED: i64 = 1_700_000_000;

fn fresh() -> Blockchain {
    Blockchain::new_at(CREATED).expect("genesis sealed")
}

#[test]
fn scenario_a_fresh_ledger() {
    let chain = Blockchain::new().expect("genesis sealed");
    assert_eq!(chain.blocks.len(), 1);
    let genesis = &chain.blocks[0];
    assert_eq!(genesis.index, 0);
    assert_eq!(genesis.previous_hash, "0");
    assert_eq!(genesis.transactions.len(), 2);
    assert!(same_tx(&genesis.transactions[0], &tx("0", "0x", 10_000_000_000 * TOKEN)));
    assert!(same_tx(&genesis.transactions[1], &tx("0", "circulating", 60_000_000_000 * TOKEN)));
    assert_eq!(chain.total_supply, 100_000_000_000 * UNITS_PER_TOKEN);
    assert_eq!(chain.locked_supply, 30_000_000_000 * UNITS_PER_TOKEN);
    assert_eq!(chain.circulating_supply, 60_000_000_000 * UNITS_PER_TOKEN);
    assert_eq!(chain.creator_address, "0x");
    assert!(chain.pending_transactions.is_empty());
}

#[test]
fn scenario_b_submit_and_mine() {
    let mut chain = fresh();
    chain.create_transaction(tx("Alice", "Bob", 10 * TOKEN));
    chain.mine_pending_transactions("Miner1".to_string()).expect("block sealed");
    assert_eq!(chain.blocks.len(), 2);
    let mined = &chain.blocks[1].transactions;
    assert_eq!(mined.len(), 2);
    assert!(same_tx(&mined[0], &tx("Alice", "Bob", 1000)));
    assert!(same_tx(&mined[1], &tx("system", "Miner1", 1)));
    assert_eq!(MINING_REWARD, 1);
    assert!(chain.pending_transactions.is_empty());
}

#[test]
fn blocks_are_linked_by_hash() {
    let mut chain = fresh();
    chain.mine_pending_transactions_at("m".to_string(), CREATED + 10).unwrap();
    chain.create_transaction(tx("a", "b", 5));
    chain.mine_pending_transactions_at("m".to_string(), CREATED + 20).unwrap();
    assert_eq!(chain.blocks.len(), 3);
    assert_eq!(chain.blocks[0].previous_hash, "0");
    for i in 1..chain.blocks.len() {
        assert_eq!(chain.blocks[i].previous_hash, chain.blocks[i - 1].hash);
        assert_eq!(chain.blocks[i].index, i as u64);
    }
}

#[test]
fn stored_hash_recomputes_and_meets_difficulty() {
    let mut chain = fresh();
    chain.create_transaction(tx("x", "y", -3));
    chain.mine_pending_transactions_at("m".to_string(), CREATED + 5).unwrap();
    for block in &chain.blocks {
        assert_eq!(block.hash_with(block.nonce), block.hash);
        assert_eq!(block.hash.len(), 64);
        assert!(block.hash.starts_with("0000"));
    }
}

#[test]
fn mining_seals_with_first_qualifying_nonce() {
    let chain = fresh();
    let genesis = &chain.blocks[0];
    for n in 0..genesis.nonce.min(200) {
        assert!(!genesis.hash_with(n).starts_with("0000"));
    }
}

#[test]
fn supply_stays_balanced() {
    let mut chain = fresh();
    let pools = TOTAL_SUPPLY / 10 * 9;
    for years in [0i64, 1, 2, 5, 29, 30, 31, 100] {
        chain.release_locked_supply_at(CREATED + years * SECONDS_PER_YEAR);
        assert_eq!(chain.circulating_supply + chain.locked_supply, pools);
    }
    chain.release_locked_supply();
    assert_eq!(chain.circulating_supply + chain.locked_supply, pools);
}

#[test]
fn release_moves_one_percent_per_year() {
    let mut chain = fresh();
    chain.release_locked_supply_at(CREATED + SECONDS_PER_YEAR - 1);
    assert_eq!(chain.locked_supply, 3_000_000_000_000);
    chain.release_locked_supply_at(CREATED + SECONDS_PER_YEAR);
    assert_eq!(chain.locked_supply, 3_000_000_000_000 - 100_000_000_000);
    assert_eq!(chain.circulating_supply, 6_000_000_000_000 + 100_000_000_000);
    // The amount is recomputed from the elapsed years at every call.
    chain.release_locked_supply_at(CREATED + SECONDS_PER_YEAR + 10);
    assert_eq!(chain.locked_supply, 3_000_000_000_000 - 200_000_000_000);
}

#[test]
fn locked_supply_drains_and_stays_empty() {
    let mut chain = fresh();
    chain.release_locked_supply_at(CREATED + 30 * SECONDS_PER_YEAR);
    assert_eq!(chain.locked_supply, 0);
    assert_eq!(chain.circulating_supply, TOTAL_SUPPLY / 10 * 9);
    chain.release_locked_supply_at(CREATED + 1000 * SECONDS_PER_YEAR);
    assert_eq!(chain.locked_supply, 0);
    chain.release_locked_supply_at(CREATED + 2 * SECONDS_PER_YEAR);
    assert_eq!(chain.locked_supply, 0);
}

#[test]
fn release_before_creation_is_a_no_op() {
    let mut chain = fresh();
    chain.release_locked_supply_at(CREATED - 5 * SECONDS_PER_YEAR);
    assert_eq!(chain.locked_supply, 3_000_000_000_000);
    assert_eq!(chain.circulating_supply, 6_000_000_000_000);
}

#[test]
fn mining_grows_chain_by_one_and_empties_queue() {
    let mut chain = fresh();
    chain.mine_pending_transactions_at("r".to_string(), CREATED).unwrap();
    assert_eq!(chain.blocks.len(), 2);
    assert_eq!(chain.blocks[1].transactions.len(), 1);
    assert!(same_tx(&chain.blocks[1].transactions[0], &tx("system", "r", 1)));
    chain.create_transaction(tx("a", "b", 1));
    chain.create_transaction(tx("c", "d", 2));
    chain.mine_pending_transactions_at("r".to_string(), CREATED + 1).unwrap();
    assert_eq!(chain.blocks.len(), 3);
    assert_eq!(chain.blocks[2].transactions.len(), 3);
    assert_eq!(chain.blocks[2].timestamp, CREATED + 1);
    assert!(chain.pending_transactions.is_empty());
}

#[test]
fn create_transaction_only_queues() {
    let mut chain = fresh();
    let hash = chain.blocks[0].hash.clone();
    chain.create_transaction(tx("", "", -7));
    assert_eq!(chain.pending_transactions.len(), 1);
    assert!(same_tx(&chain.pending_transactions[0], &tx("", "", -7)));
    chain.create_transaction(tx("a", "a", 0));
    assert_eq!(chain.pending_transactions.len(), 2);
    assert_eq!(chain.blocks.len(), 1);
    assert_eq!(chain.blocks[0].hash, hash);
    assert_eq!(chain.locked_supply, 3_000_000_000_000);
    assert_eq!(chain.circulating_supply, 6_000_000_000_000);
}

#[test]
fn state_report_after_drain() {
    let mut chain = fresh();
    chain.release_locked_supply_at(CREATED + 40 * SECONDS_PER_YEAR);
    assert_eq!(
        chain.get_state(),
        "Total Supply: 100000000000\nCirculating Supply: 90000000000\nLocked Supply: 0\nCreator Address: 0x\n"
    );
}

#[test]
fn state_report() {
    let chain = fresh();
    assert_eq!(
        chain.get_state(),
        "Total Supply: 100000000000\nCirculating Supply: 60000000000\nLocked Supply: 30000000000\nCreator Address: 0x\n"
    );
}

fn sample_block(nonce: u64) -> Block {
    Block {
        index: 1,
        timestamp: 1_700_000_000,
        transactions: vec![tx("Alice", "Bob", 1000)],
        previous_hash: "abc".to_string(),
        hash: String::new(),
        nonce,
    }
}

#[test]
fn canonical_text_of_block() {
    assert_eq!(sample_block(0).canonical_text(7), "11700000000[5:Alice3:Bob1000;]abc7");
    let empty = Block {
        index: 0,
        timestamp: -5,
        transactions: Vec::new(),
        previous_hash: "0".to_string(),
        hash: String::new(),
        nonce: 0,
    };
    assert_eq!(empty.canonical_text(7), "0-5[]07");
}

#[test]
fn block_hash_is_sha256_hex() {
    assert_eq!(
        sample_block(0).hash_with(7),
        "c5addf550f9326b2b4cbadf7322b5d35a8edfbc93713a5cddd31e4e714021e39"
    );
}

#[test]
fn calculate_hash_seals_draft() {
    let sealed = calculate_hash(sample_block(123)).expect("sealed");
    assert!(sealed.hash.starts_with("0000"));
    assert_eq!(sealed.hash, sealed.hash_with(sealed.nonce));
    assert_eq!(sealed.previous_hash, "abc");
    assert_eq!(sealed.index, 1);
}

#[test]
fn difficulty_predicate() {
    assert!(check_difficulty(&"0000".to_string()));
    assert!(check_difficulty(&"0000ab".to_string()));
    assert!(!check_difficulty(&"000a00".to_string()));
    assert!(!check_difficulty(&"000".to_string()));
    assert!(!check_difficulty(&String::new()));
}

#[test]
fn list_blocks_copies_chain() {
    let mut chain = fresh();
    chain.create_transaction(tx("p", "q", 42));
    chain.mine_pending_transactions_at("m".to_string(), CREATED + 3).unwrap();
    let copy = chain.list_blocks();
    assert_eq!(copy.len(), chain.blocks.len());
    for (a, b) in copy.iter().zip(chain.blocks.iter()) {
        assert_eq!(a.index, b.index);
        assert_eq!(a.timestamp, b.timestamp);
        assert_eq!(a.hash, b.hash);
        assert_eq!(a.previous_hash, b.previous_hash);
        assert_eq!(a.nonce, b.nonce);
        assert_eq!(a.transactions.len(), b.transactions.len());
        for (x, y) in a.transactions.iter().zip(b.transactions.iter()) {
            assert!(same_tx(x, y));
        }
    }
}
