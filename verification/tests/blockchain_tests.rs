use fluerion::block::Block;
use fluerion::blockchain::Blockchain;
use fluerion::blockchain::DIFFICULTY;
use fluerion::hash::hash_to_hex;
use fluerion::transaction::Transaction;

fn transfer(sender: &str, receiver: &str, amount: i64, timestamp: u64) -> Transaction {
    Transaction::with_timestamp(sender.to_string(), receiver.to_string(), amount, timestamp)
}

fn solved_block(ledger: &Blockchain, transactions: Vec<Transaction>) -> Block {
    let prev_hash = ledger.get_latest_block().get_hash();
    let mut block = Block::with_timestamp(1700000100, transactions, prev_hash);
    let (nonce, hash) = ledger.proof_of_work(&block).unwrap();
    block.set_nonce(nonce);
    block.set_hash(hash);
    block
}

#[test]
fn fresh_ledger_has_one_genesis_block_and_an_empty_pool() {
    let ledger = Blockchain::new();
    let chain = ledger.get_chain();
    assert_eq!(chain.len(), 1);
    assert_eq!(chain[0].get_prev_hash(), [0u8; 32]);
    assert_eq!(chain[0].get_transactions()[0].sender, "Genesis");
    assert!(ledger.get_pending_transactions().is_empty());
    assert_eq!(ledger.get_difficulty(), DIFFICULTY);
    assert_eq!(ledger.get_difficulty(), 4);
    assert!(ledger.is_valid());
    assert_eq!(ledger.get_latest_block().get_hash(), chain[0].get_hash());
}

#[test]
fn fresh_ledger_has_nothing_to_mine() {
    let ledger = Blockchain::new();
    assert!(ledger.get_block_to_mine().is_none());
}

#[test]
fn template_holds_the_pool_and_follows_the_genesis_block() {
    let mut ledger = Blockchain::new();
    let genesis_hash = ledger.get_latest_block().get_hash();
    ledger.add_transaction(transfer("Alice", "Bob", 50, 1700000000));
    let template = ledger.get_block_to_mine().unwrap();
    assert_eq!(template.get_transactions().len(), 1);
    let only = &template.get_transactions()[0];
    assert_eq!(only.sender, "Alice");
    assert_eq!(only.receiver, "Bob");
    assert_eq!(only.amount, 50);
    assert_eq!(only.timestamp, 1700000000);
    assert!(only.signature.is_none());
    assert_eq!(template.get_prev_hash(), genesis_hash);
    assert_eq!(template.get_nonce(), 0);
    assert_eq!(template.get_hash(), template.calculate_hash());
    assert_eq!(ledger.get_pending_transactions().len(), 1);
    assert_eq!(ledger.get_chain().len(), 1);
}

#[test]
fn every_template_is_fresh_and_leaves_the_pool() {
    let mut ledger = Blockchain::new();
    ledger.add_transaction(transfer("Alice", "Bob", 50, 1));
    let first = ledger.get_block_to_mine().unwrap();
    ledger.add_transaction(transfer("Bob", "Carol", 5, 2));
    let second = ledger.get_block_to_mine().unwrap();
    assert_eq!(first.get_transactions().len(), 1);
    assert_eq!(second.get_transactions().len(), 2);
    assert_eq!(ledger.get_pending_transactions().len(), 2);
}

#[test]
fn add_transaction_appends_without_checking() {
    let mut ledger = Blockchain::new();
    ledger.add_transaction(transfer("Alice", "Bob", -5, 1));
    ledger.add_transaction(transfer("Nobody", "Nobody", 0, 2));
    let pending = ledger.get_pending_transactions();
    assert_eq!(pending.len(), 2);
    assert_eq!(pending[0].amount, -5);
    assert_eq!(pending[1].sender, "Nobody");
}

#[test]
fn block_with_wrong_prev_hash_is_dropped() {
    let mut ledger = Blockchain::new();
    ledger.add_transaction(transfer("Alice", "Bob", 50, 1700000000));
    let mut wrong_prev = ledger.get_latest_block().get_hash();
    wrong_prev[0] ^= 0xff;
    let block = Block::from_parts(
        1700000100,
        wrong_prev,
        [0u8; 32],
        vec![transfer("Alice", "Bob", 50, 1700000000)],
        3,
    );
    assert!(ledger.valid_proof(&block.get_hash()));
    assert!(!ledger.is_valid_new_block(&block));
    assert!(!ledger.add_mined_block(block));
    assert_eq!(ledger.get_chain().len(), 1);
    assert_eq!(ledger.get_pending_transactions().len(), 1);
    assert_eq!(ledger.get_pending_transactions()[0].sender, "Alice");
}

#[test]
fn block_that_fails_the_difficulty_is_dropped() {
    let mut ledger = Blockchain::new();
    ledger.add_transaction(transfer("Alice", "Bob", 50, 1700000000));
    let tip = ledger.get_latest_block().get_hash();
    let mut weak = [0u8; 32];
    weak[1] = 0x0f;
    let block = Block::from_parts(
        1700000100,
        tip,
        weak,
        vec![transfer("Alice", "Bob", 50, 1700000000)],
        3,
    );
    assert!(!ledger.valid_proof(&block.get_hash()));
    assert!(!ledger.is_valid_new_block(&block));
    assert!(!ledger.add_mined_block(block));
    assert_eq!(ledger.get_chain().len(), 1);
    assert_eq!(ledger.get_latest_block().get_hash(), tip);
    assert_eq!(ledger.get_pending_transactions().len(), 1);
}

#[test]
fn solved_block_is_taken_in_and_empties_the_pool() {
    let mut ledger = Blockchain::new();
    ledger.add_transaction(transfer("Alice", "Bob", 50, 1700000000));
    let template = ledger.get_block_to_mine().unwrap();
    let (nonce, hash) = ledger.proof_of_work(&template).unwrap();
    let mut block = template;
    block.set_nonce(nonce);
    block.set_hash(hash);
    assert!(ledger.is_valid_new_block(&block));
    assert!(ledger.add_mined_block(block));
    assert_eq!(ledger.get_chain().len(), 2);
    assert!(ledger.get_pending_transactions().is_empty());
    assert_eq!(ledger.get_latest_block().get_hash(), hash);
    assert_eq!(ledger.get_latest_block().get_nonce(), nonce);
    assert!(ledger.is_valid());
    assert!(hash_to_hex(&hash).starts_with("0000"));
}

#[test]
fn accepted_block_clears_the_pool_whatever_it_holds() {
    let mut ledger = Blockchain::new();
    ledger.add_transaction(transfer("Alice", "Bob", 50, 1));
    ledger.add_transaction(transfer("Bob", "Carol", 20, 2));
    let block = solved_block(&ledger, vec![transfer("Eve", "Eve", 1, 3)]);
    assert!(ledger.add_mined_block(block));
    assert!(ledger.get_pending_transactions().is_empty());
    assert_eq!(ledger.get_latest_block().get_transactions().len(), 1);
    assert_eq!(ledger.get_latest_block().get_transactions()[0].sender, "Eve");
    assert!(ledger.is_valid());
}

#[test]
fn second_solution_for_the_same_template_is_dropped() {
    let mut ledger = Blockchain::new();
    ledger.add_transaction(transfer("Alice", "Bob", 50, 1));
    let one = solved_block(&ledger, vec![transfer("Alice", "Bob", 50, 1)]);
    let other = one.clone();
    assert!(ledger.add_mined_block(one));
    assert!(!ledger.add_mined_block(other));
    assert_eq!(ledger.get_chain().len(), 2);
}

#[test]
fn block_with_a_made_up_digest_is_taken_in_but_breaks_validity() {
    let mut ledger = Blockchain::new();
    let tip = ledger.get_latest_block().get_hash();
    let forged = Block::from_parts(1, tip, [0u8; 32], vec![transfer("Eve", "Eve", 1, 1)], 0);
    assert!(ledger.add_mined_block(forged));
    assert_eq!(ledger.get_chain().len(), 2);
    assert!(!ledger.is_valid());
}

#[test]
fn local_mining_appends_a_valid_block() {
    let mut ledger = Blockchain::new();
    let genesis_hash = ledger.get_latest_block().get_hash();
    ledger.add_transaction(transfer("Alice", "Bob", 50, 1700000000));
    ledger.add_transaction(transfer("Bob", "Charlie", 30, 1700000001));
    assert!(ledger.mine_pending_transactions());
    let chain = ledger.get_chain();
    assert_eq!(chain.len(), 2);
    assert!(ledger.get_pending_transactions().is_empty());
    let mined = &chain[1];
    assert_eq!(mined.get_prev_hash(), genesis_hash);
    assert_eq!(mined.get_transactions().len(), 2);
    assert_eq!(mined.get_hash(), mined.calculate_hash_with_nonce(mined.get_nonce()));
    assert!(ledger.valid_proof(&mined.get_hash()));
    assert!(ledger.is_valid());
    for nonce in 0..mined.get_nonce() {
        assert!(!ledger.valid_proof(&mined.calculate_hash_with_nonce(nonce)));
    }
}

#[test]
fn chain_stays_valid_over_several_blocks() {
    let mut ledger = Blockchain::with_difficulty(2);
    for round in 0..5u64 {
        ledger.add_transaction(transfer("Alice", "Bob", round as i64, round));
        if round % 2 == 0 {
            assert!(ledger.mine_pending_transactions());
        } else {
            let block = solved_block(&ledger, vec![transfer("Bob", "Alice", 1, round)]);
            assert!(ledger.add_mined_block(block));
        }
        assert!(ledger.is_valid());
        assert_eq!(ledger.get_chain().len() as u64, round + 2);
    }
}

#[test]
fn new_block_does_not_touch_the_ledger() {
    let mut ledger = Blockchain::with_difficulty(2);
    ledger.add_transaction(transfer("Alice", "Bob", 50, 1));
    let block = ledger.new_block().unwrap();
    assert_eq!(ledger.get_chain().len(), 1);
    assert_eq!(ledger.get_pending_transactions().len(), 1);
    assert_eq!(block.get_prev_hash(), ledger.get_latest_block().get_hash());
    assert_eq!(block.get_transactions().len(), 1);
    assert_eq!(block.get_hash(), ledger.calculate_hash_with_nonce(&block, block.get_nonce()));
    assert!(ledger.valid_proof(&block.get_hash()));
}

#[test]
fn mining_an_empty_pool_appends_an_empty_block() {
    let mut ledger = Blockchain::with_difficulty(1);
    assert!(ledger.mine_pending_transactions());
    assert_eq!(ledger.get_chain().len(), 2);
    assert!(ledger.get_latest_block().get_transactions().is_empty());
    assert!(ledger.is_valid());
}

#[test]
fn valid_proof_follows_the_ledgers_difficulty() {
    let mut hash = [0xffu8; 32];
    hash[0] = 0;
    hash[1] = 0;
    hash[2] = 0x0f;
    for difficulty in 0..=5 {
        assert!(Blockchain::with_difficulty(difficulty).valid_proof(&hash));
    }
    assert!(!Blockchain::with_difficulty(6).valid_proof(&hash));
    assert!(Blockchain::new().valid_proof(&hash));
    let mut changed = hash;
    changed[0] = 0x01;
    for difficulty in 2..=5 {
        assert!(!Blockchain::with_difficulty(difficulty).valid_proof(&changed));
    }
}

#[test]
fn difficulty_beyond_the_digest_is_never_met_by_a_ledger() {
    let ledger = Blockchain::with_difficulty(65);
    assert!(!ledger.valid_proof(&[0u8; 32]));
}

#[test]
fn balances_after_two_transfers_in_one_block() {
    let mut ledger = Blockchain::new();
    ledger.add_transaction(transfer("Alice", "Bob", 50, 1700000000));
    ledger.add_transaction(transfer("Bob", "Charlie", 30, 1700000001));
    assert!(ledger.mine_pending_transactions());
    assert_eq!(ledger.get_balance("Bob"), Some(20));
    assert_eq!(ledger.get_balance("Bob").unwrap() as f64, 20.0);
    assert_eq!(ledger.get_balance("Alice"), Some(-50));
    assert_eq!(ledger.get_balance("Charlie"), Some(30));
}

#[test]
fn balance_of_an_address_that_never_occurs_is_zero() {
    let mut ledger = Blockchain::with_difficulty(1);
    assert_eq!(ledger.get_balance("Dave"), Some(0));
    assert_eq!(ledger.get_balance("Genesis"), Some(0));
    ledger.add_transaction(transfer("Alice", "Bob", 50, 1));
    assert!(ledger.mine_pending_transactions());
    assert_eq!(ledger.get_balance("Dave"), Some(0));
    assert_eq!(ledger.get_balance(""), Some(0));
}

#[test]
fn pool_takes_no_part_in_balances() {
    let mut ledger = Blockchain::with_difficulty(1);
    ledger.add_transaction(transfer("Alice", "Bob", 50, 1));
    assert_eq!(ledger.get_balance("Bob"), Some(0));
    assert!(ledger.mine_pending_transactions());
    ledger.add_transaction(transfer("Alice", "Bob", 7, 2));
    assert_eq!(ledger.get_balance("Bob"), Some(50));
}

#[test]
fn transfer_to_oneself_changes_nothing() {
    let mut ledger = Blockchain::with_difficulty(1);
    ledger.add_transaction(transfer("Alice", "Alice", 50, 1));
    ledger.add_transaction(transfer("Alice", "Bob", -4, 2));
    assert!(ledger.mine_pending_transactions());
    assert_eq!(ledger.get_balance("Alice"), Some(4));
    assert_eq!(ledger.get_balance("Bob"), Some(-4));
}

#[test]
fn balances_do_not_depend_on_the_order_of_blocks() {
    let first = vec![transfer("Alice", "Bob", 50, 1), transfer("Bob", "Carol", 30, 2)];
    let second = vec![transfer("Carol", "Alice", 5, 3)];
    let third = vec![transfer("Bob", "Alice", 11, 4), transfer("Alice", "Carol", 2, 5)];
    let orders: [[usize; 3]; 3] = [[0, 1, 2], [2, 0, 1], [1, 2, 0]];
    let mut seen: Vec<(i128, i128, i128)> = Vec::new();
    for order in orders {
        let mut ledger = Blockchain::with_difficulty(1);
        for index in order {
            let transactions = [&first, &second, &third][index].clone();
            let block = solved_block(&ledger, transactions);
            assert!(ledger.add_mined_block(block));
        }
        seen.push((
            ledger.get_balance("Alice").unwrap(),
            ledger.get_balance("Bob").unwrap(),
            ledger.get_balance("Carol").unwrap(),
        ));
    }
    assert_eq!(seen[0], (-50 + 5 + 11 - 2, 50 - 30 - 11, 30 - 5 + 2));
    assert_eq!(seen[0], seen[1]);
    assert_eq!(seen[0], seen[2]);
    assert_eq!(seen[0].0 + seen[0].1 + seen[0].2, 0);
}

#[test]
fn balances_add_up_over_blocks() {
    let mut ledger = Blockchain::with_difficulty(1);
    let one = solved_block(&ledger, vec![transfer("Alice", "Bob", 50, 1)]);
    assert!(ledger.add_mined_block(one));
    let after_one = ledger.get_balance("Bob").unwrap();
    let two = solved_block(&ledger, vec![transfer("Bob", "Carol", 20, 2), transfer("Dan", "Bob", 3, 3)]);
    assert!(ledger.add_mined_block(two));
    assert_eq!(after_one, 50);
    assert_eq!(ledger.get_balance("Bob"), Some(after_one - 20 + 3));
}

#[test]
fn balance_is_exact_beyond_sixty_four_bits() {
    let mut ledger = Blockchain::with_difficulty(1);
    let many = vec![
        transfer("Mint", "Rich", i64::MAX, 1),
        transfer("Mint", "Rich", i64::MAX, 2),
        transfer("Mint", "Rich", i64::MAX, 3),
        transfer("Rich", "Mint", i64::MIN, 4),
    ];
    let block = solved_block(&ledger, many);
    assert!(ledger.add_mined_block(block));
    let expected = 3 * (i64::MAX as i128) - (i64::MIN as i128);
    assert_eq!(ledger.get_balance("Rich"), Some(expected));
    assert_eq!(ledger.get_balance("Mint"), Some(-expected));
}

#[test]
fn is_valid_sees_a_broken_link() {
    let mut ledger = Blockchain::with_difficulty(1);
    let honest = solved_block(&ledger, vec![transfer("Alice", "Bob", 1, 1)]);
    assert!(ledger.add_mined_block(honest));
    assert!(ledger.is_valid());
    let tip = ledger.get_latest_block().get_hash();
    let mut lying = Block::with_timestamp(5, vec![transfer("Eve", "Eve", 9, 9)], tip);
    let (nonce, hash) = ledger.proof_of_work(&lying).unwrap();
    lying.set_nonce(nonce + 1);
    lying.set_hash(hash);
    assert!(ledger.add_mined_block(lying));
    assert!(!ledger.is_valid());
}
