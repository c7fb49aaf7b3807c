//! Ports of the ledger's unit tests: building keys, transactions,
//! blocks and chains, and exercising the observer protocol.

use std::cell::Cell;
use std::cell::RefCell;
use std::rc::Rc;

use libp2p::identity::ed25519::Keypair;

use ledger::address::Address;
use ledger::block::Block;
use ledger::blockchain::BlockObserver;
use ledger::blockchain::Blockchain;
use ledger::blockchain::TransactionObserver;
use ledger::crypto::BlockKeypair;
use ledger::hash::HashDigest;
use ledger::signature::Signature;
use ledger::transaction::Transaction;

/// A one-shot settlement probe: counts its firings and checks the
/// settled transaction's payload when one is expected.
struct SettledProbe {
    called: Rc<Cell<u32>>,
    expect_payload: Option<Vec<u8>>,
}

impl TransactionObserver for SettledProbe {
    fn on_settled(self, transaction: Transaction) {
        if let Some(expected) = &self.expect_payload {
            assert_eq!(expected, &transaction.payload());
        }
        self.called.set(self.called.get() + 1);
    }
}

/// A one-shot settlement probe that checks the entire settled
/// transaction against an expected value.
struct ExactProbe {
    called: Rc<Cell<u32>>,
    expected: Transaction,
}

impl TransactionObserver for ExactProbe {
    fn on_settled(self, transaction: Transaction) {
        assert_eq!(self.expected, transaction);
        self.called.set(self.called.get() + 1);
    }
}

/// A block probe: records its identifier and the block it received,
/// optionally verifying the block.
struct BlockProbe {
    id: u32,
    log: Rc<RefCell<Vec<u32>>>,
    seen: Rc<RefCell<Vec<Block>>>,
    verify: bool,
}

impl BlockObserver for BlockProbe {
    fn on_block(&mut self, block: Block) {
        if self.verify {
            assert!(block.verify().is_ok());
        }
        self.log.borrow_mut().push(self.id);
        self.seen.borrow_mut().push(block);
    }
}

fn new_keypair() -> BlockKeypair {
    BlockKeypair::new(&Keypair::generate())
}

fn probe_chain(keypair: &BlockKeypair) -> Blockchain<SettledProbe, BlockProbe> {
    Blockchain::new(keypair)
}

fn json_payload(value: &serde_json::Value) -> Vec<u8> {
    serde_json::to_vec(value).unwrap()
}

fn thing_value(name: &str, age: u64) -> serde_json::Value {
    let mut map = serde_json::Map::new();
    map.insert(
        "name".to_string(),
        serde_json::Value::String(name.to_string()),
    );
    map.insert(
        "age".to_string(),
        serde_json::Value::Number(serde_json::Number::from(age)),
    );
    serde_json::Value::Object(map)
}

#[test]
fn generate_genesis() {
    let keypair = new_keypair();
    let local_id = Address::from_public_key(&keypair.public());
    let mut map = serde_json::Map::new();
    map.insert(
        "type".to_string(),
        serde_json::Value::String("AddAuthority".to_string()),
    );
    map.insert(
        "key".to_string(),
        serde_json::Value::String(data_encoding::BASE64.encode(&keypair.public())),
    );
    let payload = json_payload(&serde_json::Value::Object(map));
    let transaction = Transaction::new(local_id, payload, &keypair);
    let block = Block::new(
        HashDigest::new(&Vec::new()),
        0,
        Vec::from([transaction]),
        &keypair,
    );
    println!("{}", block.id());
    println!("{}", block.signature());
}

#[test]
fn test_build_blockchain() {
    let keypair = new_keypair();
    let mut chain = probe_chain(&keypair);
    let payload = json_payload(&serde_json::Value::String(
        "Hello First Transaction".to_string(),
    ));
    let called = Rc::new(Cell::new(0u32));
    let _trans: Transaction = chain
        .submit_transaction(
            payload,
            SettledProbe {
                called: called.clone(),
                expect_payload: None,
            },
        )
        .unwrap();
    let log = Rc::new(RefCell::new(Vec::new()));
    let seen = Rc::new(RefCell::new(Vec::new()));
    chain.add_block_listener(BlockProbe {
        id: 1,
        log,
        seen,
        verify: true,
    });
    chain.save();
}

#[test]
fn blockchain_test_add_trans_listener() {
    let keypair = new_keypair();
    let mut bc = probe_chain(&keypair);
    let data = thing_value("Christian", 10);
    let payload = json_payload(&data);
    let called = Rc::new(Cell::new(0u32));
    bc.submit_transaction(
        payload.clone(),
        SettledProbe {
            called: called.clone(),
            expect_payload: Some(payload),
        },
    )
    .unwrap();
    bc.save();
    assert_eq!(1, called.get());
}

#[test]
fn blockchain_test_add_block_listener() {
    let keypair = new_keypair();
    let mut chain = probe_chain(&keypair);
    let log = Rc::new(RefCell::new(Vec::new()));
    let seen: Rc<RefCell<Vec<Block>>> = Rc::new(RefCell::new(Vec::new()));
    chain.add_block_listener(BlockProbe {
        id: 1,
        log: log.clone(),
        seen: seen.clone(),
        verify: false,
    });
    let expected = thing_value("christian", 10);
    chain
        .submit_transaction(
            json_payload(&expected),
            SettledProbe {
                called: Rc::new(Cell::new(0)),
                expect_payload: None,
            },
        )
        .unwrap();
    chain.save();
    assert_eq!(vec![1], *log.borrow());
    let blocks = seen.borrow();
    let last_payload = blocks[0].transactions.last().unwrap().payload();
    let result: serde_json::Value = serde_json::from_slice(&last_payload).unwrap();
    assert_eq!(expected, result);
}

#[test]
fn notifier_test_add_trans_listener() {
    let keypair = new_keypair();
    let local_id = Address::from_public_key(&keypair.public());
    let mut chain: Blockchain<ExactProbe, BlockProbe> = Blockchain::new(&keypair);
    let transaction = Transaction::new(
        local_id,
        "some transaction".as_bytes().to_vec(),
        &keypair,
    );
    let called = Rc::new(Cell::new(0u32));
    chain
        .register_transaction(
            transaction.clone(),
            ExactProbe {
                called: called.clone(),
                expected: transaction.clone(),
            },
        )
        .unwrap();
    chain.notify_transaction_settled(transaction);
    assert_eq!(1, called.get());
}

#[test]
fn notifier_test_add_block_listener() {
    let keypair = new_keypair();
    let block_key = new_keypair();
    let block = Block::new(HashDigest::new(&Vec::new()), 1, Vec::new(), &block_key);
    let mut chain = probe_chain(&keypair);
    let log = Rc::new(RefCell::new(Vec::new()));
    let seen: Rc<RefCell<Vec<Block>>> = Rc::new(RefCell::new(Vec::new()));
    chain.add_block_listener(BlockProbe {
        id: 1,
        log: log.clone(),
        seen: seen.clone(),
        verify: false,
    });
    chain.notify_block_event(block.clone());
    assert_eq!(vec![1], *log.borrow());
    assert_eq!(block, seen.borrow()[0]);
}

#[test]
fn test_build_block() {
    let keypair = new_keypair();
    let local_id = Address::from_public_key(&keypair.public());
    let payload = json_payload(&serde_json::Value::String(
        "Hello First Transaction".to_string(),
    ));
    let transactions = vec![Transaction::new(local_id, payload, &keypair)];
    let block = Block::new(
        HashDigest::new(&Vec::new()),
        1,
        transactions.to_vec(),
        &keypair,
    );
    let msg = block.header.hash.as_bytes().clone();
    let expected_signature = Signature::new(&msg, &keypair);

    assert_eq!(1, block.header.ordinal);
    assert_eq!(expected_signature.as_string(), block.signature());
    assert!(expected_signature.verify_with_key(&keypair.public(), &msg));
    block.verify().unwrap();
}

#[test]
fn test_transaction_new() {
    let keypair = new_keypair();
    let local_id = Address::from_public_key(&keypair.public());
    let payload = json_payload(&serde_json::Value::String(
        "Hello First Transaction".to_string(),
    ));
    let transaction = Transaction::new(local_id.clone(), payload.clone(), &keypair);
    let preimage = ledger::transaction::tx_preimage_bytes(
        &local_id,
        transaction.timestamp(),
        &payload,
        transaction.nonce(),
    );
    let expected_hash = HashDigest::new(&preimage);
    let expected_signature = Signature::new(expected_hash.as_bytes(), &keypair);

    assert_eq!(expected_hash, transaction.digest());
    assert_eq!(expected_signature, transaction.signature());
}
