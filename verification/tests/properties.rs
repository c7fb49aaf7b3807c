//! Behavioural properties of the ledger: signing and verification,
//! chain linkage, codec round trips, duplicate rejection, settlement,
//! empty commits, tamper detection and observer ordering.

use std::cell::Cell;
use std::cell::RefCell;
use std::rc::Rc;

use libp2p::identity::ed25519::Keypair;

use ledger::address::Address;
use ledger::block::Block;
use ledger::block::BlockVerifyError;
use ledger::blockchain::BlockObserver;
use ledger::blockchain::Blockchain;
use ledger::blockchain::BlockchainError;
use ledger::blockchain::TransactionObserver;
use ledger::chain::Chain;
use ledger::codec::decode_block;
use ledger::codec::decode_transaction;
use ledger::codec::encode_block;
use ledger::codec::encode_transaction;
use ledger::crypto::BlockKeypair;
use ledger::hash::HashDigest;
use ledger::signature::Signature;
use ledger::transaction::Transaction;

struct CountProbe {
    called: Rc<Cell<u32>>,
}

impl TransactionObserver for CountProbe {
    fn on_settled(self, _transaction: Transaction) {
        self.called.set(self.called.get() + 1);
    }
}

struct PayloadProbe {
    called: Rc<Cell<u32>>,
    expect_payload: Vec<u8>,
}

impl TransactionObserver for PayloadProbe {
    fn on_settled(self, transaction: Transaction) {
        assert_eq!(self.expect_payload, transaction.payload());
        self.called.set(self.called.get() + 1);
    }
}

struct OrderProbe {
    id: u32,
    log: Rc<RefCell<Vec<u32>>>,
    seen: Rc<RefCell<Vec<Block>>>,
}

impl BlockObserver for OrderProbe {
    fn on_block(&mut self, block: Block) {
        self.log.borrow_mut().push(self.id);
        self.seen.borrow_mut().push(block);
    }
}

fn new_keypair() -> BlockKeypair {
    BlockKeypair::new(&Keypair::generate())
}

fn payload_of(text: &str) -> Vec<u8> {
    serde_json::to_vec(&serde_json::Value::String(text.to_string())).unwrap()
}

#[test]
fn sign_verifies_and_tampering_fails() {
    let keypair = new_keypair();
    let other = new_keypair();
    let message = payload_of("a message to digest");
    let digest = HashDigest::new(&message);
    let signature = Signature::new(digest.as_bytes(), &keypair);

    assert!(signature.verify_with_key(&keypair.public(), digest.as_bytes()));
    assert!(signature.verify(digest.as_bytes(), &keypair));

    let mut tampered_message = digest.as_bytes().clone();
    tampered_message[0] ^= 1;
    assert!(!signature.verify_with_key(&keypair.public(), &tampered_message));

    let mut tampered_signature = signature.as_bytes().clone();
    tampered_signature[0] ^= 1;
    let bad = Signature::from_bytes(tampered_signature);
    assert!(!bad.verify_with_key(&keypair.public(), digest.as_bytes()));

    assert!(!signature.verify_with_key(&other.public(), digest.as_bytes()));
}

#[test]
fn keccak_empty_vector() {
    let digest = HashDigest::new(&Vec::new());
    let bytes = digest.as_bytes();
    assert_eq!(64, bytes.len());
    let known: [u8; 32] = [
        197, 210, 70, 1, 134, 247, 35, 60, 146, 126, 125, 178, 220, 199, 3, 192, 229, 0, 182, 83,
        202, 130, 39, 59, 123, 250, 216, 4, 93, 133, 164, 112,
    ];
    assert_eq!(&known[..], &bytes[..32]);
    assert_eq!(&[0u8; 32][..], &bytes[32..]);
    let rendered = digest.as_string();
    assert_eq!(128, rendered.len());
    assert!(rendered.starts_with("c5d2460186f7233c927e7db2dcc703c0e500b653ca82273b7bfad8045d85a470"));
    assert!(rendered.ends_with(&"0".repeat(64)));
}

#[test]
fn addresses_follow_public_keys() {
    let a = new_keypair();
    let b = new_keypair();
    let addr_a = Address::from_public_key(&a.public());
    let addr_a2 = Address::from_public_key(&a.public());
    let addr_b = Address::from_public_key(&b.public());
    assert_eq!(addr_a, addr_a2);
    assert_ne!(addr_a, addr_b);
    assert_eq!(36, addr_a.as_bytes().len());
    assert_eq!(&[8u8, 1, 18, 32][..], &addr_a.as_bytes()[..4]);
}

#[test]
fn chain_linkage_and_ordinals() {
    let keypair = new_keypair();
    let mut bc: Blockchain<CountProbe, OrderProbe> = Blockchain::new(&keypair);
    bc.submit_transaction(payload_of("one"), CountProbe { called: Rc::new(Cell::new(0)) })
        .unwrap();
    bc.save();
    bc.submit_transaction(payload_of("two"), CountProbe { called: Rc::new(Cell::new(0)) })
        .unwrap();
    bc.save();
    let blocks = bc.blocks();
    assert_eq!(3, blocks.len());
    for i in 1..blocks.len() {
        assert_eq!(
            blocks[i - 1].header.hash,
            blocks[i].header.parent_hash,
        );
        assert_eq!(blocks[i - 1].header.ordinal + 1, blocks[i].header.ordinal);
        blocks[i].verify().unwrap();
    }
    let chain = Chain { blocks };
    assert!(chain.verify());
}

#[test]
fn chain_verify_rejects_tampering() {
    let keypair = new_keypair();
    let mut bc: Blockchain<CountProbe, OrderProbe> = Blockchain::new(&keypair);
    bc.submit_transaction(payload_of("entry"), CountProbe { called: Rc::new(Cell::new(0)) })
        .unwrap();
    bc.save();
    let good = Chain { blocks: bc.blocks() };
    assert!(good.verify());

    let mut blocks = bc.blocks();
    let last = blocks.pop().unwrap();
    let replaced = Block::from_fields(
        ledger::block::Header {
            timestamp: last.header.timestamp.wrapping_add(1),
            ..last.header
        },
        last.transactions,
        last.public_key,
        last.signature,
    );
    blocks.push(replaced);
    let bad = Chain { blocks };
    assert!(!bad.verify());
}

#[test]
fn transaction_codec_round_trip() {
    let keypair = new_keypair();
    let submitter = Address::from_public_key(&keypair.public());
    let transaction = Transaction::new(submitter, payload_of("round trip"), &keypair);
    let encoded = encode_transaction(&transaction);
    let decoded = decode_transaction(&encoded).unwrap();
    assert_eq!(transaction, decoded);
    assert_eq!(transaction.digest(), decoded.digest());
    assert_eq!(transaction.signature(), decoded.signature());
    assert!(decoded
        .signature()
        .verify_with_key(&keypair.public(), decoded.digest().as_bytes()));

    let mut truncated = encoded.clone();
    truncated.pop();
    assert!(decode_transaction(&truncated).is_none());
}

#[test]
fn block_codec_round_trip() {
    let keypair = new_keypair();
    let submitter = Address::from_public_key(&keypair.public());
    let transactions = vec![
        Transaction::new(submitter.clone(), payload_of("first"), &keypair),
        Transaction::new(submitter, payload_of("second"), &keypair),
    ];
    let block = Block::new(HashDigest::new(&Vec::new()), 1, transactions, &keypair);
    let encoded = encode_block(&block);
    let decoded = decode_block(&encoded).unwrap();
    assert_eq!(block, decoded);
    assert_eq!(block.id(), decoded.id());
    decoded.verify().unwrap();

    let mut truncated = encoded.clone();
    truncated.pop();
    assert!(decode_block(&truncated).is_none());
}

#[test]
fn canonical_framing_exact_bytes() {
    let submitter = Address::from_bytes(vec![1, 2, 3]);
    let preimage = ledger::transaction::tx_preimage_bytes(&submitter, 5, &vec![9], 7);
    let mut expected: Vec<u8> = Vec::new();
    expected.extend_from_slice(&[3, 0, 0, 0, 0, 0, 0, 0]);
    expected.extend_from_slice(&[1, 2, 3]);
    expected.extend_from_slice(&[5, 0, 0, 0, 0, 0, 0, 0]);
    expected.extend_from_slice(&[1, 0, 0, 0, 0, 0, 0, 0]);
    expected.extend_from_slice(&[9]);
    expected.extend_from_slice(&[7, 0, 0, 0, 0, 0, 0, 0, 0, 0, 0, 0, 0, 0, 0, 0]);
    assert_eq!(expected, preimage);
}

#[test]
fn duplicate_registration_rejected() {
    let keypair = new_keypair();
    let submitter = Address::from_public_key(&keypair.public());
    let mut bc: Blockchain<CountProbe, OrderProbe> = Blockchain::new(&keypair);
    let transaction = Transaction::new(submitter, payload_of("once"), &keypair);
    let first_calls = Rc::new(Cell::new(0u32));
    let second_calls = Rc::new(Cell::new(0u32));
    bc.register_transaction(transaction.clone(), CountProbe { called: first_calls.clone() })
        .unwrap();
    let second = bc.register_transaction(
        transaction.clone(),
        CountProbe { called: second_calls.clone() },
    );
    assert_eq!(Err(BlockchainError), second);
    bc.save();
    assert_eq!(1, first_calls.get());
    assert_eq!(0, second_calls.get());
}

#[test]
fn submit_and_commit_settles_exactly_once() {
    let keypair = new_keypair();
    let mut bc: Blockchain<PayloadProbe, OrderProbe> = Blockchain::new(&keypair);
    let payload = payload_of("Hello First Transaction");
    let called = Rc::new(Cell::new(0u32));
    let before = bc.blocks().len();
    let transaction = bc
        .submit_transaction(
            payload.clone(),
            PayloadProbe { called: called.clone(), expect_payload: payload.clone() },
        )
        .unwrap();
    assert_eq!(1, bc.pending_transactions().len());
    bc.save();
    assert_eq!(0, bc.pending_transactions().len());
    assert_eq!(before + 1, bc.blocks().len());
    assert_eq!(1, called.get());
    bc.notify_transaction_settled(transaction);
    assert_eq!(1, called.get());
}

#[test]
fn empty_commit_produces_valid_block() {
    let keypair = new_keypair();
    let mut bc: Blockchain<CountProbe, OrderProbe> = Blockchain::new(&keypair);
    bc.save();
    let blocks = bc.blocks();
    let block = blocks.last().unwrap();
    assert_eq!(0, block.transactions.len());
    block.verify().unwrap();
    let empty_root = HashDigest::new(&ledger::block::txs_root_bytes(&Vec::new()));
    assert_eq!(empty_root, block.header.transactions_hash);
}

#[test]
fn tampered_transaction_reports_root_mismatch() {
    let keypair = new_keypair();
    let submitter = Address::from_public_key(&keypair.public());
    let transaction = Transaction::new(submitter, payload_of("genuine"), &keypair);
    let block = Block::new(HashDigest::new(&Vec::new()), 1, vec![transaction], &keypair);

    let original = &block.transactions[0];
    let mut tampered_payload = original.payload();
    tampered_payload[0] ^= 1;
    let tampered = Transaction::from_fields(
        original.submitter().clone(),
        original.timestamp(),
        tampered_payload,
        original.nonce(),
        original.digest(),
        original.signature(),
    );
    let tampered_block = Block::from_fields(
        block.header.clone(),
        vec![tampered],
        block.public_key.clone(),
        block.signature.clone(),
    );
    assert_eq!(
        Err(BlockVerifyError::TransactionsRootMismatch),
        tampered_block.verify()
    );

    let mut bad_sig = block.signature.as_bytes().clone();
    bad_sig[0] ^= 1;
    let sig_block = Block::from_fields(
        block.header.clone(),
        block.transactions.clone(),
        block.public_key.clone(),
        Signature::from_bytes(bad_sig),
    );
    assert_eq!(Err(BlockVerifyError::SignatureInvalid), sig_block.verify());

    let header_block = Block::from_fields(
        ledger::block::Header {
            timestamp: block.header.timestamp.wrapping_add(1),
            ..block.header.clone()
        },
        block.transactions.clone(),
        block.public_key.clone(),
        block.signature.clone(),
    );
    assert_eq!(Err(BlockVerifyError::HeaderMismatch), header_block.verify());
}

#[test]
fn two_block_observers_fire_in_registration_order() {
    let keypair = new_keypair();
    let mut bc: Blockchain<CountProbe, OrderProbe> = Blockchain::new(&keypair);
    let log = Rc::new(RefCell::new(Vec::new()));
    let seen: Rc<RefCell<Vec<Block>>> = Rc::new(RefCell::new(Vec::new()));
    bc.add_block_listener(OrderProbe { id: 1, log: log.clone(), seen: seen.clone() });
    bc.add_block_listener(OrderProbe { id: 2, log: log.clone(), seen: seen.clone() });
    bc.save();
    assert_eq!(vec![1, 2], *log.borrow());
    let blocks = seen.borrow();
    assert_eq!(2, blocks.len());
    assert_eq!(blocks[0], blocks[1]);
}

#[test]
fn signature_algorithm_is_ed25519() {
    let algorithm = ledger::signature::SignatureAlgorithm::Ed25519;
    assert!(matches!(
        algorithm,
        ledger::signature::SignatureAlgorithm::Ed25519
    ));
}

#[test]
fn genesis_anchors_every_chain() {
    let keypair = new_keypair();
    let bc: Blockchain<CountProbe, OrderProbe> = Blockchain::new(&keypair);
    let blocks = bc.blocks();
    assert_eq!(1, blocks.len());
    let genesis = ledger::chain::genesis_block();
    assert_eq!(genesis, blocks[0]);
    assert_eq!(0, blocks[0].header.ordinal);
    assert_eq!(1, blocks[0].transactions.len());
    assert!(Chain { blocks }.verify());
}
