//! The orchestrator. It owns the chain, the pending-transaction pool,
//! the one-shot settlement observers keyed by transaction hash, the
//! persistent block observers and the local signing keypair; it exposes
//! submitting, committing and notification.
//!
//! The pool keeps insertion order and never holds two transactions with
//! equal hash; registering a settlement observer for a hash already
//! pending is rejected, so an observer fires at most once; committing
//! drains the whole pool into one signed block, appends it to the chain
//! and fires the block observers in registration order, then the
//! settlement observer of every transaction in the block.

use vstd::prelude::*;

verus! {

use crate::address::Address;
use crate::address::address_bytes;
use crate::block::Block;
use crate::block::BlockV;
use crate::block::block_wf;
use crate::chain::Chain;
use crate::chain::chain_ok;
use crate::chain::genesis_block_v;
use crate::crypto::BlockKeypair;
use crate::crypto::is_public_key;
use crate::hash::HashDigest;
use crate::transaction::Transaction;
use crate::transaction::TransactionV;
use crate::transaction::tx_views;
use crate::transaction::tx_wf;
use crate::crypto::verified_by;

/// The condition reported when a transaction whose hash is already
/// pending is submitted again.
#[derive(Clone, Copy, Debug, Hash, PartialEq, Eq, Structural)]
pub struct BlockchainError;

/// A one-shot settlement observer: consumed when the transaction it was
/// registered for is settled by a committed block.
pub trait TransactionObserver {
    fn on_settled(self, transaction: Transaction);
}

/// A persistent block observer: invoked for every committed block, in
/// registration order.
pub trait BlockObserver {
    fn on_block(&mut self, block: Block);
}

/// Whether some transaction in the sequence carries the given hash.
pub open spec fn contains_hash(ts: Seq<TransactionV>, h: Seq<u8>) -> bool {
    exists|i: int| 0 <= i < ts.len() && ts[i].hash == h
}

/// No two transactions in the sequence carry the same hash.
pub open spec fn unique_hashes(ts: Seq<TransactionV>) -> bool {
    forall|i: int, j: int| 0 <= i < j < ts.len() ==> ts[i].hash != ts[j].hash
}

/// Whether some registry entry carries the given key.
pub open spec fn contains_key<T>(os: Seq<(Seq<u8>, T)>, h: Seq<u8>) -> bool {
    exists|i: int| 0 <= i < os.len() && os[i].0 == h
}

/// No two registry entries carry the same key.
pub open spec fn unique_keys<T>(os: Seq<(Seq<u8>, T)>) -> bool {
    forall|i: int, j: int| 0 <= i < j < os.len() ==> os[i].0 != os[j].0
}

/// Every registry key is the hash of some pending transaction.
pub open spec fn keys_pending<T>(os: Seq<(Seq<u8>, T)>, ts: Seq<TransactionV>) -> bool {
    forall|i: int| 0 <= i < os.len() ==> contains_hash(ts, (#[trigger] os[i]).0)
}

/// The registry after settling one hash: the first entry carrying it is
/// removed, every other entry is kept in order.
pub open spec fn settle_hash<T>(os: Seq<(Seq<u8>, T)>, h: Seq<u8>) -> Seq<(Seq<u8>, T)>
    decreases os.len(),
{
    if os.len() == 0 {
        os
    } else if os[0].0 == h {
        os.drop_first()
    } else {
        seq![os[0]] + settle_hash(os.drop_first(), h)
    }
}

/// The registry after settling every transaction of a sequence, in
/// order.
pub open spec fn settle_all<T>(os: Seq<(Seq<u8>, T)>, ts: Seq<TransactionV>) -> Seq<(Seq<u8>, T)>
    decreases ts.len(),
{
    if ts.len() == 0 {
        os
    } else {
        settle_all(settle_hash(os, ts[0].hash), ts.drop_first())
    }
}

/// Settling a hash that no entry carries leaves the registry unchanged.
pub proof fn lemma_settle_hash_absent<T>(os: Seq<(Seq<u8>, T)>, h: Seq<u8>)
    requires
        !contains_key(os, h),
    ensures
        settle_hash(os, h) == os,
    decreases os.len(),
{
    if os.len() > 0 {
        assert(os[0].0 != h);
        assert(!contains_key(os.drop_first(), h)) by {
            if contains_key(os.drop_first(), h) {
                let i = choose|i: int| 0 <= i < os.drop_first().len() && os.drop_first()[i].0 == h;
                assert(os[i + 1].0 == h);
            }
        }
        lemma_settle_hash_absent(os.drop_first(), h);
        assert(settle_hash(os, h) =~= os);
    }
}

/// Settling a hash removes exactly the first entry that carries it.
pub proof fn lemma_settle_hash_found<T>(os: Seq<(Seq<u8>, T)>, h: Seq<u8>, i: int)
    requires
        0 <= i < os.len(),
        os[i].0 == h,
        forall|j: int| 0 <= j < i ==> os[j].0 != h,
    ensures
        settle_hash(os, h) == os.remove(i),
    decreases i,
{
    if i == 0 {
        assert(settle_hash(os, h) =~= os.remove(0));
    } else {
        lemma_settle_hash_found(os.drop_first(), h, i - 1);
        assert(settle_hash(os, h) =~= os.remove(i));
    }
}

/// Settling never introduces a key.
pub proof fn lemma_settle_hash_monotone<T>(os: Seq<(Seq<u8>, T)>, h: Seq<u8>, k: Seq<u8>)
    requires
        contains_key(settle_hash(os, h), k),
    ensures
        contains_key(os, k),
    decreases os.len(),
{
    let s = settle_hash(os, h);
    if os.len() > 0 {
        if os[0].0 == h {
            let i = choose|i: int| 0 <= i < s.len() && s[i].0 == k;
            assert(os[i + 1].0 == k);
        } else {
            let i = choose|i: int| 0 <= i < s.len() && s[i].0 == k;
            if i == 0 {
                assert(os[0].0 == k);
            } else {
                assert(s.drop_first() =~= settle_hash(os.drop_first(), h));
                assert(contains_key(settle_hash(os.drop_first(), h), k));
                lemma_settle_hash_monotone(os.drop_first(), h, k);
                let j = choose|j: int|
                    0 <= j < os.drop_first().len() && os.drop_first()[j].0 == k;
                assert(os[j + 1].0 == k);
            }
        }
    }
}

/// In a registry without duplicate keys, settling a hash leaves no
/// entry carrying it, and keeps the keys unique.
pub proof fn lemma_settle_hash_clears<T>(os: Seq<(Seq<u8>, T)>, h: Seq<u8>)
    requires
        unique_keys(os),
    ensures
        !contains_key(settle_hash(os, h), h),
        unique_keys(settle_hash(os, h)),
    decreases os.len(),
{
    let s = settle_hash(os, h);
    if os.len() == 0 {
    } else if os[0].0 == h {
        assert forall|i: int, j: int| 0 <= i < j < s.len() implies s[i].0 != s[j].0 by {
            assert(s[i] == os[i + 1]);
            assert(s[j] == os[j + 1]);
        }
        if contains_key(s, h) {
            let i = choose|i: int| 0 <= i < s.len() && s[i].0 == h;
            assert(os[i + 1].0 == h);
            assert(os[0].0 == os[i + 1].0);
        }
    } else {
        let rest = os.drop_first();
        assert(unique_keys(rest)) by {
            assert forall|i: int, j: int| 0 <= i < j < rest.len() implies rest[i].0 != rest[j].0 by {
                assert(rest[i] == os[i + 1]);
                assert(rest[j] == os[j + 1]);
            }
        }
        lemma_settle_hash_clears(os.drop_first(), h);
        let tail = settle_hash(os.drop_first(), h);
        assert(s =~= seq![os[0]] + tail);
        if contains_key(s, h) {
            let i = choose|i: int| 0 <= i < s.len() && s[i].0 == h;
            assert(i > 0);
            assert(tail[i - 1].0 == h);
        }
        assert forall|i: int, j: int| 0 <= i < j < s.len() implies s[i].0 != s[j].0 by {
            if i == 0 {
                assert(s[j] == tail[j - 1]);
                assert(contains_key(tail, s[j].0));
                lemma_settle_hash_monotone(os.drop_first(), h, s[j].0);
                let m = choose|m: int|
                    0 <= m < os.drop_first().len() && os.drop_first()[m].0 == s[j].0;
                assert(os[m + 1].0 == s[j].0);
                assert(os[0].0 != os[m + 1].0);
            } else {
                assert(s[i] == tail[i - 1]);
                assert(s[j] == tail[j - 1]);
            }
        }
    }
}

/// Settling a whole transaction sequence never introduces a key.
pub proof fn lemma_settle_all_monotone<T>(
    os: Seq<(Seq<u8>, T)>,
    ts: Seq<TransactionV>,
    k: Seq<u8>,
)
    requires
        contains_key(settle_all(os, ts), k),
    ensures
        contains_key(os, k),
    decreases ts.len(),
{
    if ts.len() > 0 {
        lemma_settle_all_monotone(settle_hash(os, ts[0].hash), ts.drop_first(), k);
        lemma_settle_hash_monotone(os, ts[0].hash, k);
    }
}

/// Settling a whole transaction sequence keeps registry keys unique.
pub proof fn lemma_settle_all_unique<T>(os: Seq<(Seq<u8>, T)>, ts: Seq<TransactionV>)
    requires
        unique_keys(os),
    ensures
        unique_keys(settle_all(os, ts)),
    decreases ts.len(),
{
    if ts.len() > 0 {
        lemma_settle_hash_clears(os, ts[0].hash);
        lemma_settle_all_unique(settle_hash(os, ts[0].hash), ts.drop_first());
    }
}

/// After settling a sequence, no entry carries any of its hashes.
pub proof fn lemma_settle_all_clears<T>(os: Seq<(Seq<u8>, T)>, ts: Seq<TransactionV>, k: Seq<u8>)
    requires
        unique_keys(os),
        contains_hash(ts, k),
    ensures
        !contains_key(settle_all(os, ts), k),
    decreases ts.len(),
{
    if ts.len() > 0 {
        let os1 = settle_hash(os, ts[0].hash);
        lemma_settle_hash_clears(os, ts[0].hash);
        if k == ts[0].hash {
            if contains_key(settle_all(os1, ts.drop_first()), k) {
                lemma_settle_all_monotone(os1, ts.drop_first(), k);
            }
        } else {
            assert(contains_hash(ts.drop_first(), k)) by {
                let i = choose|i: int| 0 <= i < ts.len() && ts[i].hash == k;
                assert(i > 0);
                assert(ts.drop_first()[i - 1].hash == k);
            }
            lemma_settle_all_clears(os1, ts.drop_first(), k);
        }
    }
}

/// A registry whose every key is the hash of a settled transaction is
/// empty after settling them all.
pub proof fn lemma_settle_all_empties<T>(os: Seq<(Seq<u8>, T)>, ts: Seq<TransactionV>)
    requires
        unique_keys(os),
        keys_pending(os, ts),
    ensures
        settle_all(os, ts) == Seq::<(Seq<u8>, T)>::empty(),
{
    let s = settle_all(os, ts);
    if s.len() > 0 {
        let k = s[0].0;
        assert(contains_key(s, k));
        lemma_settle_all_monotone(os, ts, k);
        let i = choose|i: int| 0 <= i < os.len() && os[i].0 == k;
        assert(contains_hash(ts, k));
        lemma_settle_all_clears(os, ts, k);
    }
    assert(s =~= Seq::<(Seq<u8>, T)>::empty());
}

/// Settling the hashes of a sequence extended by one transaction is
/// settling the sequence, then that transaction's hash.
pub proof fn lemma_settle_all_push<T>(os: Seq<(Seq<u8>, T)>, ts: Seq<TransactionV>, t: TransactionV)
    ensures
        settle_all(os, ts.push(t)) == settle_hash(settle_all(os, ts), t.hash),
    decreases ts.len(),
{
    let p = ts.push(t);
    if ts.len() == 0 {
        assert(p[0] == t);
        assert(p.drop_first() =~= Seq::<TransactionV>::empty());
        assert(settle_all(os, p) == settle_all(settle_hash(os, t.hash), p.drop_first()));
        assert(settle_all(settle_hash(os, t.hash), p.drop_first()) == settle_hash(os, t.hash));
        assert(settle_all(os, ts) == os);
    } else {
        assert(p[0] == ts[0]);
        assert(p.drop_first() =~= ts.drop_first().push(t));
        assert(settle_all(os, p) == settle_all(
            settle_hash(os, ts[0].hash),
            ts.drop_first().push(t),
        ));
        lemma_settle_all_push(settle_hash(os, ts[0].hash), ts.drop_first(), t);
        assert(settle_all(os, ts) == settle_all(settle_hash(os, ts[0].hash), ts.drop_first()));
    }
}

/// The ledger core: the chain, the pending pool, the settlement
/// registry, the block observers and the local signing identity.
pub struct Blockchain<TO: TransactionObserver, BO: BlockObserver> {
    trans_observers: Vec<(HashDigest, TO)>,
    block_observers: Vec<BO>,
    pending: Vec<Transaction>,
    keypair: BlockKeypair,
    submitter: Address,
    chain: Chain,
}

impl<TO: TransactionObserver, BO: BlockObserver> Blockchain<TO, BO> {
    /// The committed chain, as block values.
    pub closed spec fn chain_v(&self) -> Seq<BlockV> {
        self.chain@
    }

    /// The pending pool, as transaction values in insertion order.
    pub closed spec fn pending_v(&self) -> Seq<TransactionV> {
        tx_views(self.pending@)
    }

    /// The settlement registry: hash keys with their observers, in
    /// registration order.
    pub closed spec fn observers_v(&self) -> Seq<(Seq<u8>, TO)> {
        self.trans_observers@.map_values(|e: (HashDigest, TO)| (e.0@, e.1))
    }

    /// How many block observers are registered.
    pub closed spec fn n_block_observers(&self) -> nat {
        self.block_observers@.len()
    }

    /// The local identity that submits and commits.
    pub closed spec fn submitter_v(&self) -> Seq<u8> {
        self.submitter@
    }

    /// The public half of the local signing keypair.
    pub closed spec fn pk_v(&self) -> Seq<u8> {
        self.keypair.pk()
    }

    /// The orchestrator's invariant: a well-formed chain, a pool
    /// without duplicate hashes, a registry without duplicate keys all
    /// of which are pending, and a submitter derived from a valid
    /// local key.
    pub open spec fn wf(&self) -> bool {
        &&& chain_ok(self.chain_v())
        &&& unique_hashes(self.pending_v())
        &&& unique_keys(self.observers_v())
        &&& keys_pending(self.observers_v(), self.pending_v())
        &&& self.submitter_v() == address_bytes(self.pk_v())
        &&& is_public_key(self.pk_v())
        &&& self.pk_v().len() == 32
    }

    /// Builds an orchestrator around a signing keypair: a chain holding
    /// only the genesis block, an empty pool, and no observers.
    pub fn new(keypair: &BlockKeypair) -> (r: Blockchain<TO, BO>)
        requires
            keypair.wf(),
        ensures
            r.wf(),
            r.chain_v() == seq![genesis_block_v()],
            r.pending_v() == Seq::<TransactionV>::empty(),
            r.observers_v() == Seq::<(Seq<u8>, TO)>::empty(),
            r.n_block_observers() == 0,
            r.pk_v() == keypair.pk(),
            r.submitter_v() == address_bytes(keypair.pk()),
    {
        let public_key = keypair.public();
        let submitter = Address::from_public_key(&public_key);
        let chain = Chain::new();
        let r = Blockchain {
            trans_observers: Vec::new(),
            block_observers: Vec::new(),
            pending: Vec::new(),
            keypair: keypair.duplicate(),
            submitter,
            chain,
        };
        proof {
            assert(r.pending_v() =~= Seq::<TransactionV>::empty());
            assert(r.observers_v() =~= Seq::<(Seq<u8>, TO)>::empty());
        }
        r
    }

    /// A read-only copy of the committed chain.
    pub fn blocks(&self) -> (r: Vec<Block>)
        ensures
            crate::chain::block_views(r@) == self.chain_v(),
    {
        let mut r: Vec<Block> = Vec::new();
        let mut i: usize = 0;
        while i < self.chain.blocks.len()
            invariant
                i <= self.chain.blocks@.len(),
                r@.len() == i,
                forall|j: int| 0 <= j < i ==> r@[j]@ == self.chain.blocks@[j]@,
            decreases self.chain.blocks@.len() - i,
        {
            r.push(self.chain.blocks[i].clone());
            i = i + 1;
        }
        proof {
            assert forall|j: int| 0 <= j < r@.len() implies crate::chain::block_views(r@)[j]
                == self.chain_v()[j] by {
                assert(crate::chain::block_views(r@)[j] == r@[j]@);
                assert(self.chain_v()[j] == self.chain.blocks@[j]@);
            }
            assert(crate::chain::block_views(r@) =~= self.chain_v());
        }
        r
    }

    /// A read-only copy of the pending pool, in insertion order.
    pub fn pending_transactions(&self) -> (r: Vec<Transaction>)
        ensures
            tx_views(r@) == self.pending_v(),
    {
        crate::transaction::clone_transactions(&self.pending)
    }

    /// Registers an already-built transaction and its one-shot
    /// settlement observer. Rejected exactly when a transaction with
    /// the same hash is still pending; nothing changes then.
    pub fn register_transaction(&mut self, trans: Transaction, observer: TO) -> (r: Result<
        (),
        BlockchainError,
    >)
        requires
            old(self).wf(),
        ensures
            final(self).wf(),
            r is Err <==> contains_hash(old(self).pending_v(), trans@.hash),
            r is Err ==> final(self).pending_v() == old(self).pending_v(),
            r is Err ==> final(self).observers_v() == old(self).observers_v(),
            r is Ok ==> final(self).pending_v() == old(self).pending_v().push(trans@),
            r is Ok ==> final(self).observers_v() == old(self).observers_v().push(
                (trans@.hash, observer),
            ),
            final(self).chain_v() == old(self).chain_v(),
            final(self).n_block_observers() == old(self).n_block_observers(),
            final(self).pk_v() == old(self).pk_v(),
            final(self).submitter_v() == old(self).submitter_v(),
    {
        let trans_hash = trans.digest();
        let mut i: usize = 0;
        while i < self.pending.len()
            invariant
                i <= self.pending@.len(),
                trans_hash@ == trans@.hash,
                *self == *old(self),
                old(self).wf(),
                forall|j: int| 0 <= j < i ==> (#[trigger] tx_views(self.pending@)[j]).hash
                    != trans@.hash,
            decreases self.pending@.len() - i,
        {
            proof {
                assert(tx_views(self.pending@)[i as int] == self.pending@[i as int]@);
            }
            if self.pending[i].digest().equals(&trans_hash) {
                proof {
                    assert(contains_hash(old(self).pending_v(), trans@.hash));
                }
                return Err(BlockchainError);
            }
            i = i + 1;
        }
        proof {
            if contains_hash(old(self).pending_v(), trans@.hash) {
                let j = choose|j: int|
                    0 <= j < old(self).pending_v().len() && old(self).pending_v()[j].hash
                        == trans@.hash;
                assert(tx_views(self.pending@)[j].hash == trans@.hash);
            }
        }
        let ghost old_pending = self.pending_v();
        let ghost old_observers = self.observers_v();
        self.pending.push(trans.clone());
        self.trans_observers.push((trans_hash, observer));
        proof {
            assert(self.pending_v() =~= old_pending.push(trans@));
            assert(self.observers_v() =~= old_observers.push((trans@.hash, observer)));
            assert forall|i2: int, j2: int|
                0 <= i2 < j2 < self.pending_v().len() implies self.pending_v()[i2].hash != self
                .pending_v()[j2].hash by {
                if j2 < old_pending.len() {
                } else {
                    assert(self.pending_v()[j2] == trans@);
                    assert(!contains_hash(old_pending, trans@.hash));
                }
            }
            assert forall|i2: int, j2: int|
                0 <= i2 < j2 < self.observers_v().len() implies self.observers_v()[i2].0 != self
                .observers_v()[j2].0 by {
                if j2 < old_observers.len() {
                } else {
                    assert(self.observers_v()[j2].0 == trans@.hash);
                    if contains_key(old_observers, trans@.hash) {
                        let m = choose|m: int|
                            0 <= m < old_observers.len() && old_observers[m].0 == trans@.hash;
                        assert(contains_hash(old_pending, trans@.hash));
                    }
                }
            }
            assert forall|i2: int| 0 <= i2 < self.observers_v().len() implies contains_hash(
                self.pending_v(),
                (#[trigger] self.observers_v()[i2]).0,
            ) by {
                if i2 < old_observers.len() {
                    assert(contains_hash(old_pending, old_observers[i2].0));
                    let m = choose|m: int|
                        0 <= m < old_pending.len() && old_pending[m].hash == old_observers[i2].0;
                    assert(self.pending_v()[m].hash == old_observers[i2].0);
                } else {
                    assert(self.pending_v()[old_pending.len() as int].hash == trans@.hash);
                }
            }
        }
        Ok(())
    }

    /// Builds a transaction over the payload with the local identity
    /// and keypair, adds it to the pending pool and registers its
    /// one-shot settlement observer. Rejected exactly when the freshly
    /// drawn hash is already pending — so never on an empty pool — and
    /// nothing changes then.
    pub fn submit_transaction(&mut self, payload: Vec<u8>, on_done: TO) -> (r: Result<
        Transaction,
        BlockchainError,
    >)
        requires
            old(self).wf(),
        ensures
            final(self).wf(),
            final(self).chain_v() == old(self).chain_v(),
            final(self).n_block_observers() == old(self).n_block_observers(),
            final(self).pk_v() == old(self).pk_v(),
            final(self).submitter_v() == old(self).submitter_v(),
            r is Err ==> final(self).pending_v() == old(self).pending_v(),
            r is Err ==> final(self).observers_v() == old(self).observers_v(),
            r is Err ==> exists|t: TransactionV|
                t.submitter == old(self).submitter_v() && t.payload == payload@ && tx_wf(t)
                    && #[trigger] contains_hash(old(self).pending_v(), t.hash),
            old(self).pending_v().len() == 0 ==> r is Ok,
            match r {
                Ok(t) => {
                    &&& t@.submitter == old(self).submitter_v()
                    &&& t@.payload == payload@
                    &&& tx_wf(t@)
                    &&& verified_by(old(self).pk_v(), t@.hash, t@.signature)
                    &&& !contains_hash(old(self).pending_v(), t@.hash)
                    &&& final(self).pending_v() == old(self).pending_v().push(t@)
                    &&& final(self).observers_v() == old(self).observers_v().push(
                        (t@.hash, on_done),
                    )
                },
                Err(_) => true,
            },
    {
        let submitter = self.submitter.clone();
        let trans = Transaction::new(submitter, payload, &self.keypair);
        let ghost drawn = trans@;
        let result = trans.clone();
        match self.register_transaction(trans, on_done) {
            Ok(()) => Ok(result),
            Err(e) => {
                proof {
                    assert(drawn.submitter == old(self).submitter_v() && drawn.payload == payload@
                        && tx_wf(drawn) && contains_hash(old(self).pending_v(), drawn.hash));
                }
                Err(e)
            },
        }
    }

    /// Registers a persistent block observer behind the already
    /// registered ones.
    pub fn add_block_listener(&mut self, on_block: BO)
        requires
            old(self).wf(),
        ensures
            final(self).wf(),
            final(self).n_block_observers() == old(self).n_block_observers() + 1,
            final(self).chain_v() == old(self).chain_v(),
            final(self).pending_v() == old(self).pending_v(),
            final(self).observers_v() == old(self).observers_v(),
            final(self).pk_v() == old(self).pk_v(),
            final(self).submitter_v() == old(self).submitter_v(),
    {
        self.block_observers.push(on_block);
    }

    /// Settles one transaction: the first registry entry keyed by its
    /// hash, if any, is removed and its observer fired with the
    /// transaction; with no entry nothing changes.
    pub fn notify_transaction_settled(&mut self, trans: Transaction)
        requires
            old(self).wf(),
        ensures
            final(self).wf(),
            final(self).observers_v() == settle_hash(old(self).observers_v(), trans@.hash),
            final(self).chain_v() == old(self).chain_v(),
            final(self).pending_v() == old(self).pending_v(),
            final(self).n_block_observers() == old(self).n_block_observers(),
            final(self).pk_v() == old(self).pk_v(),
            final(self).submitter_v() == old(self).submitter_v(),
    {
        let trans_hash = trans.digest();
        let mut i: usize = 0;
        while i < self.trans_observers.len()
            invariant
                i <= self.trans_observers@.len(),
                trans_hash@ == trans@.hash,
                *self == *old(self),
                old(self).wf(),
                forall|j: int| 0 <= j < i ==> (#[trigger] self.observers_v()[j]).0 != trans@.hash,
            decreases self.trans_observers@.len() - i,
        {
            proof {
                assert(self.observers_v()[i as int].0 == self.trans_observers@[i as int].0@);
            }
            if self.trans_observers[i].0.equals(&trans_hash) {
                let ghost old_observers = self.observers_v();
                let entry = self.trans_observers.remove(i);
                proof {
                    lemma_settle_hash_found(old_observers, trans@.hash, i as int);
                    assert(self.observers_v() =~= old_observers.remove(i as int));
                    lemma_settle_hash_clears(old_observers, trans@.hash);
                    assert forall|m: int|
                        0 <= m < self.observers_v().len() implies contains_hash(
                        self.pending_v(),
                        (#[trigger] self.observers_v()[m]).0,
                    ) by {
                        if m < i {
                            assert(self.observers_v()[m] == old_observers[m]);
                        } else {
                            assert(self.observers_v()[m] == old_observers[m + 1]);
                        }
                    }
                }
                entry.1.on_settled(trans);
                return ;
            }
            i = i + 1;
        }
        proof {
            assert(!contains_key(self.observers_v(), trans@.hash));
            lemma_settle_hash_absent(self.observers_v(), trans@.hash);
        }
    }

    /// Fires every block observer with the block, in registration
    /// order, then settles every transaction in the block, in block
    /// order: each settlement observer fires at most once and is
    /// removed.
    pub fn notify_block_event(&mut self, block: Block)
        requires
            old(self).wf(),
        ensures
            final(self).wf(),
            final(self).observers_v() == settle_all(old(self).observers_v(), block@.transactions),
            final(self).chain_v() == old(self).chain_v(),
            final(self).pending_v() == old(self).pending_v(),
            final(self).n_block_observers() == old(self).n_block_observers(),
            final(self).pk_v() == old(self).pk_v(),
            final(self).submitter_v() == old(self).submitter_v(),
    {
        let mut remaining: Vec<BO> = Vec::new();
        core::mem::swap(&mut remaining, &mut self.block_observers);
        let ghost n = remaining@.len();
        let mut fired: Vec<BO> = Vec::new();
        while remaining.len() > 0
            invariant
                fired@.len() + remaining@.len() == n,
            decreases remaining@.len(),
        {
            let mut observer = remaining.remove(0);
            observer.on_block(block.clone());
            fired.push(observer);
        }
        core::mem::swap(&mut fired, &mut self.block_observers);
        let ghost obs0 = self.observers_v();
        let mut k: usize = 0;
        proof {
            assert(block@.transactions.subrange(0, 0) =~= Seq::<TransactionV>::empty());
        }
        while k < block.transactions.len()
            invariant
                k <= block.transactions@.len(),
                block@.transactions == tx_views(block.transactions@),
                self.wf(),
                self.observers_v() == settle_all(obs0, block@.transactions.subrange(0, k as int)),
                self.chain_v() == old(self).chain_v(),
                self.pending_v() == old(self).pending_v(),
                self.n_block_observers() == old(self).n_block_observers(),
                self.pk_v() == old(self).pk_v(),
                self.submitter_v() == old(self).submitter_v(),
            decreases block.transactions@.len() - k,
        {
            let t = block.transactions[k].clone();
            proof {
                assert(t@ == block@.transactions[k as int]);
            }
            self.notify_transaction_settled(t);
            k = k + 1;
            proof {
                lemma_settle_all_push(
                    obs0,
                    block@.transactions.subrange(0, k - 1),
                    block@.transactions[k - 1],
                );
                assert(block@.transactions.subrange(0, k as int) =~= block@.transactions.subrange(
                    0,
                    k - 1,
                ).push(block@.transactions[k - 1]));
            }
        }
        proof {
            assert(block@.transactions.subrange(0, block@.transactions.len() as int)
                =~= block@.transactions);
        }
    }

    /// Appends a block that extends the chain tip, then fires the block
    /// observers and settles the block's transactions.
    pub fn add_block(&mut self, block: Block)
        requires
            old(self).wf(),
            block_wf(block@),
            block@.header.parent_hash == old(self).chain_v().last().header.hash,
            block@.header.ordinal as int == old(self).chain_v().len(),
        ensures
            final(self).wf(),
            final(self).chain_v() == old(self).chain_v().push(block@),
            final(self).pending_v() == old(self).pending_v(),
            final(self).observers_v() == settle_all(old(self).observers_v(), block@.transactions),
            final(self).n_block_observers() == old(self).n_block_observers(),
            final(self).pk_v() == old(self).pk_v(),
            final(self).submitter_v() == old(self).submitter_v(),
    {
        let last = self.chain.blocks.len() - 1;
        let notified = block.clone();
        let ghost old_chain = self.chain_v();
        self.chain.blocks.push(block);
        proof {
            assert(self.chain_v() =~= old_chain.push(notified@));
            let c = self.chain_v();
            assert forall|i: int| 0 <= i < c.len() implies (#[trigger] c[i]).header.ordinal as int
                == i by {
                if i < old_chain.len() {
                    assert(c[i] == old_chain[i]);
                }
            }
            assert forall|i: int| 1 <= i < c.len() implies (#[trigger] c[i]).header.parent_hash
                == c[i - 1].header.hash by {
                if i < old_chain.len() {
                    assert(c[i] == old_chain[i]);
                    assert(c[i - 1] == old_chain[i - 1]);
                } else {
                    assert(c[i] == notified@);
                    assert(c[i - 1] == old_chain.last());
                }
            }
            assert forall|i: int| 1 <= i < c.len() implies block_wf(#[trigger] c[i]) by {
                if i < old_chain.len() {
                    assert(c[i] == old_chain[i]);
                }
            }
        }
        self.notify_block_event(notified);
    }

    /// Commits the pending pool: drains it in insertion order into one
    /// new signed block extending the chain tip, appends the block,
    /// fires every block observer, and settles every drained
    /// transaction, emptying the settlement registry. An empty pool
    /// still yields a valid signed block with zero transactions.
    pub fn save(&mut self)
        requires
            old(self).wf(),
        ensures
            final(self).wf(),
            final(self).chain_v().len() == old(self).chain_v().len() + 1,
            final(self).chain_v() == old(self).chain_v().push(final(self).chain_v().last()),
            final(self).chain_v().last().transactions == old(self).pending_v(),
            final(self).chain_v().last().header.parent_hash == old(
                self,
            ).chain_v().last().header.hash,
            final(self).chain_v().last().header.ordinal as int == old(self).chain_v().len(),
            final(self).chain_v().last().public_key == old(self).pk_v(),
            block_wf(final(self).chain_v().last()),
            final(self).pending_v() == Seq::<TransactionV>::empty(),
            final(self).observers_v() == Seq::<(Seq<u8>, TO)>::empty(),
            final(self).n_block_observers() == old(self).n_block_observers(),
            final(self).pk_v() == old(self).pk_v(),
            final(self).submitter_v() == old(self).submitter_v(),
    {
        let txs = crate::transaction::clone_transactions(&self.pending);
        let last = self.chain.blocks.len() - 1;
        let parent_hash = self.chain.blocks[last].header.hash();
        let ordinal = self.chain.blocks[last].header.ordinal;
        proof {
            assert(self.chain_v()[last as int] == self.chain.blocks@[last as int]@);
            assert(self.chain_v()[last as int].header.ordinal as int == last as int);
        }
        let block = Block::new(parent_hash, ordinal + 1, txs, &self.keypair);
        let ghost old_observers = self.observers_v();
        let ghost block_v = block@;
        self.add_block(block);
        proof {
            lemma_settle_all_empties(old_observers, old(self).pending_v());
            assert(self.chain_v().last() == block_v);
        }
        self.pending.clear();
        proof {
            assert(self.pending_v() =~= Seq::<TransactionV>::empty());
        }
    }
}

} // verus!
