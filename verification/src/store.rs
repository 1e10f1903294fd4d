//! The transactional store: domain keys mapped to partitioned,
//! independently rooted trees inside one on-disk environment, with
//! atomic batch writes and tri-state point lookups.
//!
//! The tree engine is the outside crate `sanakirja`; every call into it
//! stands behind a trusted wrapper whose contract speaks over the
//! store's mathematical model. The partitioning, lazy root creation,
//! batch loop and tri-state interpretation are verified here.

use crate::kv::apply_ops;
use crate::kv::lemma_apply_ops_snoc;
use crate::kv::lookup;
use crate::kv::op_storable;
use crate::kv::Key;
use crate::kv::KeyState;
use crate::kv::KeyValue;
use crate::kv::Operation;
use crate::kv::OperationV;
use crate::kv::StoreModel;
use crate::kv::Transaction;
use crate::kv::Value;
use crate::kv::LOCATIONS;
use sanakirja::Commit;
use sanakirja::Error as SanakirjaError;
use sanakirja::RootDb;
use vstd::prelude::*;

verus! {

/// The engine's environment handle; opaque here.
#[verifier::external_type_specification]
#[verifier::external_body]
pub struct ExEnv(sanakirja::Env);

/// The engine's error type; opaque here, carried through unchanged.
#[verifier::external_type_specification]
#[verifier::external_body]
pub struct ExEngineError(SanakirjaError);

/// A failure of the store, typed and recoverable. Only the underlying
/// tree engine can fail a store call: lookup misses and absent
/// partitions are ordinary results, never errors.
#[derive(Debug)]
pub enum Error {
    /// The underlying tree engine reported a fault.
    Engine(sanakirja::Error),
}

/// A database stored on disk: the single persistent handle to the
/// environment, holding one root pointer per location.
#[verifier::external_body]
pub struct DiskDb {
    env: std::sync::Arc<sanakirja::Env>,
}

/// The one mutable transaction of a write call; holds the engine's
/// transaction.
#[verifier::external_body]
pub struct WriteTxn {
    txn: sanakirja::MutTxn<std::sync::Arc<sanakirja::Env>, ()>,
}

/// A read-only snapshot transaction of a lookup.
#[verifier::external_body]
pub struct ReadTxn {
    txn: sanakirja::Txn<std::sync::Arc<sanakirja::Env>>,
}

/// A handle to one location's tree of raw byte pairs.
#[verifier::external_body]
pub struct TreeDb {
    db: sanakirja::btree::UDb<[u8], [u8]>,
}

/// What the environment holds, per location, as last committed.
pub uninterp spec fn db_model(d: DiskDb) -> StoreModel;

/// What a mutable transaction would commit, per location: the root
/// slots it has recorded over the committed state it started from.
pub uninterp spec fn write_txn_model(t: WriteTxn) -> StoreModel;

/// Whether a mutable transaction has not recorded any root yet; only
/// then do its root slots read as the state it started from.
pub uninterp spec fn write_txn_fresh(t: WriteTxn) -> bool;

/// Which locations' root handles the transaction has already handed
/// out. A slot is claimed at most once, so no two live handles can
/// reach one location's tree.
pub uninterp spec fn claimed_roots(t: WriteTxn) -> Set<int>;

/// What a read-only transaction observes, per location.
pub uninterp spec fn read_txn_model(t: ReadTxn) -> StoreModel;

/// What one tree handle holds: raw key bytes to raw value bytes.
pub uninterp spec fn tree_model(t: TreeDb) -> Map<Seq<u8>, Seq<u8>>;

/// Minimum capacity of a fresh environment file, in bytes.
pub const MIN_DB_SIZE: u64 = 131072;

impl DiskDb {
    /// Relies on sanakirja::Env::new: opens or creates the environment
    /// file `db` under the given directory, sized at the larger of the
    /// existing file and `size`, with one root page. Nothing is known
    /// of the contents: they come from disk.
    #[verifier::external_body]
    fn env_open(path: &str, size: u64) -> (r: Result<DiskDb, sanakirja::Error>)
        requires
            size >= 4096,
    {
        let file = std::path::Path::new(path).join("db");
        match sanakirja::Env::new(file, size, 1) {
            Ok(env) => Ok(DiskDb { env: std::sync::Arc::new(env) }),
            Err(e) => Err(e),
        }
    }

    /// Relies on sanakirja::Env::mut_txn_begin: starts the one mutable
    /// transaction, which sees the last committed state, has no root
    /// slot recorded yet, and has handed no root handle out.
    #[verifier::external_body]
    fn begin_write(&self) -> (r: Result<WriteTxn, sanakirja::Error>)
        ensures
            r matches Ok(t) ==> write_txn_model(t) == db_model(*self) && write_txn_fresh(t)
                && claimed_roots(t) == Set::<int>::empty(),
    {
        match sanakirja::Env::mut_txn_begin(self.env.clone()) {
            Ok(txn) => Ok(WriteTxn { txn }),
            Err(e) => Err(e),
        }
    }

    /// Relies on sanakirja's Commit::commit: atomically publishes the
    /// transaction's recorded roots; this is the atomicity boundary.
    /// A failure while the free-page tables are rewritten leaves the
    /// previous state; one at the final flush can leave the whole
    /// transaction published; nothing in between is ever visible.
    #[verifier::external_body]
    fn commit(&mut self, txn: WriteTxn) -> (r: Result<(), sanakirja::Error>)
        ensures
            r is Ok ==> db_model(*final(self)) == write_txn_model(txn),
            r is Err ==> db_model(*final(self)) == db_model(*old(self)) || db_model(
                *final(self),
            ) == write_txn_model(txn),
    {
        txn.txn.commit()
    }

    /// Relies on sanakirja::Env::txn_begin: starts a read-only
    /// transaction over a consistent snapshot of the committed state.
    #[verifier::external_body]
    fn begin_read(&self) -> (r: Result<ReadTxn, sanakirja::Error>)
        ensures
            r matches Ok(t) ==> read_txn_model(t) == db_model(*self),
    {
        match sanakirja::Env::txn_begin(self.env.clone()) {
            Ok(txn) => Ok(ReadTxn { txn }),
            Err(e) => Err(e),
        }
    }
}

impl WriteTxn {
    /// Relies on sanakirja's RootDb::root_db for MutTxn: reads a
    /// location's root slot. Sound only while no root has been
    /// recorded in this transaction, since recording one root blanks
    /// the in-transaction view of the others; and each slot is handed
    /// out at most once, so no two handles alias one tree.
    #[verifier::external_body]
    fn root(&mut self, loc: usize) -> (r: Option<TreeDb>)
        requires
            write_txn_fresh(*old(self)),
            !claimed_roots(*old(self)).contains(loc as int),
            loc < LOCATIONS,
        ensures
            write_txn_model(*final(self)) == write_txn_model(*old(self)),
            write_txn_fresh(*final(self)),
            claimed_roots(*final(self)) == claimed_roots(*old(self)).insert(loc as int),
            r matches Some(db) ==> write_txn_model(*old(self)).dom().contains(loc as int)
                && tree_model(db) == write_txn_model(*old(self))[loc as int],
            r is None ==> !write_txn_model(*old(self)).dom().contains(loc as int),
    {
        let db: Option<sanakirja::btree::UDb<[u8], [u8]>> = self.txn.root_db(loc);
        match db {
            Some(db) => Some(TreeDb { db }),
            None => None,
        }
    }

    /// Relies on sanakirja::btree::create_db_: allocates a fresh empty
    /// tree inside the transaction; no root slot is touched. Demanded
    /// only while no root is recorded: page churn must not reach a
    /// tree that a recorded slot already points to.
    #[verifier::external_body]
    fn create_db(&mut self) -> (r: Result<TreeDb, sanakirja::Error>)
        requires
            write_txn_fresh(*old(self)),
        ensures
            write_txn_model(*final(self)) == write_txn_model(*old(self)),
            write_txn_fresh(*final(self)),
            r matches Ok(db) ==> tree_model(db) == crate::kv::empty_tree(),
    {
        match sanakirja::btree::create_db_::<
            _,
            [u8],
            [u8],
            sanakirja::btree::page_unsized::Page<[u8], [u8]>,
        >(&mut self.txn) {
            Ok(db) => Ok(TreeDb { db }),
            Err(e) => Err(e),
        }
    }

    /// Relies on sanakirja::btree::del then sanakirja::btree::put: the
    /// engine's trees are multimaps ordered by entry, so the key's old
    /// binding is removed first, keeping one binding per key. No root
    /// slot is touched. The engine stores keys and values of 1 to 510
    /// bytes. Demanded only while no root is recorded: a mutation can
    /// rewrite or free pages in place, which must not reach a tree
    /// that a recorded slot already points to.
    #[verifier::external_body]
    fn put(&mut self, db: &mut TreeDb, key: &[u8], value: &[u8]) -> (r: Result<
        (),
        sanakirja::Error,
    >)
        requires
            write_txn_fresh(*old(self)),
            1 <= key@.len() <= 510,
            1 <= value@.len() <= 510,
        ensures
            write_txn_model(*final(self)) == write_txn_model(*old(self)),
            write_txn_fresh(*final(self)),
            r is Ok ==> tree_model(*final(db)) == tree_model(*old(db)).insert(key@, value@),
    {
        sanakirja::btree::del(&mut self.txn, &mut db.db, key, None)?;
        sanakirja::btree::put(&mut self.txn, &mut db.db, key, value)?;
        Ok(())
    }

    /// Relies on sanakirja::btree::del: removes the key's binding if
    /// one exists, a no-op otherwise. No root slot is touched. Demanded
    /// only while no root is recorded, as for `put`.
    #[verifier::external_body]
    fn del(&mut self, db: &mut TreeDb, key: &[u8]) -> (r: Result<(), sanakirja::Error>)
        requires
            write_txn_fresh(*old(self)),
            key@.len() <= 510,
        ensures
            write_txn_model(*final(self)) == write_txn_model(*old(self)),
            write_txn_fresh(*final(self)),
            r is Ok ==> tree_model(*final(db)) == tree_model(*old(db)).remove(key@),
    {
        sanakirja::btree::del(&mut self.txn, &mut db.db, key, None)?;
        Ok(())
    }

    /// Relies on MutTxn::set_root: records a location's root pointer;
    /// commit publishes exactly the recorded slots.
    #[verifier::external_body]
    fn set_root(&mut self, loc: usize, db: &TreeDb)
        requires
            loc < LOCATIONS,
        ensures
            write_txn_model(*final(self)) == write_txn_model(*old(self)).insert(
                loc as int,
                tree_model(*db),
            ),
    {
        self.txn.set_root(loc, db.db.db);
    }
}

impl ReadTxn {
    /// Relies on sanakirja's RootDb::root_db for Txn: reads a
    /// location's committed root slot.
    #[verifier::external_body]
    fn root(&self, loc: usize) -> (r: Option<TreeDb>)
        requires
            loc < LOCATIONS,
        ensures
            r matches Some(db) ==> read_txn_model(*self).dom().contains(loc as int)
                && tree_model(db) == read_txn_model(*self)[loc as int],
            r is None ==> !read_txn_model(*self).dom().contains(loc as int),
    {
        let db: Option<sanakirja::btree::UDb<[u8], [u8]>> = self.txn.root_db(loc);
        match db {
            Some(db) => Some(TreeDb { db }),
            None => None,
        }
    }

    /// Relies on sanakirja::btree::get: hands back the first entry of
    /// the tree at or after the asked key, or nothing when the tree
    /// ends before it; with one binding per key, an entry bearing the
    /// asked key is that key's binding.
    #[verifier::external_body]
    fn get(&self, db: &TreeDb, key: &[u8]) -> (r: Result<
        Option<(Vec<u8>, Vec<u8>)>,
        sanakirja::Error,
    >)
        ensures
            r matches Ok(found) ==> match found {
                Some(pair) => (pair.0@ == key@ ==> tree_model(*db).dom().contains(key@)
                    && pair.1@ == tree_model(*db)[key@]) && (tree_model(*db).dom().contains(key@)
                    ==> pair.0@ == key@),
                None => !tree_model(*db).dom().contains(key@),
            },
    {
        match sanakirja::btree::get(&self.txn, &db.db, key, None) {
            Ok(Some((k, v))) => Ok(Some((k.to_vec(), v.to_vec()))),
            Ok(None) => Ok(None),
            Err(e) => Err(e),
        }
    }
}

/// Whether a cached root handle agrees with a model: a handle exists
/// exactly for the locations the model knows, and holds that
/// location's tree. An absent handle also means the location was
/// absent when the transaction began.
spec fn slot_ok(
    m0: StoreModel,
    cur: StoreModel,
    slot: Option<TreeDb>,
    loc: int,
) -> bool {
    match slot {
        Some(db) => cur.dom().contains(loc) && tree_model(db) == cur[loc],
        None => !cur.dom().contains(loc) && !m0.dom().contains(loc),
    }
}

/// Resolves a location's tree from its cached root handle, creating an
/// empty tree on the first write to a previously empty location.
fn open_db(txn: &mut WriteTxn, slot: Option<TreeDb>) -> (r: Result<TreeDb, Error>)
    requires
        write_txn_fresh(*old(txn)),
    ensures
        write_txn_model(*final(txn)) == write_txn_model(*old(txn)),
        write_txn_fresh(*final(txn)),
        r matches Ok(db) ==> tree_model(db) == (match slot {
            Some(d) => tree_model(d),
            None => crate::kv::empty_tree(),
        }),
        slot is Some ==> r is Ok,
{
    match slot {
        Some(db) => Ok(db),
        None => match txn.create_db() {
            Ok(db) => Ok(db),
            Err(e) => Err(Error::Engine(e)),
        },
    }
}

/// Locations outside the partition range are never touched by a batch.
proof fn lemma_apply_ops_far(m: StoreModel, ops: Seq<OperationV>, l: int)
    requires
        !(0 <= l < LOCATIONS),
    ensures
        apply_ops(m, ops).dom().contains(l) == m.dom().contains(l),
        m.dom().contains(l) ==> apply_ops(m, ops)[l] == m[l],
    decreases ops.len(),
{
    if ops.len() > 0 {
        lemma_apply_ops_far(crate::kv::apply_op(m, ops[0]), ops.skip(1), l);
    }
}

impl DiskDb {
    /// Opens or creates the on-disk environment under a directory
    /// path (a directory, not a file). An existing environment file
    /// keeps its size, floored at the minimum capacity; a fresh one
    /// starts at the minimum capacity. The data inside is not
    /// validated here, only the handle established; opening fails only
    /// when the engine does.
    pub fn open(path: &str) -> (r: Result<DiskDb, Error>)
        ensures
            r matches Err(e) ==> e is Engine,
    {
        match Self::env_open(path, MIN_DB_SIZE) {
            Ok(db) => Ok(db),
            Err(e) => Err(Error::Engine(e)),
        }
    }

    /// Applies the batch as one all-or-nothing unit. For each
    /// operation in order: the root tree of the operation's location
    /// is resolved, created lazily on the first write to that
    /// location; an insert writes the key's bytes mapped to the
    /// value's bytes, a delete removes the key's bytes (a no-op when
    /// absent); the location's root pointer is recorded; then the
    /// whole transaction commits. On success the store holds exactly
    /// the batch applied to its previous state. On failure it is
    /// unchanged, except that a fault at the very last step, the
    /// commit's flush, can leave the whole batch published: all or
    /// nothing, never a part. That is the strongest failure promise
    /// the engine's own commit gives; a strict unchanged-on-failure
    /// clause would overstate it, so the contract carries the
    /// disjunction instead.
    #[verifier::loop_isolation(false)]
    pub fn write(&mut self, tx: Transaction) -> (r: Result<(), Error>)
        requires
            forall|i: int| 0 <= i < tx@.len() ==> op_storable(#[trigger] tx@[i]),
        ensures
            r is Ok ==> db_model(*final(self)) == apply_ops(db_model(*old(self)), tx@),
            r is Err ==> db_model(*final(self)) == db_model(*old(self)) || db_model(
                *final(self),
            ) == apply_ops(db_model(*old(self)), tx@),
    {
        let ghost m0 = db_model(*self);
        let ghost opsv = tx@;
        let ghost mf = apply_ops(m0, opsv);
        let mut txn = match self.begin_write() {
            Ok(t) => t,
            Err(e) => {
                return Err(Error::Engine(e));
            },
        };

        // Cache every location's root while the transaction is fresh:
        // recording one root later blanks the others' in-transaction view.
        let mut dbs: Vec<Option<TreeDb>> = Vec::new();
        let mut loc: usize = 0;
        while loc < LOCATIONS
            invariant
                loc <= LOCATIONS,
                dbs@.len() == loc,
                write_txn_fresh(txn),
                write_txn_model(txn) == m0,
                forall|j: int| #[trigger] claimed_roots(txn).contains(j) <==> 0 <= j < loc,
                forall|j: int| 0 <= j < loc ==> slot_ok(m0, m0, #[trigger] dbs@[j], j),
            decreases LOCATIONS - loc,
        {
            let slot = txn.root(loc);
            dbs.push(slot);
            loc = loc + 1;
        }

        // Apply the operations in order against the cached handles.
        let mut i: usize = 0;
        while i < tx.operations.len()
            invariant
                i <= opsv.len(),
                opsv.len() == tx.operations@.len(),
                dbs@.len() == LOCATIONS,
                write_txn_fresh(txn),
                write_txn_model(txn) == m0,
                forall|j: int|
                    0 <= j < LOCATIONS ==> slot_ok(
                        m0,
                        apply_ops(m0, opsv.take(i as int)),
                        #[trigger] dbs@[j],
                        j,
                    ),
            decreases opsv.len() - i,
        {
            let ghost cur = apply_ops(m0, opsv.take(i as int));
            let op = &tx.operations[i];
            proof {
                assert(opsv[i as int] == op@);
            }
            match op {
                Operation::Insert(kv) => {
                    let loc = kv.location();
                    let kbytes = kv.encode_key();
                    let vbytes = kv.encode_value();
                    let slot = dbs[loc].take();
                    let mut db = match open_db(&mut txn, slot) {
                        Ok(db) => db,
                        Err(e) => {
                            return Err(e);
                        },
                    };
                    match txn.put(&mut db, kbytes.as_slice(), vbytes.as_slice()) {
                        Ok(_) => (),
                        Err(e) => {
                            return Err(Error::Engine(e));
                        },
                    }
                    dbs[loc] = Some(db);
                },
                Operation::Delete(key) => {
                    let loc = key.location();
                    let kbytes = key.encode();
                    let slot = dbs[loc].take();
                    let mut db = match open_db(&mut txn, slot) {
                        Ok(db) => db,
                        Err(e) => {
                            return Err(e);
                        },
                    };
                    match txn.del(&mut db, kbytes.as_slice()) {
                        Ok(_) => (),
                        Err(e) => {
                            return Err(Error::Engine(e));
                        },
                    }
                    dbs[loc] = Some(db);
                },
            }
            i = i + 1;
            proof {
                lemma_apply_ops_snoc(m0, opsv.take(i - 1), opsv[i - 1]);
                assert(opsv.take(i - 1).push(opsv[i - 1]) =~= opsv.take(i as int));
            }
        }
        proof {
            assert(opsv.take(opsv.len() as int) =~= opsv);
        }

        // Record every cached root, then commit: the atomicity boundary.
        let mut loc: usize = 0;
        while loc < LOCATIONS
            invariant
                loc <= LOCATIONS,
                dbs@.len() == LOCATIONS,
                forall|j: int| 0 <= j < LOCATIONS ==> slot_ok(m0, mf, #[trigger] dbs@[j], j),
                forall|l: int|
                    loc <= l < LOCATIONS ==> write_txn_model(txn).dom().contains(l) == (
                    #[trigger] m0.dom().contains(l)) && (m0.dom().contains(l)
                        ==> write_txn_model(txn)[l] == m0[l]),
                forall|l: int|
                    0 <= l < loc ==> write_txn_model(txn).dom().contains(l) == (
                    #[trigger] mf.dom().contains(l)) && (mf.dom().contains(l)
                        ==> write_txn_model(txn)[l] == mf[l]),
                forall|l: int|
                    !(0 <= l < LOCATIONS) ==> write_txn_model(txn).dom().contains(l) == (
                    #[trigger] m0.dom().contains(l)) && (m0.dom().contains(l)
                        ==> write_txn_model(txn)[l] == m0[l]),
            decreases LOCATIONS - loc,
        {
            match &dbs[loc] {
                Some(db) => {
                    txn.set_root(loc, db);
                },
                None => (),
            }
            loc = loc + 1;
        }
        proof {
            let tm = write_txn_model(txn);
            assert forall|l: int| (#[trigger] tm.dom().contains(l)) == mf.dom().contains(l) by {
                if !(0 <= l < LOCATIONS) {
                    lemma_apply_ops_far(m0, opsv, l);
                    assert(write_txn_model(txn).dom().contains(l) == m0.dom().contains(l));
                }
            }
            assert forall|l: int| #[trigger] mf.dom().contains(l) implies tm[l] == mf[l] by {
                if !(0 <= l < LOCATIONS) {
                    lemma_apply_ops_far(m0, opsv, l);
                    assert(m0.dom().contains(l) ==> write_txn_model(txn)[l] == m0[l]);
                }
            }
            assert(tm.dom() =~= mf.dom());
            assert(tm =~= mf);
        }
        match self.commit(txn) {
            Ok(_) => Ok(()),
            Err(e) => Err(Error::Engine(e)),
        }
    }

    /// Point lookup against a consistent snapshot. When the key's
    /// location has no root, the key kind was never written: `Unknown`.
    /// Otherwise the key's bytes are looked up in that location's
    /// tree: a present raw value is decoded, with the key as context,
    /// into `Insert`; a miss in the existing tree is `Delete`, and so
    /// are stored bytes that do not decode under the key — the
    /// tombstone collapse the reference keeps, never a made-up value.
    /// `Delete` and `Unknown` are ordinary results; `Err` is reserved
    /// for the engine's own faults.
    pub fn get(&self, key: &Key) -> (r: Result<KeyState<Value>, Error>)
        ensures
            r matches Ok(st) ==> st@ == lookup(db_model(*self), key@),
            r matches Err(e) ==> e is Engine,
    {
        let loc = key.location();
        let kbytes = key.encode();
        let txn = match self.begin_read() {
            Ok(t) => t,
            Err(e) => {
                return Err(Error::Engine(e));
            },
        };
        let db = match txn.root(loc) {
            Some(db) => db,
            None => {
                return Ok(KeyState::Unknown);
            },
        };
        match txn.get(&db, kbytes.as_slice()) {
            Ok(Some(pair)) => {
                if pair.0 == kbytes {
                    proof {
                        assert(pair.0@ =~= kbytes@);
                    }
                    match Value::for_key(key, pair.1.as_slice()) {
                        Ok(v) => Ok(KeyState::Insert(v)),
                        Err(_) => Ok(KeyState::Delete),
                    }
                } else {
                    proof {
                        if pair.0@ == kbytes@ {
                            assert(pair.0@ =~= kbytes@);
                        }
                    }
                    Ok(KeyState::Delete)
                }
            },
            Ok(None) => Ok(KeyState::Delete),
            Err(e) => Err(Error::Engine(e)),
        }
    }
}

} // verus!
