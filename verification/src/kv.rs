//! Domain keys and values for the store, their deterministic byte
//! encodings, and the mathematical model of a partitioned store: one
//! independently rooted tree of raw byte pairs per key kind.

use crate::codec::enc_u64;
use crate::codec::Error;
use vstd::bytes::lemma_auto_spec_u64_to_from_le_bytes;
use vstd::bytes::spec_u64_from_le_bytes;
use vstd::bytes::u64_from_le_bytes;
use vstd::bytes::u64_to_le_bytes;
use vstd::prelude::*;

verus! {

/// A logical key: which record is meant, by semantic kind. Each kind
/// lives in its own partition (location), so unrelated record kinds
/// never collide inside one tree.
#[derive(Debug, Clone, PartialEq, Eq)]
pub enum Key {
    /// The height recorded for a block hash.
    BlockHeight(Vec<u8>),
    /// The block hash recorded for a height.
    BlockHash(u64),
    /// The block a transaction hash belongs to.
    TransactionBlock(Vec<u8>),
}

/// A logical value: the typed counterpart of the raw bytes stored for
/// a key. Which variant raw bytes decode to is fixed by the key kind
/// that asked for them.
#[derive(Debug, Clone, PartialEq, Eq)]
pub enum Value {
    BlockHeight(u64),
    BlockHash(Vec<u8>),
    TransactionBlock(u64),
}

/// A key together with the value to store under it; the pairing fixes
/// matching kinds by construction.
#[derive(Debug, Clone, PartialEq, Eq)]
pub enum KeyValue {
    BlockHeight(Vec<u8>, u64),
    BlockHash(u64, Vec<u8>),
    TransactionBlock(Vec<u8>, u64),
}

/// One operation of a transaction: write a pair, or remove a key.
#[derive(Debug, Clone, PartialEq, Eq)]
pub enum Operation {
    Insert(KeyValue),
    Delete(Key),
}

/// An ordered, finite batch of operations, applied as one
/// all-or-nothing unit by a single `write` call.
#[derive(Debug, Clone, PartialEq, Eq)]
pub struct Transaction {
    pub operations: Vec<Operation>,
}

/// The three answers a point lookup can give: the key is present with
/// a value, the key is absent from an existing partition (a tombstone),
/// or the key's partition was never created at all.
#[derive(Debug, Clone, PartialEq, Eq)]
pub enum KeyState<V> {
    Insert(V),
    Delete,
    Unknown,
}

/// Mathematical image of a key.
pub enum KeyV {
    BlockHeight(Seq<u8>),
    BlockHash(u64),
    TransactionBlock(Seq<u8>),
}

/// Mathematical image of a value.
pub enum ValueV {
    BlockHeight(u64),
    BlockHash(Seq<u8>),
    TransactionBlock(u64),
}

/// Mathematical image of a key-value pair.
pub enum KeyValueV {
    BlockHeight(Seq<u8>, u64),
    BlockHash(u64, Seq<u8>),
    TransactionBlock(Seq<u8>, u64),
}

/// Mathematical image of an operation.
pub enum OperationV {
    Insert(KeyValueV),
    Delete(KeyV),
}

impl View for Key {
    type V = KeyV;

    open spec fn view(&self) -> KeyV {
        match self {
            Key::BlockHeight(h) => KeyV::BlockHeight(h@),
            Key::BlockHash(n) => KeyV::BlockHash(*n),
            Key::TransactionBlock(h) => KeyV::TransactionBlock(h@),
        }
    }
}

impl View for Value {
    type V = ValueV;

    open spec fn view(&self) -> ValueV {
        match self {
            Value::BlockHeight(n) => ValueV::BlockHeight(*n),
            Value::BlockHash(h) => ValueV::BlockHash(h@),
            Value::TransactionBlock(n) => ValueV::TransactionBlock(*n),
        }
    }
}

impl View for KeyValue {
    type V = KeyValueV;

    open spec fn view(&self) -> KeyValueV {
        match self {
            KeyValue::BlockHeight(h, n) => KeyValueV::BlockHeight(h@, *n),
            KeyValue::BlockHash(n, h) => KeyValueV::BlockHash(*n, h@),
            KeyValue::TransactionBlock(h, n) => KeyValueV::TransactionBlock(h@, *n),
        }
    }
}

impl View for Operation {
    type V = OperationV;

    open spec fn view(&self) -> OperationV {
        match self {
            Operation::Insert(kv) => OperationV::Insert(kv@),
            Operation::Delete(k) => OperationV::Delete(k@),
        }
    }
}

impl View for Transaction {
    type V = Seq<OperationV>;

    open spec fn view(&self) -> Seq<OperationV> {
        self.operations@.map_values(|op: Operation| op@)
    }
}

impl<V: View> View for KeyState<V> {
    type V = KeyState<V::V>;

    open spec fn view(&self) -> KeyState<V::V> {
        match self {
            KeyState::Insert(v) => KeyState::Insert(v.view()),
            KeyState::Delete => KeyState::Delete,
            KeyState::Unknown => KeyState::Unknown,
        }
    }
}

/// The partition (root slot) a key kind lives in. Fixed by the kind
/// alone: no operation ever writes outside its key's location.
pub open spec fn key_location(k: KeyV) -> int {
    match k {
        KeyV::BlockHeight(_) => 0,
        KeyV::BlockHash(_) => 1,
        KeyV::TransactionBlock(_) => 2,
    }
}

/// How many partitions there are.
pub const LOCATIONS: usize = 3;

/// The deterministic byte encoding of a key inside its partition.
pub open spec fn key_bytes(k: KeyV) -> Seq<u8> {
    match k {
        KeyV::BlockHeight(h) => h,
        KeyV::BlockHash(n) => enc_u64(n),
        KeyV::TransactionBlock(h) => h,
    }
}

/// The deterministic byte encoding of a value.
pub open spec fn value_bytes(v: ValueV) -> Seq<u8> {
    match v {
        ValueV::BlockHeight(n) => enc_u64(n),
        ValueV::BlockHash(h) => h,
        ValueV::TransactionBlock(n) => enc_u64(n),
    }
}

/// The key of a pair.
pub open spec fn kv_key(kv: KeyValueV) -> KeyV {
    match kv {
        KeyValueV::BlockHeight(h, _) => KeyV::BlockHeight(h),
        KeyValueV::BlockHash(n, _) => KeyV::BlockHash(n),
        KeyValueV::TransactionBlock(h, _) => KeyV::TransactionBlock(h),
    }
}

/// The value of a pair.
pub open spec fn kv_value(kv: KeyValueV) -> ValueV {
    match kv {
        KeyValueV::BlockHeight(_, n) => ValueV::BlockHeight(n),
        KeyValueV::BlockHash(_, h) => ValueV::BlockHash(h),
        KeyValueV::TransactionBlock(_, n) => ValueV::TransactionBlock(n),
    }
}

/// How raw stored bytes decode into a typed value, directed by the key
/// kind that asked. The word-valued kinds demand exactly eight bytes;
/// a hash-valued kind takes the bytes as they are.
pub open spec fn dec_value(k: KeyV, raw: Seq<u8>) -> Option<ValueV> {
    match k {
        KeyV::BlockHeight(_) => if raw.len() == 8 {
            Some(ValueV::BlockHeight(spec_u64_from_le_bytes(raw)))
        } else {
            None
        },
        KeyV::BlockHash(_) => Some(ValueV::BlockHash(raw)),
        KeyV::TransactionBlock(_) => if raw.len() == 8 {
            Some(ValueV::TransactionBlock(spec_u64_from_le_bytes(raw)))
        } else {
            None
        },
    }
}

/// What the underlying engine can store as one key or one value.
pub open spec fn storable(b: Seq<u8>) -> bool {
    1 <= b.len() <= 510
}

/// Whether a pair can be handed to the engine.
pub open spec fn op_storable(op: OperationV) -> bool {
    match op {
        OperationV::Insert(kv) => storable(key_bytes(kv_key(kv))) && storable(
            value_bytes(kv_value(kv)),
        ),
        OperationV::Delete(k) => key_bytes(k).len() <= 510,
    }
}

/// The store's mathematical model: for each location that has been
/// written at least once, the map of raw key bytes to raw value bytes
/// held by that location's tree.
pub type StoreModel = Map<int, Map<Seq<u8>, Seq<u8>>>;

/// The empty tree of raw byte pairs.
pub open spec fn empty_tree() -> Map<Seq<u8>, Seq<u8>> {
    Map::empty()
}

/// The tree of a location, empty if the location was never written.
pub open spec fn loc_tree(m: StoreModel, loc: int) -> Map<Seq<u8>, Seq<u8>> {
    if m.dom().contains(loc) {
        m[loc]
    } else {
        empty_tree()
    }
}

/// One operation applied to the model. Either kind creates the
/// location's tree if it did not exist: roots appear on first write.
pub open spec fn apply_op(m: StoreModel, op: OperationV) -> StoreModel {
    match op {
        OperationV::Insert(kv) => {
            let loc = key_location(kv_key(kv));
            m.insert(
                loc,
                loc_tree(m, loc).insert(key_bytes(kv_key(kv)), value_bytes(kv_value(kv))),
            )
        },
        OperationV::Delete(k) => {
            let loc = key_location(k);
            m.insert(loc, loc_tree(m, loc).remove(key_bytes(k)))
        },
    }
}

/// A whole batch applied to the model, in order.
pub open spec fn apply_ops(m: StoreModel, ops: Seq<OperationV>) -> StoreModel
    decreases ops.len(),
{
    if ops.len() == 0 {
        m
    } else {
        apply_ops(apply_op(m, ops[0]), ops.skip(1))
    }
}

/// The tri-state answer of a point lookup against the model: `Unknown`
/// when the key's location has no tree at all, `Delete` when the tree
/// exists but holds nothing decodable under the key, and `Insert` with
/// the decoded value otherwise.
pub open spec fn lookup(m: StoreModel, k: KeyV) -> KeyState<ValueV> {
    let loc = key_location(k);
    let kb = key_bytes(k);
    if !m.dom().contains(loc) {
        KeyState::Unknown
    } else if !m[loc].dom().contains(kb) {
        KeyState::Delete
    } else {
        match dec_value(k, m[loc][kb]) {
            Some(v) => KeyState::Insert(v),
            None => KeyState::Delete,
        }
    }
}

/// Applying a batch one operation longer applies the last operation to
/// the result of the shorter batch.
pub proof fn lemma_apply_ops_snoc(m: StoreModel, ops: Seq<OperationV>, op: OperationV)
    ensures
        apply_ops(m, ops.push(op)) == apply_op(apply_ops(m, ops), op),
    decreases ops.len(),
{
    if ops.len() == 0 {
        reveal_with_fuel(apply_ops, 2);
        assert(ops.push(op).skip(1) =~= Seq::<OperationV>::empty());
        assert(ops.push(op)[0] == op);
    } else {
        assert(ops.push(op)[0] == ops[0]);
        assert(ops.push(op).skip(1) =~= ops.skip(1).push(op));
        lemma_apply_ops_snoc(apply_op(m, ops[0]), ops.skip(1), op);
    }
}

/// A value decodes back from its own encoding under its own key: the
/// pairing of kinds in `KeyValue` makes storage lossless.
pub proof fn lemma_value_round_trip(kv: KeyValueV)
    ensures
        dec_value(kv_key(kv), value_bytes(kv_value(kv))) == Some(kv_value(kv)),
{
    lemma_auto_spec_u64_to_from_le_bytes();
}

/// Tri-state lookup law. For a location never written, lookup answers
/// `Unknown`; right after a pair is inserted, lookup on its key answers
/// `Insert` with exactly that value; right after the key is deleted,
/// lookup answers `Delete`.
pub proof fn lemma_tri_state(m: StoreModel, kv: KeyValueV)
    ensures
        !m.dom().contains(key_location(kv_key(kv))) ==> lookup(m, kv_key(kv)) == KeyState::<
            ValueV,
        >::Unknown,
        lookup(apply_op(m, OperationV::Insert(kv)), kv_key(kv)) == KeyState::Insert(kv_value(kv)),
        lookup(apply_op(m, OperationV::Delete(kv_key(kv))), kv_key(kv)) == KeyState::<
            ValueV,
        >::Delete,
{
    lemma_value_round_trip(kv);
}

/// Partition isolation law. An operation on one key kind never changes
/// what a lookup under a key of another location observes, even when
/// the two keys share the same byte encoding.
pub proof fn lemma_partition_isolation(m: StoreModel, op: OperationV, other: KeyV)
    requires
        match op {
            OperationV::Insert(kv) => key_location(kv_key(kv)) != key_location(other),
            OperationV::Delete(k) => key_location(k) != key_location(other),
        },
    ensures
        lookup(apply_op(m, op), other) == lookup(m, other),
{
}

impl Key {
    /// The partition this key lives in.
    pub fn location(&self) -> (loc: usize)
        ensures
            loc == key_location(self@),
            loc < LOCATIONS,
    {
        match self {
            Key::BlockHeight(_) => 0,
            Key::BlockHash(_) => 1,
            Key::TransactionBlock(_) => 2,
        }
    }

    /// This key's deterministic byte encoding inside its partition.
    pub fn encode(&self) -> (raw: Vec<u8>)
        ensures
            raw@ == key_bytes(self@),
    {
        match self {
            Key::BlockHeight(h) => h.clone(),
            Key::BlockHash(n) => u64_to_le_bytes(*n),
            Key::TransactionBlock(h) => h.clone(),
        }
    }
}

impl Value {
    /// Decodes raw stored bytes into a typed value, using the key that
    /// asked for them as context. Fails with a decode error when the
    /// bytes do not have the shape the key kind demands.
    pub fn for_key(key: &Key, raw: &[u8]) -> (r: Result<Value, Error>)
        ensures
            match dec_value(key@, raw@) {
                Some(v) => r matches Ok(val) && val@ == v,
                None => r == Err::<Value, Error>(Error::Truncated),
            },
    {
        match key {
            Key::BlockHeight(_) => {
                if raw.len() == 8 {
                    Ok(Value::BlockHeight(u64_from_le_bytes(raw)))
                } else {
                    Err(Error::Truncated)
                }
            },
            Key::BlockHash(_) => Ok(Value::BlockHash(vstd::slice::slice_to_vec(raw))),
            Key::TransactionBlock(_) => {
                if raw.len() == 8 {
                    Ok(Value::TransactionBlock(u64_from_le_bytes(raw)))
                } else {
                    Err(Error::Truncated)
                }
            },
        }
    }
}

impl KeyValue {
    /// The key this pair is stored under.
    pub fn key(&self) -> (k: Key)
        ensures
            k@ == kv_key(self@),
    {
        match self {
            KeyValue::BlockHeight(h, _) => Key::BlockHeight(h.clone()),
            KeyValue::BlockHash(n, _) => Key::BlockHash(*n),
            KeyValue::TransactionBlock(h, _) => Key::TransactionBlock(h.clone()),
        }
    }

    /// The partition this pair lives in.
    pub fn location(&self) -> (loc: usize)
        ensures
            loc == key_location(kv_key(self@)),
            loc < LOCATIONS,
    {
        match self {
            KeyValue::BlockHeight(_, _) => 0,
            KeyValue::BlockHash(_, _) => 1,
            KeyValue::TransactionBlock(_, _) => 2,
        }
    }

    /// The byte encoding of this pair's key.
    pub fn encode_key(&self) -> (raw: Vec<u8>)
        ensures
            raw@ == key_bytes(kv_key(self@)),
    {
        match self {
            KeyValue::BlockHeight(h, _) => h.clone(),
            KeyValue::BlockHash(n, _) => u64_to_le_bytes(*n),
            KeyValue::TransactionBlock(h, _) => h.clone(),
        }
    }

    /// The byte encoding of this pair's value.
    pub fn encode_value(&self) -> (raw: Vec<u8>)
        ensures
            raw@ == value_bytes(kv_value(self@)),
    {
        match self {
            KeyValue::BlockHeight(_, n) => u64_to_le_bytes(*n),
            KeyValue::BlockHash(_, h) => h.clone(),
            KeyValue::TransactionBlock(_, n) => u64_to_le_bytes(*n),
        }
    }
}

impl Transaction {
    /// An empty batch.
    pub fn new() -> (tx: Transaction)
        ensures
            tx@ == Seq::<OperationV>::empty(),
    {
        Transaction { operations: Vec::new() }
    }

    /// Appends an insert operation.
    pub fn insert(&mut self, kv: KeyValue)
        ensures
            final(self)@ == old(self)@.push(OperationV::Insert(kv@)),
    {
        let ghost prev = self@;
        self.operations.push(Operation::Insert(kv));
        proof {
            assert(self@ =~= prev.push(OperationV::Insert(kv@)));
        }
    }

    /// Appends a delete operation.
    pub fn delete(&mut self, key: Key)
        ensures
            final(self)@ == old(self)@.push(OperationV::Delete(key@)),
    {
        let ghost prev = self@;
        self.operations.push(Operation::Delete(key));
        proof {
            assert(self@ =~= prev.push(OperationV::Delete(key@)));
        }
    }
}

} // verus!

