//! What a backend holds, and what the writes of the store do to it: a model
//! of the key-value backend in which the writes can be reasoned about.

use crate::model::client::Client;
use crate::model::dispute::DisputeView;
use crate::model::id::{lemma_numeric_id_injective, lemma_numeric_id_value, numeric_id, ID_LENGTH};
use crate::model::transaction::Transaction;
use crate::store::atomic_write::WriteOpView;
use crate::store::client::{client_steps, CLIENTS_SET_KEY, CLIENT_KEY, CLIENT_REVISION_KEY};
use crate::store::dispute::{
    client_disputes_key, close_dispute_steps, open_dispute_steps, process_dispute_steps,
    remove_dispute_steps, CLIENT_DISPUTES_SET_KEY, DISPUTE_KEY, DISPUTE_REVISION_KEY,
    REFERENCE_TX_DISPUTE_KEY,
};
use crate::store::store_key::{
    decimal, entity_key, lemma_entities_have_their_own_keys, member_set_key, revision_key,
    SEPARATOR,
};
use crate::store::transaction::{
    process_transaction_steps, transaction_steps, TRANSACTIONS_SET_KEY, TRANSACTION_KEY,
    TRANSACTION_REVISION_KEY,
};
use vstd::prelude::*;
use vstd::string::*;

verus! {

/// What a backend holds: a value under each key that is taken, and the
/// members of each sorted set with their scores.
pub struct Contents {
    pub values: Map<Seq<u8>, Seq<u8>>,
    pub sets: Map<Seq<u8>, Map<Seq<u8>, i64>>,
}

impl Contents {
    /// The members of the sorted set `key`, each with its score.
    pub open spec fn members(self, key: Seq<u8>) -> Map<Seq<u8>, i64> {
        if self.sets.contains_key(key) {
            self.sets[key]
        } else {
            Map::empty()
        }
    }

    /// What is held once one step is carried out.
    pub open spec fn apply(self, op: WriteOpView) -> Contents {
        match op {
            WriteOpView::SetKey { key, value } => Contents {
                values: self.values.insert(key, value),
                sets: self.sets,
            },
            WriteOpView::SetNx { key, value } => Contents {
                values: self.values.insert(key, value),
                sets: self.sets,
            },
            WriteOpView::ZAdd { key, member, score } => Contents {
                values: self.values,
                sets: self.sets.insert(key, self.members(key).insert(member, score)),
            },
            WriteOpView::ZRem { key, member } => Contents {
                values: self.values,
                sets: self.sets.insert(key, self.members(key).remove(member)),
            },
        }
    }

    /// What is held once all steps are carried out, in their order.
    pub open spec fn apply_all(self, ops: Seq<WriteOpView>) -> Contents
        decreases ops.len(),
    {
        if ops.len() == 0 {
            self
        } else {
            self.apply_all(ops.drop_last()).apply(ops.last())
        }
    }

    /// Whether a write is refused: one of its steps needs a key to be free
    /// that is taken.
    pub open spec fn refuses(self, ops: Seq<WriteOpView>) -> bool {
        exists|i: int|
            0 <= i < ops.len() && (#[trigger] ops[i]) is SetNx && self.values.contains_key(
                ops[i]->SetNx_key,
            )
    }

    /// What is held after an atomic write, or nothing where it is refused.
    /// A refused write changes nothing.
    pub open spec fn commit(self, ops: Seq<WriteOpView>) -> Option<Contents> {
        if self.refuses(ops) {
            None
        } else {
            Some(self.apply_all(ops))
        }
    }
}

/// Whether a step puts a value under `key` whatever is there.
pub open spec fn overwrites(op: WriteOpView, key: Seq<u8>) -> bool {
    op is SetKey && op->SetKey_key == key
}

/// A write that is carried out leaves every value as it is that none of its
/// steps overwrites.
pub proof fn lemma_commit_keeps_values(contents: Contents, ops: Seq<WriteOpView>, key: Seq<u8>)
    requires
        contents.values.contains_key(key),
        !contents.refuses(ops),
        forall|i: int| 0 <= i < ops.len() ==> !overwrites(#[trigger] ops[i], key),
    ensures
        contents.apply_all(ops).values.contains_key(key),
        contents.apply_all(ops).values[key] == contents.values[key],
    decreases ops.len(),
{
    if ops.len() > 0 {
        let head = ops.drop_last();
        assert forall|i: int| 0 <= i < head.len() implies !overwrites(#[trigger] head[i], key) by {
            assert(head[i] == ops[i]);
        }
        if contents.refuses(head) {
            let i = choose|i: int|
                0 <= i < head.len() && (#[trigger] head[i]) is SetNx
                    && contents.values.contains_key(head[i]->SetNx_key);
            assert(ops[i] == head[i]);
        }
        lemma_commit_keeps_values(contents, head, key);
        let last = ops.last();
        assert(last == ops[ops.len() - 1]);
        assert(!overwrites(last, key));
        if last is SetNx {
            assert(!contents.values.contains_key(last->SetNx_key));
        }
    }
}

/// A write with a step that needs a taken key to be free is refused.
pub proof fn lemma_taken_key_refuses(contents: Contents, ops: Seq<WriteOpView>, i: int)
    requires
        0 <= i < ops.len(),
        ops[i] is SetNx,
        contents.values.contains_key(ops[i]->SetNx_key),
    ensures
        contents.commit(ops).is_none(),
{
}

/// The bytes with which every key of the key space `kind` begins.
pub open spec fn key_space(kind: &str) -> Seq<u8> {
    kind.spec_bytes() + SEPARATOR.spec_bytes()
}

/// The bytes of the names of the key spaces.
proof fn lemma_key_space_bytes()
    ensures
        key_space(CLIENT_KEY) =~= seq![99u8, 108, 105, 101, 110, 116, 58],
        key_space(DISPUTE_KEY) =~= seq![100u8, 105, 115, 112, 117, 116, 101, 58],
        key_space(REFERENCE_TX_DISPUTE_KEY).len() == 21,
        key_space(REFERENCE_TX_DISPUTE_KEY)[0] == 114u8,
        key_space(CLIENT_REVISION_KEY).len() == 16,
        key_space(CLIENT_REVISION_KEY)[0] == 99u8,
        key_space(CLIENT_REVISION_KEY)[6] == 95u8,
        key_space(TRANSACTION_REVISION_KEY).len() == 21,
        key_space(TRANSACTION_REVISION_KEY)[0] == 116u8,
        key_space(DISPUTE_REVISION_KEY).len() == 17,
        key_space(DISPUTE_REVISION_KEY)[0] == 100u8,
        key_space(DISPUTE_REVISION_KEY)[7] == 95u8,
{
    reveal_strlit(":");
    reveal_strlit("client");
    reveal_strlit("dispute");
    reveal_strlit("reference_tx_dispute");
    reveal_strlit("client_revision");
    reveal_strlit("transaction_revision");
    reveal_strlit("dispute_revision");
    is_ascii_spec_bytes(SEPARATOR);
    is_ascii_spec_bytes(CLIENT_KEY);
    is_ascii_spec_bytes(DISPUTE_KEY);
    is_ascii_spec_bytes(REFERENCE_TX_DISPUTE_KEY);
    is_ascii_spec_bytes(CLIENT_REVISION_KEY);
    is_ascii_spec_bytes(TRANSACTION_REVISION_KEY);
    is_ascii_spec_bytes(DISPUTE_REVISION_KEY);
}

/// Whether `key` lies in the key space `kind`.
pub open spec fn in_key_space(key: Seq<u8>, kind: &str) -> bool {
    key.len() >= key_space(kind).len() && key.subrange(0, key_space(kind).len() as int)
        == key_space(kind)
}

/// Whether `key` is one under which the current revision of a client or a
/// dispute is kept, or the way from a transaction to its dispute.
pub open spec fn is_current_key(key: Seq<u8>) -> bool {
    in_key_space(key, CLIENT_KEY) || in_key_space(key, DISPUTE_KEY) || in_key_space(
        key,
        REFERENCE_TX_DISPUTE_KEY,
    )
}

/// Whether `key` is one under which a numbered revision is kept.
pub open spec fn is_revision_key(key: Seq<u8>) -> bool {
    in_key_space(key, CLIENT_REVISION_KEY) || in_key_space(key, TRANSACTION_REVISION_KEY)
        || in_key_space(key, DISPUTE_REVISION_KEY)
}

/// Whether a write overwrites nothing but current revisions.
pub open spec fn overwrites_current_only(ops: Seq<WriteOpView>) -> bool {
    forall|i: int|
        0 <= i < ops.len() && (#[trigger] ops[i]) is SetKey ==> is_current_key(
            ops[i]->SetKey_key,
        )
}

/// The key of an entity lies in the key space of its kind.
pub proof fn lemma_entity_key_space(kind: &str, id: Seq<u8>)
    ensures
        in_key_space(entity_key(kind, id), kind),
{
    let key = entity_key(kind, id);
    assert(key =~= key_space(kind) + id);
    assert(key.subrange(0, key_space(kind).len() as int) =~= key_space(kind));
}

/// The key of a revision lies in the key space of its kind.
pub proof fn lemma_revision_key_space(kind: &str, id: Seq<u8>, n: u32)
    ensures
        in_key_space(revision_key(kind, id, n), kind),
{
    let key = revision_key(kind, id, n);
    assert(key =~= key_space(kind) + (id + SEPARATOR.spec_bytes() + decimal(n as nat)));
    assert(key.subrange(0, key_space(kind).len() as int) =~= key_space(kind));
}

/// A key lies in one key space only, of two that differ at some byte.
proof fn lemma_one_key_space(key: Seq<u8>, a: &str, b: &str, i: int)
    requires
        0 <= i < key_space(a).len(),
        i < key_space(b).len(),
        key_space(a)[i] != key_space(b)[i],
    ensures
        !(in_key_space(key, a) && in_key_space(key, b)),
{
    if in_key_space(key, a) && in_key_space(key, b) {
        assert(key.subrange(0, key_space(a).len() as int)[i] == key[i]);
        assert(key.subrange(0, key_space(b).len() as int)[i] == key[i]);
    }
}

/// No key is both that of a current revision and that of a numbered one.
pub proof fn lemma_current_is_no_revision(key: Seq<u8>)
    ensures
        !(is_current_key(key) && is_revision_key(key)),
{
    lemma_key_space_bytes();
    lemma_one_key_space(key, CLIENT_KEY, CLIENT_REVISION_KEY, 6);
    lemma_one_key_space(key, CLIENT_KEY, TRANSACTION_REVISION_KEY, 0);
    lemma_one_key_space(key, CLIENT_KEY, DISPUTE_REVISION_KEY, 0);
    lemma_one_key_space(key, DISPUTE_KEY, CLIENT_REVISION_KEY, 0);
    lemma_one_key_space(key, DISPUTE_KEY, TRANSACTION_REVISION_KEY, 0);
    lemma_one_key_space(key, DISPUTE_KEY, DISPUTE_REVISION_KEY, 7);
    lemma_one_key_space(key, REFERENCE_TX_DISPUTE_KEY, CLIENT_REVISION_KEY, 0);
    lemma_one_key_space(key, REFERENCE_TX_DISPUTE_KEY, TRANSACTION_REVISION_KEY, 0);
    lemma_one_key_space(key, REFERENCE_TX_DISPUTE_KEY, DISPUTE_REVISION_KEY, 0);
}

/// A numbered revision that is kept stays as it is through every write that
/// is carried out and overwrites nothing but current revisions.
pub proof fn lemma_revisions_are_kept(contents: Contents, ops: Seq<WriteOpView>, key: Seq<u8>)
    requires
        overwrites_current_only(ops),
        is_revision_key(key),
        contents.values.contains_key(key),
        contents.commit(ops).is_some(),
    ensures
        contents.commit(ops).unwrap().values.contains_key(key),
        contents.commit(ops).unwrap().values[key] == contents.values[key],
{
    lemma_current_is_no_revision(key);
    lemma_commit_keeps_values(contents, ops, key);
}

/// A transaction that is in the ledger stays as it is through every write
/// that is carried out and overwrites nothing but current revisions.
pub proof fn lemma_transactions_are_kept(contents: Contents, ops: Seq<WriteOpView>, key: Seq<u8>)
    requires
        overwrites_current_only(ops),
        in_key_space(key, TRANSACTION_KEY),
        contents.values.contains_key(key),
        contents.commit(ops).is_some(),
    ensures
        contents.commit(ops).unwrap().values.contains_key(key),
        contents.commit(ops).unwrap().values[key] == contents.values[key],
{
    lemma_key_space_bytes();
    lemma_set_key_bytes();
    lemma_one_key_space(key, CLIENT_KEY, TRANSACTION_KEY, 0);
    lemma_one_key_space(key, DISPUTE_KEY, TRANSACTION_KEY, 0);
    lemma_one_key_space(key, REFERENCE_TX_DISPUTE_KEY, TRANSACTION_KEY, 0);
    lemma_commit_keeps_values(contents, ops, key);
}

/// The writes of the store overwrite nothing but current revisions.
pub proof fn lemma_store_writes_overwrite_current_only(
    client: Client,
    serialized_client: Seq<u8>,
    create: bool,
    transaction: Transaction,
    serialized_transaction: Seq<u8>,
    listed_at: i64,
    dispute: DisputeView,
    serialized_dispute: Seq<u8>,
)
    ensures
        overwrites_current_only(client_steps(client, serialized_client, create)),
        overwrites_current_only(
            process_transaction_steps(
                client,
                serialized_client,
                transaction,
                serialized_transaction,
                listed_at,
            ),
        ),
        overwrites_current_only(
            process_dispute_steps(client, serialized_client, dispute, serialized_dispute),
        ),
        overwrites_current_only(
            remove_dispute_steps(client, serialized_client, dispute, serialized_dispute),
        ),
{
    lemma_entity_key_space(CLIENT_KEY, numeric_id(client.id as u32));
    lemma_entity_key_space(DISPUTE_KEY, dispute.id);
    lemma_entity_key_space(REFERENCE_TX_DISPUTE_KEY, numeric_id(dispute.referenced_tx.tx));
}

/// No revision of a client is written twice: every write of the store for a
/// client revision whose number is taken is refused.
pub proof fn lemma_client_revision_is_written_once(
    contents: Contents,
    client: Client,
    serialized_client: Seq<u8>,
    create: bool,
    transaction: Transaction,
    serialized_transaction: Seq<u8>,
    listed_at: i64,
    dispute: DisputeView,
    serialized_dispute: Seq<u8>,
)
    requires
        contents.values.contains_key(
            revision_key(
                CLIENT_REVISION_KEY,
                numeric_id(client.id as u32),
                client.revision_number,
            ),
        ),
    ensures
        contents.commit(client_steps(client, serialized_client, create)).is_none(),
        contents.commit(
            process_transaction_steps(
                client,
                serialized_client,
                transaction,
                serialized_transaction,
                listed_at,
            ),
        ).is_none(),
        contents.commit(
            process_dispute_steps(client, serialized_client, dispute, serialized_dispute),
        ).is_none(),
        contents.commit(
            remove_dispute_steps(client, serialized_client, dispute, serialized_dispute),
        ).is_none(),
{
    lemma_taken_key_refuses(contents, client_steps(client, serialized_client, create), 2);
    lemma_taken_key_refuses(
        contents,
        process_transaction_steps(
            client,
            serialized_client,
            transaction,
            serialized_transaction,
            listed_at,
        ),
        2,
    );
    lemma_taken_key_refuses(
        contents,
        process_dispute_steps(client, serialized_client, dispute, serialized_dispute),
        2,
    );
    lemma_taken_key_refuses(
        contents,
        remove_dispute_steps(client, serialized_client, dispute, serialized_dispute),
        2,
    );
}

/// No transaction is entered twice: the write of a transaction whose id is
/// in the ledger is refused.
pub proof fn lemma_transaction_is_written_once(
    contents: Contents,
    client: Client,
    serialized_client: Seq<u8>,
    transaction: Transaction,
    serialized_transaction: Seq<u8>,
    listed_at: i64,
)
    requires
        contents.values.contains_key(entity_key(TRANSACTION_KEY, numeric_id(transaction.tx))),
    ensures
        contents.commit(
            process_transaction_steps(
                client,
                serialized_client,
                transaction,
                serialized_transaction,
                listed_at,
            ),
        ).is_none(),
{
    lemma_taken_key_refuses(
        contents,
        process_transaction_steps(
            client,
            serialized_client,
            transaction,
            serialized_transaction,
            listed_at,
        ),
        4,
    );
}

/// No revision of a dispute is written twice: the write that opens or closes
/// a dispute with a revision whose number is taken is refused.
pub proof fn lemma_dispute_revision_is_written_once(
    contents: Contents,
    client: Client,
    serialized_client: Seq<u8>,
    dispute: DisputeView,
    serialized_dispute: Seq<u8>,
)
    requires
        contents.values.contains_key(
            revision_key(DISPUTE_REVISION_KEY, dispute.id, dispute.revision_number),
        ),
    ensures
        contents.commit(
            process_dispute_steps(client, serialized_client, dispute, serialized_dispute),
        ).is_none(),
        contents.commit(
            remove_dispute_steps(client, serialized_client, dispute, serialized_dispute),
        ).is_none(),
{
    lemma_taken_key_refuses(
        contents,
        process_dispute_steps(client, serialized_client, dispute, serialized_dispute),
        4,
    );
    lemma_taken_key_refuses(
        contents,
        remove_dispute_steps(client, serialized_client, dispute, serialized_dispute),
        4,
    );
}

/// A transaction has one dispute at most: the write that opens a dispute
/// against a transaction that leads to a dispute already is refused.
pub proof fn lemma_disputed_transaction_refuses_dispute(
    contents: Contents,
    client: Client,
    serialized_client: Seq<u8>,
    dispute: DisputeView,
    serialized_dispute: Seq<u8>,
)
    requires
        contents.values.contains_key(
            entity_key(REFERENCE_TX_DISPUTE_KEY, numeric_id(dispute.referenced_tx.tx)),
        ),
    ensures
        contents.commit(
            process_dispute_steps(client, serialized_client, dispute, serialized_dispute),
        ).is_none(),
{
    lemma_taken_key_refuses(
        contents,
        process_dispute_steps(client, serialized_client, dispute, serialized_dispute),
        5,
    );
}

/// A client is entered once: the write that enters a new client under an id
/// that is taken is refused.
pub proof fn lemma_client_is_added_once(contents: Contents, client: Client, serialized: Seq<u8>)
    requires
        contents.values.contains_key(entity_key(CLIENT_KEY, numeric_id(client.id as u32))),
    ensures
        contents.commit(client_steps(client, serialized, true)).is_none(),
{
    lemma_taken_key_refuses(contents, client_steps(client, serialized, true), 1);
}

/// Whether a step puts a value under `key`.
pub open spec fn puts(op: WriteOpView, key: Seq<u8>) -> bool {
    ||| op is SetKey && op->SetKey_key == key
    ||| op is SetNx && op->SetNx_key == key
}

/// Whether a step changes the sorted set `key`.
pub open spec fn changes_set(op: WriteOpView, key: Seq<u8>) -> bool {
    ||| op is ZAdd && op->ZAdd_key == key
    ||| op is ZRem && op->ZRem_key == key
}

/// Steps that put nothing under a key leave it as it is.
pub proof fn lemma_apply_keeps_value(contents: Contents, ops: Seq<WriteOpView>, key: Seq<u8>)
    requires
        forall|i: int| 0 <= i < ops.len() ==> !puts(#[trigger] ops[i], key),
    ensures
        contents.apply_all(ops).values.contains_key(key) == contents.values.contains_key(key),
        contents.apply_all(ops).values.contains_key(key) ==> contents.apply_all(ops).values[key]
            == contents.values[key],
    decreases ops.len(),
{
    if ops.len() > 0 {
        let head = ops.drop_last();
        assert forall|i: int| 0 <= i < head.len() implies !puts(#[trigger] head[i], key) by {
            assert(head[i] == ops[i]);
        }
        lemma_apply_keeps_value(contents, head, key);
        assert(!puts(ops[ops.len() - 1], key));
    }
}

/// Steps that do not change a sorted set leave its members as they are.
pub proof fn lemma_apply_keeps_set(contents: Contents, ops: Seq<WriteOpView>, key: Seq<u8>)
    requires
        forall|i: int| 0 <= i < ops.len() ==> !changes_set(#[trigger] ops[i], key),
    ensures
        contents.apply_all(ops).members(key) == contents.members(key),
    decreases ops.len(),
{
    if ops.len() > 0 {
        let head = ops.drop_last();
        assert forall|i: int| 0 <= i < head.len() implies !changes_set(#[trigger] head[i], key) by {
            assert(head[i] == ops[i]);
        }
        lemma_apply_keeps_set(contents, head, key);
        assert(!changes_set(ops[ops.len() - 1], key));
    }
}

/// Carrying out two runs of steps one after the other is carrying out both
/// as one.
pub proof fn lemma_apply_all_concat(
    contents: Contents,
    first: Seq<WriteOpView>,
    then: Seq<WriteOpView>,
)
    ensures
        contents.apply_all(first + then) == contents.apply_all(first).apply_all(then),
    decreases then.len(),
{
    if then.len() == 0 {
        assert(first + then =~= first);
    } else {
        lemma_apply_all_concat(contents, first, then.drop_last());
        assert((first + then).drop_last() =~= first + then.drop_last());
        assert((first + then).last() == then.last());
    }
}

/// Whether the client revision `client`, stored as `frame`, is the current
/// one in `contents`: it is found under the key of its client and under the
/// key of its revision, and its client stands in the index of clients at the
/// time of the revision.
pub open spec fn holds_client(contents: Contents, client: Client, frame: Seq<u8>) -> bool {
    let id = numeric_id(client.id as u32);
    &&& contents.values.contains_key(entity_key(CLIENT_KEY, id))
    &&& contents.values[entity_key(CLIENT_KEY, id)] == frame
    &&& contents.values.contains_key(
        revision_key(CLIENT_REVISION_KEY, id, client.revision_number),
    )
    &&& contents.values[revision_key(CLIENT_REVISION_KEY, id, client.revision_number)] == frame
    &&& contents.members(CLIENTS_SET_KEY.spec_bytes()).contains_key(id)
    &&& contents.members(CLIENTS_SET_KEY.spec_bytes())[id] == client.revision_time
}

/// The bytes of the names of the sorted sets and of the other key spaces.
proof fn lemma_set_key_bytes()
    ensures
        CLIENTS_SET_KEY.spec_bytes() =~= seq![99u8, 108, 105, 101, 110, 116, 115],
        TRANSACTIONS_SET_KEY.spec_bytes().len() == 12,
        TRANSACTIONS_SET_KEY.spec_bytes()[0] == 116u8,
        key_space(CLIENT_DISPUTES_SET_KEY).len() == 16,
        key_space(CLIENT_DISPUTES_SET_KEY)[6] == 95u8,
        key_space(TRANSACTION_KEY).len() == 12,
        key_space(TRANSACTION_KEY)[0] == 116u8,
{
    reveal_strlit(":");
    reveal_strlit("clients");
    reveal_strlit("transactions");
    reveal_strlit("client_disputes");
    reveal_strlit("transaction");
    is_ascii_spec_bytes(SEPARATOR);
    is_ascii_spec_bytes(CLIENTS_SET_KEY);
    is_ascii_spec_bytes(TRANSACTIONS_SET_KEY);
    is_ascii_spec_bytes(CLIENT_DISPUTES_SET_KEY);
    is_ascii_spec_bytes(TRANSACTION_KEY);
}

/// The steps for a transaction touch neither the records of a client nor
/// the index of clients.
proof fn lemma_transaction_steps_leave_clients(
    client_id: u16,
    transaction: Transaction,
    serialized: Seq<u8>,
    listed_at: i64,
    id: Seq<u8>,
    n: u32,
)
    ensures
        forall|i: int|
            0 <= i < transaction_steps(client_id, transaction, serialized, listed_at).len() ==> {
                let op = #[trigger] transaction_steps(
                    client_id,
                    transaction,
                    serialized,
                    listed_at,
                )[i];
                &&& !puts(op, entity_key(CLIENT_KEY, id))
                &&& !puts(op, revision_key(CLIENT_REVISION_KEY, id, n))
                &&& !changes_set(op, CLIENTS_SET_KEY.spec_bytes())
            },
{
    lemma_key_space_bytes();
    lemma_set_key_bytes();
    let tx_id = numeric_id(transaction.tx);
    let ck = entity_key(CLIENT_KEY, id);
    let rk = revision_key(CLIENT_REVISION_KEY, id, n);
    lemma_entity_key_space(CLIENT_KEY, id);
    lemma_revision_key_space(CLIENT_REVISION_KEY, id, n);
    lemma_entity_key_space(TRANSACTION_KEY, tx_id);
    lemma_revision_key_space(TRANSACTION_REVISION_KEY, tx_id, transaction.revision_number);
    lemma_one_key_space(ck, CLIENT_KEY, TRANSACTION_KEY, 0);
    lemma_one_key_space(ck, CLIENT_KEY, TRANSACTION_REVISION_KEY, 0);
    lemma_one_key_space(rk, CLIENT_REVISION_KEY, TRANSACTION_KEY, 0);
    lemma_one_key_space(rk, CLIENT_REVISION_KEY, TRANSACTION_REVISION_KEY, 0);
    let own = member_set_key(TRANSACTIONS_SET_KEY, CLIENT_KEY, numeric_id(client_id as u32));
    assert(own[0] == TRANSACTIONS_SET_KEY.spec_bytes()[0]);
}

/// The steps that open or close a dispute touch neither the records of a
/// client nor the index of clients.
proof fn lemma_dispute_steps_leave_clients(
    client_id: u16,
    dispute: DisputeView,
    serialized: Seq<u8>,
    id: Seq<u8>,
    n: u32,
)
    ensures
        forall|i: int|
            0 <= i < open_dispute_steps(client_id, dispute, serialized).len() ==> {
                let op = #[trigger] open_dispute_steps(client_id, dispute, serialized)[i];
                &&& !puts(op, entity_key(CLIENT_KEY, id))
                &&& !puts(op, revision_key(CLIENT_REVISION_KEY, id, n))
                &&& !changes_set(op, CLIENTS_SET_KEY.spec_bytes())
            },
        forall|i: int|
            0 <= i < close_dispute_steps(client_id, dispute, serialized).len() ==> {
                let op = #[trigger] close_dispute_steps(client_id, dispute, serialized)[i];
                &&& !puts(op, entity_key(CLIENT_KEY, id))
                &&& !puts(op, revision_key(CLIENT_REVISION_KEY, id, n))
                &&& !changes_set(op, CLIENTS_SET_KEY.spec_bytes())
            },
{
    lemma_key_space_bytes();
    lemma_set_key_bytes();
    let reference = numeric_id(dispute.referenced_tx.tx);
    let ck = entity_key(CLIENT_KEY, id);
    let rk = revision_key(CLIENT_REVISION_KEY, id, n);
    lemma_entity_key_space(CLIENT_KEY, id);
    lemma_revision_key_space(CLIENT_REVISION_KEY, id, n);
    lemma_entity_key_space(DISPUTE_KEY, dispute.id);
    lemma_revision_key_space(DISPUTE_REVISION_KEY, dispute.id, dispute.revision_number);
    lemma_entity_key_space(REFERENCE_TX_DISPUTE_KEY, reference);
    lemma_one_key_space(ck, CLIENT_KEY, DISPUTE_KEY, 0);
    lemma_one_key_space(ck, CLIENT_KEY, DISPUTE_REVISION_KEY, 0);
    lemma_one_key_space(ck, CLIENT_KEY, REFERENCE_TX_DISPUTE_KEY, 0);
    lemma_one_key_space(rk, CLIENT_REVISION_KEY, DISPUTE_KEY, 0);
    lemma_one_key_space(rk, CLIENT_REVISION_KEY, DISPUTE_REVISION_KEY, 0);
    lemma_one_key_space(rk, CLIENT_REVISION_KEY, REFERENCE_TX_DISPUTE_KEY, 0);
    let own = client_disputes_key(numeric_id(client_id as u32));
    lemma_entity_key_space(CLIENT_DISPUTES_SET_KEY, numeric_id(client_id as u32));
    assert(own[6] == key_space(CLIENT_DISPUTES_SET_KEY)[6]) by {
        assert(own.subrange(0, key_space(CLIENT_DISPUTES_SET_KEY).len() as int)[6] == own[6]);
    }
}

/// The steps for a client make its revision the current one.
proof fn lemma_client_steps_enter_client(
    contents: Contents,
    client: Client,
    frame: Seq<u8>,
    create: bool,
)
    ensures
        holds_client(contents.apply_all(client_steps(client, frame, create)), client, frame),
{
    let ops = client_steps(client, frame, create);
    reveal_with_fuel(Contents::apply_all, 4);
    assert(ops.drop_last() =~= seq![ops[0], ops[1]]);
    assert(ops.drop_last().drop_last() =~= seq![ops[0]]);
    assert(ops.drop_last().drop_last().drop_last() =~= Seq::<WriteOpView>::empty());
}

/// Every write of the store that is carried out makes the revision of the
/// client that it holds the current one: the record of the client, the record
/// of the revision and the place of the client in the index of clients change
/// together.
pub proof fn lemma_commit_enters_client(
    contents: Contents,
    client: Client,
    serialized_client: Seq<u8>,
    create: bool,
    transaction: Transaction,
    serialized_transaction: Seq<u8>,
    listed_at: i64,
    dispute: DisputeView,
    serialized_dispute: Seq<u8>,
)
    ensures
        contents.commit(client_steps(client, serialized_client, create)) matches Some(after)
            ==> holds_client(after, client, serialized_client),
        contents.commit(
            process_transaction_steps(
                client,
                serialized_client,
                transaction,
                serialized_transaction,
                listed_at,
            ),
        ) matches Some(after) ==> holds_client(after, client, serialized_client),
        contents.commit(
            process_dispute_steps(client, serialized_client, dispute, serialized_dispute),
        ) matches Some(after) ==> holds_client(after, client, serialized_client),
        contents.commit(
            remove_dispute_steps(client, serialized_client, dispute, serialized_dispute),
        ) matches Some(after) ==> holds_client(after, client, serialized_client),
{
    let id = numeric_id(client.id as u32);
    let ck = entity_key(CLIENT_KEY, id);
    let rk = revision_key(CLIENT_REVISION_KEY, id, client.revision_number);
    let sk = CLIENTS_SET_KEY.spec_bytes();
    let first = client_steps(client, serialized_client, false);
    let entered = contents.apply_all(first);
    lemma_client_steps_enter_client(contents, client, serialized_client, create);
    lemma_client_steps_enter_client(contents, client, serialized_client, false);

    let then = transaction_steps(client.id, transaction, serialized_transaction, listed_at);
    lemma_transaction_steps_leave_clients(
        client.id,
        transaction,
        serialized_transaction,
        listed_at,
        id,
        client.revision_number,
    );
    lemma_apply_all_concat(contents, first, then);
    lemma_apply_keeps_value(entered, then, ck);
    lemma_apply_keeps_value(entered, then, rk);
    lemma_apply_keeps_set(entered, then, sk);

    lemma_dispute_steps_leave_clients(
        client.id,
        dispute,
        serialized_dispute,
        id,
        client.revision_number,
    );
    let opened = open_dispute_steps(client.id, dispute, serialized_dispute);
    lemma_apply_all_concat(contents, first, opened);
    lemma_apply_keeps_value(entered, opened, ck);
    lemma_apply_keeps_value(entered, opened, rk);
    lemma_apply_keeps_set(entered, opened, sk);

    let closed = close_dispute_steps(client.id, dispute, serialized_dispute);
    lemma_apply_all_concat(contents, first, closed);
    lemma_apply_keeps_value(entered, closed, ck);
    lemma_apply_keeps_value(entered, closed, rk);
    lemma_apply_keeps_set(entered, closed, sk);
}

/// Whether the transaction `transaction`, stored as `frame`, is in the
/// ledger of `contents`: it is found under its key and under the key of its
/// revision, and it stands in the index of all transactions and in that of
/// the client `client_id`, at `listed_at`.
pub open spec fn holds_transaction(
    contents: Contents,
    client_id: u16,
    transaction: Transaction,
    frame: Seq<u8>,
    listed_at: i64,
) -> bool {
    let id = numeric_id(transaction.tx);
    let own = member_set_key(TRANSACTIONS_SET_KEY, CLIENT_KEY, numeric_id(client_id as u32));
    &&& contents.values.contains_key(entity_key(TRANSACTION_KEY, id))
    &&& contents.values[entity_key(TRANSACTION_KEY, id)] == frame
    &&& contents.values.contains_key(
        revision_key(TRANSACTION_REVISION_KEY, id, transaction.revision_number),
    )
    &&& contents.values[revision_key(TRANSACTION_REVISION_KEY, id, transaction.revision_number)]
        == frame
    &&& contents.members(TRANSACTIONS_SET_KEY.spec_bytes()).contains_key(id)
    &&& contents.members(TRANSACTIONS_SET_KEY.spec_bytes())[id] == listed_at
    &&& contents.members(own).contains_key(id)
    &&& contents.members(own)[id] == listed_at
}

/// Whether the dispute revision `dispute`, stored as `frame`, is the current
/// one in `contents`: it is found under the key of its dispute, under the key
/// of its revision and under the key of the transaction that it is about;
/// and it stands in the index of the disputes of the client `client_id`
/// exactly while it is open.
pub open spec fn holds_dispute(
    contents: Contents,
    client_id: u16,
    dispute: DisputeView,
    frame: Seq<u8>,
) -> bool {
    let reference = entity_key(REFERENCE_TX_DISPUTE_KEY, numeric_id(dispute.referenced_tx.tx));
    let own = client_disputes_key(numeric_id(client_id as u32));
    &&& contents.values.contains_key(entity_key(DISPUTE_KEY, dispute.id))
    &&& contents.values[entity_key(DISPUTE_KEY, dispute.id)] == frame
    &&& contents.values.contains_key(
        revision_key(DISPUTE_REVISION_KEY, dispute.id, dispute.revision_number),
    )
    &&& contents.values[revision_key(DISPUTE_REVISION_KEY, dispute.id, dispute.revision_number)]
        == frame
    &&& contents.values.contains_key(reference)
    &&& contents.values[reference] == frame
    &&& contents.members(own).contains_key(dispute.id) == !dispute.is_deleted
    &&& !dispute.is_deleted ==> contents.members(own)[dispute.id] == dispute.revision_time
}

/// A write of a transaction that is carried out enters the transaction into
/// the ledger and into both indexes.
pub proof fn lemma_commit_enters_transaction(
    contents: Contents,
    client: Client,
    serialized_client: Seq<u8>,
    transaction: Transaction,
    serialized_transaction: Seq<u8>,
    listed_at: i64,
)
    ensures
        contents.commit(
            process_transaction_steps(
                client,
                serialized_client,
                transaction,
                serialized_transaction,
                listed_at,
            ),
        ) matches Some(after) ==> holds_transaction(
            after,
            client.id,
            transaction,
            serialized_transaction,
            listed_at,
        ),
{
    lemma_set_key_bytes();
    let first = client_steps(client, serialized_client, false);
    let then = transaction_steps(client.id, transaction, serialized_transaction, listed_at);
    lemma_apply_all_concat(contents, first, then);
    let entered = contents.apply_all(first);
    reveal_with_fuel(Contents::apply_all, 5);
    assert(then.drop_last() =~= seq![then[0], then[1], then[2]]);
    assert(then.drop_last().drop_last() =~= seq![then[0], then[1]]);
    assert(then.drop_last().drop_last().drop_last() =~= seq![then[0]]);
    assert(then.drop_last().drop_last().drop_last().drop_last() =~= Seq::<WriteOpView>::empty());
    let own = member_set_key(TRANSACTIONS_SET_KEY, CLIENT_KEY, numeric_id(client.id as u32));
    assert(own.len() > TRANSACTIONS_SET_KEY.spec_bytes().len());
}

/// A write of a dispute that is carried out makes the revision of the
/// dispute that it holds the current one, whether it opens or closes the
/// dispute: whoever then looks for the dispute against the transaction finds
/// this revision.
pub proof fn lemma_commit_enters_dispute(
    contents: Contents,
    client: Client,
    serialized_client: Seq<u8>,
    dispute: DisputeView,
    serialized_dispute: Seq<u8>,
)
    ensures
        !dispute.is_deleted ==> (contents.commit(
            process_dispute_steps(client, serialized_client, dispute, serialized_dispute),
        ) matches Some(after) ==> holds_dispute(after, client.id, dispute, serialized_dispute)),
        dispute.is_deleted ==> (contents.commit(
            remove_dispute_steps(client, serialized_client, dispute, serialized_dispute),
        ) matches Some(after) ==> holds_dispute(after, client.id, dispute, serialized_dispute)),
{
    let first = client_steps(client, serialized_client, false);
    let opened = open_dispute_steps(client.id, dispute, serialized_dispute);
    let closed = close_dispute_steps(client.id, dispute, serialized_dispute);
    lemma_apply_all_concat(contents, first, opened);
    lemma_apply_all_concat(contents, first, closed);
    reveal_with_fuel(Contents::apply_all, 5);
    assert(opened.drop_last() =~= seq![opened[0], opened[1], opened[2]]);
    assert(opened.drop_last().drop_last() =~= seq![opened[0], opened[1]]);
    assert(opened.drop_last().drop_last().drop_last() =~= seq![opened[0]]);
    assert(opened.drop_last().drop_last().drop_last().drop_last() =~= Seq::<
        WriteOpView,
    >::empty());
    assert(closed.drop_last() =~= seq![closed[0], closed[1], closed[2]]);
    assert(closed.drop_last().drop_last() =~= seq![closed[0], closed[1]]);
    assert(closed.drop_last().drop_last().drop_last() =~= seq![closed[0]]);
    assert(closed.drop_last().drop_last().drop_last().drop_last() =~= Seq::<
        WriteOpView,
    >::empty());
}

/// No step frees a key: what is taken stays taken.
pub proof fn lemma_keys_stay_taken(contents: Contents, ops: Seq<WriteOpView>, key: Seq<u8>)
    requires
        contents.values.contains_key(key),
    ensures
        contents.apply_all(ops).values.contains_key(key),
    decreases ops.len(),
{
    if ops.len() > 0 {
        lemma_keys_stay_taken(contents, ops.drop_last(), key);
    }
}

/// A transaction is disputed once: after a write that opened or closed a
/// dispute against it was carried out, and whatever steps were carried out
/// since, every write that opens a dispute against the same transaction is
/// refused. So no transaction ever has two open disputes, and a dispute that
/// was closed is not followed by another.
pub proof fn lemma_transaction_is_disputed_once(
    contents: Contents,
    client: Client,
    serialized_client: Seq<u8>,
    dispute: DisputeView,
    serialized_dispute: Seq<u8>,
    after: Contents,
    since: Seq<WriteOpView>,
    later: Contents,
    next_client: Client,
    next_serialized_client: Seq<u8>,
    next_dispute: DisputeView,
    next_serialized_dispute: Seq<u8>,
)
    requires
        contents.commit(
            process_dispute_steps(client, serialized_client, dispute, serialized_dispute),
        ) == Some(after) || contents.commit(
            remove_dispute_steps(client, serialized_client, dispute, serialized_dispute),
        ) == Some(after),
        after.commit(since) == Some(later),
        next_dispute.referenced_tx.tx == dispute.referenced_tx.tx,
    ensures
        later.commit(
            process_dispute_steps(
                next_client,
                next_serialized_client,
                next_dispute,
                next_serialized_dispute,
            ),
        ).is_none(),
{
    let reference = entity_key(REFERENCE_TX_DISPUTE_KEY, numeric_id(dispute.referenced_tx.tx));
    let opened = process_dispute_steps(client, serialized_client, dispute, serialized_dispute);
    let closed = remove_dispute_steps(client, serialized_client, dispute, serialized_dispute);
    assert(after.values.contains_key(reference)) by {
        let first = client_steps(client, serialized_client, false);
        let entered = contents.apply_all(first);
        lemma_apply_all_concat(
            contents,
            first,
            open_dispute_steps(client.id, dispute, serialized_dispute),
        );
        lemma_apply_all_concat(
            contents,
            first,
            close_dispute_steps(client.id, dispute, serialized_dispute),
        );
        reveal_with_fuel(Contents::apply_all, 5);
        let o = open_dispute_steps(client.id, dispute, serialized_dispute);
        assert(o.drop_last() =~= seq![o[0], o[1], o[2]]);
        let c = close_dispute_steps(client.id, dispute, serialized_dispute);
        assert(c.drop_last() =~= seq![c[0], c[1], c[2]]);
    }
    lemma_keys_stay_taken(after, since, reference);
    lemma_disputed_transaction_refuses_dispute(
        later,
        next_client,
        next_serialized_client,
        next_dispute,
        next_serialized_dispute,
    );
}

/// The steps for a client leave the current revision of every other client
/// as it is.
proof fn lemma_client_steps_keep_others(
    contents: Contents,
    kept: Client,
    frame: Seq<u8>,
    client: Client,
    serialized_client: Seq<u8>,
    create: bool,
)
    requires
        holds_client(contents, kept, frame),
        client.id != kept.id,
    ensures
        holds_client(contents.apply_all(client_steps(client, serialized_client, create)), kept, frame),
{
    let id = numeric_id(kept.id as u32);
    let other = numeric_id(client.id as u32);
    let ck = entity_key(CLIENT_KEY, id);
    let rk = revision_key(CLIENT_REVISION_KEY, id, kept.revision_number);
    lemma_key_space_bytes();
    lemma_entity_key_space(CLIENT_KEY, id);
    lemma_entity_key_space(CLIENT_KEY, other);
    lemma_revision_key_space(CLIENT_REVISION_KEY, id, kept.revision_number);
    lemma_revision_key_space(CLIENT_REVISION_KEY, other, client.revision_number);
    lemma_one_key_space(ck, CLIENT_KEY, CLIENT_REVISION_KEY, 6);
    lemma_one_key_space(rk, CLIENT_KEY, CLIENT_REVISION_KEY, 6);
    lemma_entities_have_their_own_keys(
        CLIENT_KEY,
        kept.id as u32,
        client.id as u32,
        kept.revision_number,
        client.revision_number,
    );
    lemma_entities_have_their_own_keys(
        CLIENT_REVISION_KEY,
        kept.id as u32,
        client.id as u32,
        kept.revision_number,
        client.revision_number,
    );
    if id == other {
        lemma_numeric_id_injective(kept.id as u32, client.id as u32);
    }
    let ops = client_steps(client, serialized_client, create);
    reveal_with_fuel(Contents::apply_all, 4);
    assert(ops.drop_last() =~= seq![ops[0], ops[1]]);
    assert(ops.drop_last().drop_last() =~= seq![ops[0]]);
    assert(ops.drop_last().drop_last().drop_last() =~= Seq::<WriteOpView>::empty());
}

/// A write for one client leaves the current revision of every other client
/// as it is: its record, the record of its revision and its place in the
/// index of clients.
pub proof fn lemma_other_clients_stay(
    contents: Contents,
    kept: Client,
    frame: Seq<u8>,
    client: Client,
    serialized_client: Seq<u8>,
    create: bool,
    transaction: Transaction,
    serialized_transaction: Seq<u8>,
    listed_at: i64,
    dispute: DisputeView,
    serialized_dispute: Seq<u8>,
)
    requires
        holds_client(contents, kept, frame),
        client.id != kept.id,
    ensures
        holds_client(contents.apply_all(client_steps(client, serialized_client, create)), kept, frame),
        holds_client(
            contents.apply_all(
                process_transaction_steps(
                    client,
                    serialized_client,
                    transaction,
                    serialized_transaction,
                    listed_at,
                ),
            ),
            kept,
            frame,
        ),
        holds_client(
            contents.apply_all(
                process_dispute_steps(client, serialized_client, dispute, serialized_dispute),
            ),
            kept,
            frame,
        ),
        holds_client(
            contents.apply_all(
                remove_dispute_steps(client, serialized_client, dispute, serialized_dispute),
            ),
            kept,
            frame,
        ),
{
    let id = numeric_id(kept.id as u32);
    let ck = entity_key(CLIENT_KEY, id);
    let rk = revision_key(CLIENT_REVISION_KEY, id, kept.revision_number);
    let sk = CLIENTS_SET_KEY.spec_bytes();
    let first = client_steps(client, serialized_client, false);
    let entered = contents.apply_all(first);
    lemma_client_steps_keep_others(contents, kept, frame, client, serialized_client, create);
    lemma_client_steps_keep_others(contents, kept, frame, client, serialized_client, false);

    let then = transaction_steps(client.id, transaction, serialized_transaction, listed_at);
    lemma_transaction_steps_leave_clients(
        client.id,
        transaction,
        serialized_transaction,
        listed_at,
        id,
        kept.revision_number,
    );
    lemma_apply_all_concat(contents, first, then);
    lemma_apply_keeps_value(entered, then, ck);
    lemma_apply_keeps_value(entered, then, rk);
    lemma_apply_keeps_set(entered, then, sk);

    lemma_dispute_steps_leave_clients(client.id, dispute, serialized_dispute, id, kept.revision_number);
    let opened = open_dispute_steps(client.id, dispute, serialized_dispute);
    lemma_apply_all_concat(contents, first, opened);
    lemma_apply_keeps_value(entered, opened, ck);
    lemma_apply_keeps_value(entered, opened, rk);
    lemma_apply_keeps_set(entered, opened, sk);

    let closed = close_dispute_steps(client.id, dispute, serialized_dispute);
    lemma_apply_all_concat(contents, first, closed);
    lemma_apply_keeps_value(entered, closed, ck);
    lemma_apply_keeps_value(entered, closed, rk);
    lemma_apply_keeps_set(entered, closed, sk);
}

/// Whether every member of the index of clients is the id of a client that
/// has a current record.
pub open spec fn clients_are_backed(contents: Contents) -> bool {
    forall|m: Seq<u8>| #[trigger]
        contents.members(CLIENTS_SET_KEY.spec_bytes()).contains_key(m) ==> m.len() == ID_LENGTH
            && contents.values.contains_key(entity_key(CLIENT_KEY, m))
}

/// The index of clients never names a client without a record: where every
/// member of the index has a current record, it is so after every write of
/// the store.
pub proof fn lemma_clients_stay_backed(
    contents: Contents,
    client: Client,
    serialized_client: Seq<u8>,
    create: bool,
    transaction: Transaction,
    serialized_transaction: Seq<u8>,
    listed_at: i64,
    dispute: DisputeView,
    serialized_dispute: Seq<u8>,
)
    requires
        clients_are_backed(contents),
    ensures
        clients_are_backed(contents.apply_all(client_steps(client, serialized_client, create))),
        clients_are_backed(
            contents.apply_all(
                process_transaction_steps(
                    client,
                    serialized_client,
                    transaction,
                    serialized_transaction,
                    listed_at,
                ),
            ),
        ),
        clients_are_backed(
            contents.apply_all(
                process_dispute_steps(client, serialized_client, dispute, serialized_dispute),
            ),
        ),
        clients_are_backed(
            contents.apply_all(
                remove_dispute_steps(client, serialized_client, dispute, serialized_dispute),
            ),
        ),
{
    let sk = CLIENTS_SET_KEY.spec_bytes();
    let id = numeric_id(client.id as u32);
    lemma_numeric_id_value(client.id as u32);
    lemma_backed_after(contents, client, serialized_client, create, Seq::empty());
    assert(client_steps(client, serialized_client, create) + Seq::<WriteOpView>::empty()
        =~= client_steps(client, serialized_client, create));
    lemma_transaction_steps_leave_clients(
        client.id,
        transaction,
        serialized_transaction,
        listed_at,
        id,
        client.revision_number,
    );
    lemma_backed_after(
        contents,
        client,
        serialized_client,
        false,
        transaction_steps(client.id, transaction, serialized_transaction, listed_at),
    );
    lemma_dispute_steps_leave_clients(
        client.id,
        dispute,
        serialized_dispute,
        id,
        client.revision_number,
    );
    lemma_backed_after(
        contents,
        client,
        serialized_client,
        false,
        open_dispute_steps(client.id, dispute, serialized_dispute),
    );
    lemma_backed_after(
        contents,
        client,
        serialized_client,
        false,
        close_dispute_steps(client.id, dispute, serialized_dispute),
    );
}

/// The steps for a client, followed by steps that leave the index of clients
/// alone, keep every member of the index backed by a record.
proof fn lemma_backed_after(
    contents: Contents,
    client: Client,
    serialized_client: Seq<u8>,
    create: bool,
    then: Seq<WriteOpView>,
)
    requires
        clients_are_backed(contents),
        forall|i: int|
            0 <= i < then.len() ==> !changes_set(#[trigger] then[i], CLIENTS_SET_KEY.spec_bytes()),
    ensures
        clients_are_backed(
            contents.apply_all(client_steps(client, serialized_client, create) + then),
        ),
{
    let sk = CLIENTS_SET_KEY.spec_bytes();
    let id = numeric_id(client.id as u32);
    let first = client_steps(client, serialized_client, create);
    let entered = contents.apply_all(first);
    let after = contents.apply_all(first + then);
    lemma_numeric_id_value(client.id as u32);
    lemma_apply_all_concat(contents, first, then);
    lemma_apply_keeps_set(entered, then, sk);
    assert(entered.members(sk) == contents.members(sk).insert(id, client.revision_time)
        && entered.values.contains_key(entity_key(CLIENT_KEY, id))) by {
        reveal_with_fuel(Contents::apply_all, 4);
        assert(first.drop_last() =~= seq![first[0], first[1]]);
        assert(first.drop_last().drop_last() =~= seq![first[0]]);
        assert(first.drop_last().drop_last().drop_last() =~= Seq::<WriteOpView>::empty());
    }
    assert forall|m: Seq<u8>| #[trigger] after.members(sk).contains_key(m) implies m.len()
        == ID_LENGTH && after.values.contains_key(entity_key(CLIENT_KEY, m)) by {
        if m == id {
            lemma_keys_stay_taken(entered, then, entity_key(CLIENT_KEY, id));
        } else {
            assert(contents.members(sk).contains_key(m));
            lemma_keys_stay_taken(contents, first + then, entity_key(CLIENT_KEY, m));
        }
    }
}

/// Whether every member of the sorted set `set_key` is an id that has a
/// record in the key space `kind`.
pub open spec fn set_is_backed(contents: Contents, set_key: Seq<u8>, kind: &str) -> bool {
    forall|m: Seq<u8>| #[trigger]
        contents.members(set_key).contains_key(m) ==> m.len() == ID_LENGTH
            && contents.values.contains_key(entity_key(kind, m))
}

/// Whether a step enters into the sorted set `set_key` only an id whose
/// record is there, or was put by one of the steps `before`.
pub open spec fn enters_backed(
    contents: Contents,
    before: Seq<WriteOpView>,
    op: WriteOpView,
    set_key: Seq<u8>,
    kind: &str,
) -> bool {
    op is ZAdd && op->ZAdd_key == set_key ==> {
        &&& op->ZAdd_member.len() == ID_LENGTH
        &&& contents.apply_all(before).values.contains_key(entity_key(kind, op->ZAdd_member))
    }
}

/// A sorted set whose members all have records keeps that through steps each
/// of which enters only an id whose record is there by then.
pub proof fn lemma_set_stays_backed(
    contents: Contents,
    ops: Seq<WriteOpView>,
    set_key: Seq<u8>,
    kind: &str,
)
    requires
        set_is_backed(contents, set_key, kind),
        forall|i: int|
            0 <= i < ops.len() ==> enters_backed(
                contents,
                ops.take(i),
                #[trigger] ops[i],
                set_key,
                kind,
            ),
    ensures
        set_is_backed(contents.apply_all(ops), set_key, kind),
    decreases ops.len(),
{
    if ops.len() > 0 {
        let head = ops.drop_last();
        let last = ops.last();
        assert forall|i: int| 0 <= i < head.len() implies enters_backed(
            contents,
            head.take(i),
            #[trigger] head[i],
            set_key,
            kind,
        ) by {
            assert(head[i] == ops[i]);
            assert(head.take(i) =~= ops.take(i));
        }
        lemma_set_stays_backed(contents, head, set_key, kind);
        let entered = contents.apply_all(head);
        let after = contents.apply_all(ops);
        assert(ops.take(ops.len() - 1) =~= head);
        assert(enters_backed(contents, head, ops[ops.len() - 1], set_key, kind));
        assert forall|m: Seq<u8>| #[trigger] after.members(set_key).contains_key(m) implies m.len()
            == ID_LENGTH && after.values.contains_key(entity_key(kind, m)) by {
            if last is ZAdd && last->ZAdd_key == set_key && last->ZAdd_member == m {
            } else {
                assert(entered.members(set_key).contains_key(m));
            }
        }
    }
}

/// The key of the sorted set of the transactions of one client is that of no
/// other sorted set, and each client has a set of its own.
proof fn lemma_transactions_set_key_is_its_own(client_id: u16, other: u16)
    ensures
        member_set_key(TRANSACTIONS_SET_KEY, CLIENT_KEY, numeric_id(client_id as u32))
            != CLIENTS_SET_KEY.spec_bytes(),
        member_set_key(TRANSACTIONS_SET_KEY, CLIENT_KEY, numeric_id(client_id as u32))
            != TRANSACTIONS_SET_KEY.spec_bytes(),
        member_set_key(TRANSACTIONS_SET_KEY, CLIENT_KEY, numeric_id(client_id as u32))
            != client_disputes_key(numeric_id(other as u32)),
        client_id != other ==> member_set_key(
            TRANSACTIONS_SET_KEY,
            CLIENT_KEY,
            numeric_id(client_id as u32),
        ) != member_set_key(TRANSACTIONS_SET_KEY, CLIENT_KEY, numeric_id(other as u32)),
{
    lemma_key_space_bytes();
    lemma_set_key_bytes();
    let own = member_set_key(TRANSACTIONS_SET_KEY, CLIENT_KEY, numeric_id(client_id as u32));
    let theirs = member_set_key(TRANSACTIONS_SET_KEY, CLIENT_KEY, numeric_id(other as u32));
    let head = TRANSACTIONS_SET_KEY.spec_bytes() + SEPARATOR.spec_bytes() + CLIENT_KEY.spec_bytes()
        + SEPARATOR.spec_bytes();
    assert(own[0] == TRANSACTIONS_SET_KEY.spec_bytes()[0]);
    assert(own.len() > TRANSACTIONS_SET_KEY.spec_bytes().len());
    let disputes = client_disputes_key(numeric_id(other as u32));
    lemma_entity_key_space(CLIENT_DISPUTES_SET_KEY, numeric_id(other as u32));
    assert(disputes[6] == key_space(CLIENT_DISPUTES_SET_KEY)[6]) by {
        assert(disputes.subrange(0, key_space(CLIENT_DISPUTES_SET_KEY).len() as int)[6]
            == disputes[6]);
    }
    reveal_strlit("transactions");
    reveal_strlit("client");
    reveal_strlit(":");
    is_ascii_spec_bytes(TRANSACTIONS_SET_KEY);
    assert(own[6] == TRANSACTIONS_SET_KEY.spec_bytes()[6]);
    if client_id != other {
        let start = head.len() as int;
        let end = start + ID_LENGTH as int;
        assert(own.subrange(start, end) =~= numeric_id(client_id as u32));
        assert(theirs.subrange(start, end) =~= numeric_id(other as u32));
        if numeric_id(client_id as u32) == numeric_id(other as u32) {
            lemma_numeric_id_injective(client_id as u32, other as u32);
        }
    }
}

/// Whether every member of the index of the transactions of the client
/// `client_id` is the id of a transaction that is in the ledger.
pub open spec fn client_transactions_are_backed(contents: Contents, client_id: u16) -> bool {
    set_is_backed(
        contents,
        member_set_key(TRANSACTIONS_SET_KEY, CLIENT_KEY, numeric_id(client_id as u32)),
        TRANSACTION_KEY,
    )
}

/// The index of a client's transactions never names a transaction that is
/// not in the ledger, and only a write for that client enters anything into
/// it: where every member of the index has a record, it is so after every
/// write of the store, and a write for another client leaves the index as it
/// is.
pub proof fn lemma_client_transactions_stay_backed(
    contents: Contents,
    client_id: u16,
    client: Client,
    serialized_client: Seq<u8>,
    create: bool,
    transaction: Transaction,
    serialized_transaction: Seq<u8>,
    listed_at: i64,
    dispute: DisputeView,
    serialized_dispute: Seq<u8>,
)
    requires
        client_transactions_are_backed(contents, client_id),
    ensures
        client_transactions_are_backed(
            contents.apply_all(client_steps(client, serialized_client, create)),
            client_id,
        ),
        client_transactions_are_backed(
            contents.apply_all(
                process_transaction_steps(
                    client,
                    serialized_client,
                    transaction,
                    serialized_transaction,
                    listed_at,
                ),
            ),
            client_id,
        ),
        client_transactions_are_backed(
            contents.apply_all(
                process_dispute_steps(client, serialized_client, dispute, serialized_dispute),
            ),
            client_id,
        ),
        client_transactions_are_backed(
            contents.apply_all(
                remove_dispute_steps(client, serialized_client, dispute, serialized_dispute),
            ),
            client_id,
        ),
        client.id != client_id ==> {
            let own = member_set_key(
                TRANSACTIONS_SET_KEY,
                CLIENT_KEY,
                numeric_id(client_id as u32),
            );
            &&& contents.apply_all(client_steps(client, serialized_client, create)).members(own)
                == contents.members(own)
            &&& contents.apply_all(
                process_transaction_steps(
                    client,
                    serialized_client,
                    transaction,
                    serialized_transaction,
                    listed_at,
                ),
            ).members(own) == contents.members(own)
            &&& contents.apply_all(
                process_dispute_steps(client, serialized_client, dispute, serialized_dispute),
            ).members(own) == contents.members(own)
            &&& contents.apply_all(
                remove_dispute_steps(client, serialized_client, dispute, serialized_dispute),
            ).members(own) == contents.members(own)
        },
{
    let own = member_set_key(TRANSACTIONS_SET_KEY, CLIENT_KEY, numeric_id(client_id as u32));
    lemma_transactions_set_key_is_its_own(client_id, client.id);
    lemma_numeric_id_value(transaction.tx);
    let first = client_steps(client, serialized_client, create);
    let plain = client_steps(client, serialized_client, false);
    let listed = process_transaction_steps(
        client,
        serialized_client,
        transaction,
        serialized_transaction,
        listed_at,
    );
    let opened = process_dispute_steps(client, serialized_client, dispute, serialized_dispute);
    let closed = remove_dispute_steps(client, serialized_client, dispute, serialized_dispute);

    lemma_set_stays_backed(contents, first, own, TRANSACTION_KEY);
    lemma_set_stays_backed(contents, opened, own, TRANSACTION_KEY);
    lemma_set_stays_backed(contents, closed, own, TRANSACTION_KEY);
    assert forall|i: int| 0 <= i < listed.len() implies enters_backed(
        contents,
        listed.take(i),
        #[trigger] listed[i],
        own,
        TRANSACTION_KEY,
    ) by {
        if i == 6 && listed[6]->ZAdd_key == own {
            let before = listed.take(6);
            assert(before.drop_last() =~= listed.take(5));
            assert(before.last() == listed[5]);
            assert(listed.take(5).drop_last() =~= listed.take(4));
            assert(listed.take(5).last() == listed[4]);
            reveal_with_fuel(Contents::apply_all, 3);
        }
    }
    lemma_set_stays_backed(contents, listed, own, TRANSACTION_KEY);
    if client.id != client_id {
        lemma_apply_keeps_set(contents, first, own);
        lemma_apply_keeps_set(contents, listed, own);
        lemma_apply_keeps_set(contents, opened, own);
        lemma_apply_keeps_set(contents, closed, own);
    }
}

} // verus!
