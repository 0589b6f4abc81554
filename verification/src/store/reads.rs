//! What a backend answers a read with, and what the store makes of the
//! answer: the reads of the store on the model of a backend.

use crate::model::client::Client;
use crate::model::id::{numeric_id, ID_LENGTH};
use crate::store::client::{CLIENTS_SET_KEY, CLIENT_KEY};
use crate::model::transaction::Transaction;
use crate::store::contents::{
    client_transactions_are_backed, clients_are_backed, holds_client, holds_transaction, Contents,
};
use crate::store::store_key::member_set_key;
use crate::store::transaction::{TRANSACTIONS_SET_KEY, TRANSACTION_KEY};
use crate::store::store_key::entity_key;
use crate::store::{
    id_count, lemma_members_keep_their_order, member_frame, member_frames, member_keys,
    member_places,
};
use vstd::prelude::*;
use vstd::string::*;

verus! {

/// What the read of one key is answered with: the value under it, or nothing
/// where the key is free.
pub open spec fn value_at(contents: Contents, key: Seq<u8>) -> Option<Seq<u8>> {
    if contents.values.contains_key(key) {
        Some(contents.values[key])
    } else {
        None
    }
}

/// What the read of several keys at once is answered with: for each key what
/// the read of that key is answered with, in the order of the keys.
pub open spec fn values_at(contents: Contents, keys: Seq<Seq<u8>>) -> Seq<Option<Seq<u8>>> {
    Seq::new(keys.len(), |i: int| value_at(contents, keys[i]))
}

/// Whether `all` holds the members of the sorted set `key` with a score from
/// `min` to `max`, both included: each of them once, none else, lowest score
/// first.
pub open spec fn is_range(contents: Contents, key: Seq<u8>, min: i64, max: i64, all: Seq<Seq<u8>>) -> bool {
    let set = contents.members(key);
    &&& all.no_duplicates()
    &&& forall|m: Seq<u8>| #[trigger]
        all.contains(m) <==> set.contains_key(m) && min <= set[m] <= max
    &&& forall|i: int, j: int|
        0 <= i < j < all.len() ==> set[#[trigger] all[i]] <= set[#[trigger] all[j]]
}

/// How many of `n` members a read with the limit `limit` is answered with:
/// all of them where the limit is zero.
pub open spec fn limited(n: nat, limit: nat) -> nat {
    if limit == 0 || limit > n {
        n
    } else {
        limit
    }
}

/// Whether the read of the sorted set `key` by score is answered with
/// `members`, where `all` holds the members in the range, lowest score first:
/// the first of them in that order, or, where `reverse` is set, the last of
/// them, highest score first, and in either case no more than the limit.
pub open spec fn answers_range(
    contents: Contents,
    key: Seq<u8>,
    min: i64,
    max: i64,
    limit: nat,
    reverse: bool,
    all: Seq<Seq<u8>>,
    members: Seq<Seq<u8>>,
) -> bool {
    &&& is_range(contents, key, min, max, all)
    &&& members.len() == limited(all.len(), limit)
    &&& forall|i: int|
        0 <= i < members.len() ==> #[trigger] members[i] == if reverse {
            all[all.len() - 1 - i]
        } else {
            all[i]
        }
}

/// A read by score is answered in the order of the scores: with rising
/// scores, or with falling ones where the last members are asked for. Every
/// member of the answer lies in the range, none comes twice, and without a
/// limit none in the range is left out.
pub proof fn lemma_range_answer_is_ordered(
    contents: Contents,
    key: Seq<u8>,
    min: i64,
    max: i64,
    limit: nat,
    reverse: bool,
    all: Seq<Seq<u8>>,
    members: Seq<Seq<u8>>,
)
    requires
        answers_range(contents, key, min, max, limit, reverse, all, members),
    ensures
        members.no_duplicates(),
        limit > 0 ==> members.len() <= limit,
        forall|i: int|
            0 <= i < members.len() ==> contents.members(key).contains_key(#[trigger] members[i])
                && min <= contents.members(key)[members[i]] <= max,
        forall|i: int, j: int|
            0 <= i < j < members.len() ==> if reverse {
                contents.members(key)[#[trigger] members[i]] >= contents.members(
                    key,
                )[#[trigger] members[j]]
            } else {
                contents.members(key)[members[i]] <= contents.members(key)[members[j]]
            },
        limit == 0 ==> forall|m: Seq<u8>|
            contents.members(key).contains_key(m) && min <= contents.members(key)[m] <= max
                ==> #[trigger] members.contains(m),
{
    let n = all.len() as int;
    let place = |i: int| if reverse { n - 1 - i } else { i };
    assert forall|i: int| 0 <= i < members.len() implies contents.members(key).contains_key(
        #[trigger] members[i],
    ) && min <= contents.members(key)[members[i]] <= max by {
        assert(members[i] == all[place(i)]);
        assert(all.contains(all[place(i)]));
    }
    assert forall|i: int, j: int| 0 <= i < j < members.len() implies members[i] != members[j] by {
        assert(members[i] == all[place(i)]);
        assert(members[j] == all[place(j)]);
    }
    assert forall|i: int, j: int| 0 <= i < j < members.len() implies if reverse {
        contents.members(key)[#[trigger] members[i]] >= contents.members(key)[#[trigger] members[j]]
    } else {
        contents.members(key)[members[i]] <= contents.members(key)[members[j]]
    } by {
        assert(members[i] == all[place(i)]);
        assert(members[j] == all[place(j)]);
    }
    if limit == 0 {
        assert forall|m: Seq<u8>|
            contents.members(key).contains_key(m) && min <= contents.members(key)[m]
                <= max implies #[trigger] members.contains(m) by {
            assert(all.contains(m));
            let at = choose|at: int| 0 <= at < all.len() && all[at] == m;
            assert(members[place(at)] == all[place(place(at))]);
        }
    }
}

/// A read with a negative limit is answered with the last members of the
/// range, latest first: where `ascending` answers the read without a limit,
/// the read of the last `count` is answered with the end of `ascending`, read
/// backwards.
pub proof fn lemma_last_members_come_backwards(
    contents: Contents,
    key: Seq<u8>,
    min: i64,
    max: i64,
    count: nat,
    all: Seq<Seq<u8>>,
    ascending: Seq<Seq<u8>>,
    members: Seq<Seq<u8>>,
)
    requires
        count > 0,
        answers_range(contents, key, min, max, 0, false, all, ascending),
        answers_range(contents, key, min, max, count, true, all, members),
    ensures
        members.len() == (if count <= ascending.len() {
            count
        } else {
            ascending.len()
        }),
        forall|i: int|
            0 <= i < members.len() ==> #[trigger] members[i] == ascending[ascending.len() - 1 - i],
{
    assert forall|i: int| 0 <= i < members.len() implies #[trigger] members[i]
        == ascending[ascending.len() - 1 - i] by {
        assert(ascending[ascending.len() - 1 - i] == all[all.len() - 1 - i]);
    }
}

/// As many keys are looked up as there are ids among the members.
pub proof fn lemma_one_key_for_each_id(values: Seq<Seq<u8>>, kind: &str)
    ensures
        member_keys(values, kind).len() == id_count(values),
    decreases values.len(),
{
    if values.len() > 0 {
        lemma_one_key_for_each_id(values.drop_last(), kind);
    }
}

/// The key that is looked up for a member that is an id is the key of that
/// id, and it stands among the keys where the id stands among the ids.
pub proof fn lemma_id_is_looked_up_under_its_key(values: Seq<Seq<u8>>, kind: &str, i: int)
    requires
        0 <= i < values.len(),
        values[i].len() == ID_LENGTH,
    ensures
        id_count(values.take(i)) < member_keys(values, kind).len(),
        member_keys(values, kind)[id_count(values.take(i)) as int] == entity_key(kind, values[i]),
    decreases values.len(),
{
    let head = values.drop_last();
    lemma_one_key_for_each_id(head, kind);
    if i == values.len() - 1 {
        assert(values.take(i) =~= head);
    } else {
        lemma_id_is_looked_up_under_its_key(head, kind, i);
        assert(values.take(i) =~= head.take(i));
    }
}

/// Every member is resolved to its own record: a member that is an id to
/// what is stored under the key of that id, any other member to itself.
pub proof fn lemma_members_are_resolved(contents: Contents, values: Seq<Seq<u8>>, kind: &str, i: int)
    requires
        0 <= i < values.len(),
    ensures
        member_frame(values, values_at(contents, member_keys(values, kind)), i) == (if values[i].len()
            == ID_LENGTH {
            value_at(contents, entity_key(kind, values[i]))
        } else {
            Some(values[i])
        }),
{
    if values[i].len() == ID_LENGTH {
        lemma_id_is_looked_up_under_its_key(values, kind, i);
    }
}

/// No record is lost: a member that has a stored record has a place among
/// the records of the read.
pub proof fn lemma_every_record_is_kept(values: Seq<Seq<u8>>, found: Seq<Option<Seq<u8>>>, i: int)
    requires
        0 <= i < values.len(),
        member_frame(values, found, i).is_some(),
    ensures
        exists|k: int|
            0 <= k < member_places(values, found).len() && #[trigger] member_places(
                values,
                found,
            )[k] == i,
    decreases values.len(),
{
    let head = values.drop_last();
    let before = member_places(head, found);
    if i == values.len() - 1 {
        assert(member_places(values, found)[before.len() as int] == i);
    } else {
        assert(values.take(i) =~= head.take(i));
        lemma_every_record_is_kept(head, found, i);
        let k = choose|k: int| 0 <= k < before.len() && #[trigger] before[k] == i;
        assert(member_places(values, found)[k] == i);
    }
}

/// The read of all clients in a range of time holds every client that was
/// last revised in that range: where a client revision is the current one,
/// stored as `frame`, and the time of the revision lies in the range, the
/// records of the read hold `frame`.
pub proof fn lemma_client_is_read(
    contents: Contents,
    client: Client,
    frame: Seq<u8>,
    min: i64,
    max: i64,
    all: Seq<Seq<u8>>,
    members: Seq<Seq<u8>>,
)
    requires
        holds_client(contents, client, frame),
        min <= client.revision_time <= max,
        answers_range(contents, CLIENTS_SET_KEY.spec_bytes(), min, max, 0, false, all, members),
    ensures
        member_frames(
            members,
            values_at(contents, member_keys(members, CLIENT_KEY)),
        ).contains(frame),
{
    let id = numeric_id(client.id as u32);
    let found = values_at(contents, member_keys(members, CLIENT_KEY));
    lemma_range_answer_is_ordered(
        contents,
        CLIENTS_SET_KEY.spec_bytes(),
        min,
        max,
        0,
        false,
        all,
        members,
    );
    assert(members.contains(id));
    let i = choose|i: int| 0 <= i < members.len() && members[i] == id;
    lemma_members_are_resolved(contents, members, CLIENT_KEY, i);
    assert(member_frame(members, found, i) == Some(frame));
    lemma_every_record_is_kept(members, found, i);
    let k = choose|k: int|
        0 <= k < member_places(members, found).len() && #[trigger] member_places(
            members,
            found,
        )[k] == i;
    lemma_members_keep_their_order(members, found);
    assert(member_frames(members, found)[k] == frame);
}

/// The read of all transactions of a client in a range of time holds every
/// transaction of that client that was listed in the range: where a
/// transaction is in the ledger, stored as `frame` and listed at `listed_at`,
/// and that time lies in the range, the records of the read hold `frame`.
pub proof fn lemma_transaction_is_read(
    contents: Contents,
    client_id: u16,
    transaction: Transaction,
    frame: Seq<u8>,
    listed_at: i64,
    min: i64,
    max: i64,
    all: Seq<Seq<u8>>,
    members: Seq<Seq<u8>>,
)
    requires
        holds_transaction(contents, client_id, transaction, frame, listed_at),
        min <= listed_at <= max,
        answers_range(
            contents,
            member_set_key(TRANSACTIONS_SET_KEY, CLIENT_KEY, numeric_id(client_id as u32)),
            min,
            max,
            0,
            false,
            all,
            members,
        ),
    ensures
        member_frames(
            members,
            values_at(contents, member_keys(members, TRANSACTION_KEY)),
        ).contains(frame),
{
    let id = numeric_id(transaction.tx);
    let key = member_set_key(TRANSACTIONS_SET_KEY, CLIENT_KEY, numeric_id(client_id as u32));
    let found = values_at(contents, member_keys(members, TRANSACTION_KEY));
    lemma_range_answer_is_ordered(contents, key, min, max, 0, false, all, members);
    assert(members.contains(id));
    let i = choose|i: int| 0 <= i < members.len() && members[i] == id;
    lemma_members_are_resolved(contents, members, TRANSACTION_KEY, i);
    assert(member_frame(members, found, i) == Some(frame));
    lemma_every_record_is_kept(members, found, i);
    let k = choose|k: int|
        0 <= k < member_places(members, found).len() && #[trigger] member_places(
            members,
            found,
        )[k] == i;
    lemma_members_keep_their_order(members, found);
    assert(member_frames(members, found)[k] == frame);
}

/// Where every member has a stored record, a read gives one record for each
/// member, in the order of the members.
pub proof fn lemma_one_record_for_each_member(values: Seq<Seq<u8>>, found: Seq<Option<Seq<u8>>>)
    requires
        forall|i: int| 0 <= i < values.len() ==> (#[trigger] member_frame(values, found, i)).is_some(),
    ensures
        member_frames(values, found).len() == values.len(),
        forall|i: int|
            0 <= i < values.len() ==> Some(#[trigger] member_frames(values, found)[i])
                == member_frame(values, found, i),
    decreases values.len(),
{
    if values.len() > 0 {
        let head = values.drop_last();
        let last = values.len() - 1;
        assert forall|i: int| 0 <= i < head.len() implies member_frame(head, found, i)
            == member_frame(values, found, i) by {
            assert(values.take(i) =~= head.take(i));
        }
        assert forall|i: int| 0 <= i < head.len() implies (#[trigger] member_frame(
            head,
            found,
            i,
        )).is_some() by {
            assert(member_frame(values, found, i).is_some());
        }
        lemma_one_record_for_each_member(head, found);
        assert(values.take(last) =~= head);
        assert(member_frame(values, found, last).is_some());
        assert forall|i: int| 0 <= i < values.len() implies Some(
            #[trigger] member_frames(values, found)[i],
        ) == member_frame(values, found, i) by {
            if i < last {
                assert(member_frames(head, found)[i] == member_frames(values, found)[i]);
                assert(member_frame(head, found, i) == member_frame(values, found, i));
            }
        }
    }
}

/// The read of clients between two times is answered with the current
/// record of each client that was last revised in the range, one record for
/// each member of the answer and in the order of the answer: by rising time
/// of revision, or, where the last clients are asked for, by falling time.
/// This holds wherever every member of the index of clients has a record,
/// which every write of the store keeps so.
pub proof fn lemma_clients_are_read_in_order(
    contents: Contents,
    min: i64,
    max: i64,
    limit: nat,
    reverse: bool,
    all: Seq<Seq<u8>>,
    members: Seq<Seq<u8>>,
)
    requires
        clients_are_backed(contents),
        answers_range(
            contents,
            CLIENTS_SET_KEY.spec_bytes(),
            min,
            max,
            limit,
            reverse,
            all,
            members,
        ),
    ensures
        ({
            let records = member_frames(
                members,
                values_at(contents, member_keys(members, CLIENT_KEY)),
            );
            let scores = contents.members(CLIENTS_SET_KEY.spec_bytes());
            &&& records.len() == members.len()
            &&& forall|i: int|
                0 <= i < members.len() ==> #[trigger] records[i]
                    == contents.values[entity_key(CLIENT_KEY, members[i])]
            &&& forall|i: int|
                0 <= i < members.len() ==> min <= scores[#[trigger] members[i]] <= max
            &&& forall|i: int, j: int|
                0 <= i < j < members.len() ==> if reverse {
                    scores[#[trigger] members[i]] >= scores[#[trigger] members[j]]
                } else {
                    scores[members[i]] <= scores[members[j]]
                }
        }),
{
    let key = CLIENTS_SET_KEY.spec_bytes();
    let found = values_at(contents, member_keys(members, CLIENT_KEY));
    lemma_range_answer_is_ordered(contents, key, min, max, limit, reverse, all, members);
    assert forall|i: int| 0 <= i < members.len() implies #[trigger] member_frame(
        members,
        found,
        i,
    ) == Some(contents.values[entity_key(CLIENT_KEY, members[i])]) by {
        assert(contents.members(key).contains_key(members[i]));
        lemma_members_are_resolved(contents, members, CLIENT_KEY, i);
    }
    lemma_one_record_for_each_member(members, found);
}

/// The read of the transactions of a client between two times is answered
/// with the record of each transaction of that client that was listed in the
/// range, one record for each member of the answer and in the order of the
/// answer: by rising time, or, where the last are asked for, by falling time.
/// This holds wherever every member of the client's index has a record,
/// which every write of the store keeps so.
pub proof fn lemma_client_transactions_are_read_in_order(
    contents: Contents,
    client_id: u16,
    min: i64,
    max: i64,
    limit: nat,
    reverse: bool,
    all: Seq<Seq<u8>>,
    members: Seq<Seq<u8>>,
)
    requires
        client_transactions_are_backed(contents, client_id),
        answers_range(
            contents,
            member_set_key(TRANSACTIONS_SET_KEY, CLIENT_KEY, numeric_id(client_id as u32)),
            min,
            max,
            limit,
            reverse,
            all,
            members,
        ),
    ensures
        ({
            let key = member_set_key(
                TRANSACTIONS_SET_KEY,
                CLIENT_KEY,
                numeric_id(client_id as u32),
            );
            let records = member_frames(
                members,
                values_at(contents, member_keys(members, TRANSACTION_KEY)),
            );
            let scores = contents.members(key);
            &&& records.len() == members.len()
            &&& forall|i: int|
                0 <= i < members.len() ==> #[trigger] records[i]
                    == contents.values[entity_key(TRANSACTION_KEY, members[i])]
            &&& forall|i: int|
                0 <= i < members.len() ==> min <= scores[#[trigger] members[i]] <= max
            &&& forall|i: int, j: int|
                0 <= i < j < members.len() ==> if reverse {
                    scores[#[trigger] members[i]] >= scores[#[trigger] members[j]]
                } else {
                    scores[members[i]] <= scores[members[j]]
                }
        }),
{
    let key = member_set_key(TRANSACTIONS_SET_KEY, CLIENT_KEY, numeric_id(client_id as u32));
    let found = values_at(contents, member_keys(members, TRANSACTION_KEY));
    lemma_range_answer_is_ordered(contents, key, min, max, limit, reverse, all, members);
    assert forall|i: int| 0 <= i < members.len() implies #[trigger] member_frame(
        members,
        found,
        i,
    ) == Some(contents.values[entity_key(TRANSACTION_KEY, members[i])]) by {
        assert(contents.members(key).contains_key(members[i]));
        lemma_members_are_resolved(contents, members, TRANSACTION_KEY, i);
    }
    lemma_one_record_for_each_member(members, found);
}

} // verus!
