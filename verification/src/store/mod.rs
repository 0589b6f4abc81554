//! The typed repository over a key-value backend: keys, record framing and the
//! atomic multi-key writes of each operation.
//!
//! The store does not talk to a backend itself. Each operation is the request
//! that a backend is to carry out (a key to read, a range of a sorted set, an
//! atomic write), and each answer of a backend is read by the function that
//! belongs to it.

use crate::model::clock::Timestamp;
use crate::model::id::ID_LENGTH;
use crate::store::store_key::{entity_key, push_key, SEPARATOR};
use flate2::read::GzDecoder;
use flate2::write::GzEncoder;
use flate2::Compression;
use std::io::{Read, Write};
use vstd::prelude::*;
use vstd::string::*;

pub mod atomic_write;
pub mod backend;
pub mod client;
pub mod conditionals;
pub mod config;
pub mod contents;
pub mod dispute;
pub mod error;
pub mod reads;
pub mod store_key;
pub mod text;
pub mod transaction;

pub use atomic_write::{AtomicWriteOperation, WriteOp, WriteOpView};
pub use backend::{Backend, BackendView};
pub use client::{CLIENTS_SET_KEY, CLIENT_KEY, CLIENT_REVISION_KEY};
pub use conditionals::Conditionals;
pub use config::{Config, ConfigView, DynamoDBConfig, DynamoDBConfigView, Environment};
pub use dispute::{
    CLIENT_DISPUTES_SET_KEY, DISPUTE_KEY, DISPUTE_REVISION_KEY, REFERENCE_TX_DISPUTE_KEY,
};
pub use error::{BackendError, Error, ErrorView, Result};
pub use store_key::AsKey;
pub use transaction::{TRANSACTIONS_SET_KEY, TRANSACTION_KEY, TRANSACTION_REVISION_KEY};

verus! {

/// `std::io::Error`, which the gzip reader and writer fail with. Nothing is
/// known of what it holds.
#[verifier::external_type_specification]
#[verifier::external_body]
pub struct ExIoError(std::io::Error);

/// The gzip stream that holds `data`, or nothing where the gzip writer
/// refuses the data.
pub uninterp spec fn gzip_stream(data: Seq<u8>) -> Option<Seq<u8>>;

/// What a gzip stream holds, if it is one.
pub uninterp spec fn gunzip_stream(stream: Seq<u8>) -> Option<Seq<u8>>;

/// Compresses `data` into a gzip stream.
///
/// Writes all of `data` to a `flate2::write::GzEncoder` over an empty vector,
/// at the default level, and finishes it. Whether that succeeds, and the
/// stream that it gives, are functions of the data alone: the sink is a
/// vector, which takes every byte, and the header carries no time and no
/// name. A `flate2::read::GzDecoder` reads the data back from the stream.
#[verifier::external_body]
fn gzip(data: &Vec<u8>) -> (r: std::result::Result<Vec<u8>, std::io::Error>)
    ensures
        match r {
            Ok(stream) => gzip_stream(data@) == Some(stream@) && gunzip_stream(stream@) == Some(
                data@,
            ),
            Err(_) => gzip_stream(data@).is_none(),
        },
{
    let mut e = GzEncoder::new(Vec::new(), Compression::default());
    e.write_all(data)?;
    e.finish()
}

/// Reads a gzip stream to its end.
///
/// Reads `stream` through a `flate2::read::GzDecoder` with `read_to_end`. It
/// fails where the bytes are no gzip stream.
#[verifier::external_body]
fn gunzip(stream: &[u8]) -> (r: std::result::Result<Vec<u8>, std::io::Error>)
    ensures
        match r {
            Ok(data) => gunzip_stream(stream@) == Some(data@),
            Err(_) => gunzip_stream(stream@).is_none(),
        },
{
    let mut gz = GzDecoder::new(stream);
    let mut buf = Vec::new();
    gz.read_to_end(&mut buf)?;
    Ok(buf)
}

impl From<std::io::Error> for Error {
    fn from(err: std::io::Error) -> (e: Error)
        ensures
            e@ is Other,
    {
        Error::Other(err.to_string())
    }
}

impl vstd::std_specs::convert::FromSpecImpl<std::io::Error> for Error {
    open spec fn obeys_from_spec() -> bool {
        false
    }

    open spec fn from_spec(err: std::io::Error) -> Error {
        arbitrary()
    }
}

/// Whether an encoded record can be framed for storage.
pub open spec fn can_be_framed(encoded: Seq<u8>) -> bool {
    gzip_stream(encoded).is_some()
}

/// The frame under which an encoded record is stored: its gzip stream.
pub open spec fn frame_of(encoded: Seq<u8>) -> Seq<u8>
    recommends
        can_be_framed(encoded),
{
    gzip_stream(encoded).unwrap()
}

/// The outcome of an I/O operation as an outcome of the store: what
/// succeeded stays, and a failure is passed on by its message.
pub fn from_io<T>(outcome: std::result::Result<T, std::io::Error>) -> (r: Result<T>)
    ensures
        match outcome {
            Ok(value) => r == Ok::<T, Error>(value),
            Err(_) => r matches Err(e) && e@ is Other,
        },
{
    match outcome {
        Ok(value) => Ok(value),
        Err(e) => Err(Error::from(e)),
    }
}

/// The repository. It holds which backend its requests are meant for.
#[derive(Debug)]
pub struct Store {
    pub backend: Backend,
}

impl View for Store {
    type V = BackendView;

    open spec fn view(&self) -> BackendView {
        self.backend@
    }
}

impl Clone for Store {
    fn clone(&self) -> (s: Store)
        ensures
            s@ == self@,
    {
        Store { backend: self.backend.clone() }
    }
}

/// A read of a sorted set by score: the members with a score from `min` to
/// `max`, both included, lowest first, or highest first where `reverse` is
/// set, and at most `limit` of them unless `limit` is zero. `type_key` is the
/// key space in which a member that is an id is looked up.
#[derive(Debug)]
pub struct RangeRequest {
    pub key: Vec<u8>,
    pub min: i64,
    pub max: i64,
    pub limit: usize,
    pub reverse: bool,
    pub type_key: &'static str,
}

/// How many of `values` are ids, to be looked up.
pub open spec fn id_count(values: Seq<Seq<u8>>) -> nat
    decreases values.len(),
{
    if values.len() == 0 {
        0
    } else if values.last().len() == ID_LENGTH {
        id_count(values.drop_last()) + 1
    } else {
        id_count(values.drop_last())
    }
}

/// The keys to look up for the members that are ids, in their order.
pub open spec fn member_keys(values: Seq<Seq<u8>>, type_key: &str) -> Seq<Seq<u8>>
    decreases values.len(),
{
    if values.len() == 0 {
        Seq::empty()
    } else if values.last().len() == ID_LENGTH {
        member_keys(values.drop_last(), type_key).push(entity_key(type_key, values.last()))
    } else {
        member_keys(values.drop_last(), type_key)
    }
}

/// The stored record of each member, in the order of the members: a member
/// that is no id is its own record; for the n-th id it is what was found for
/// the n-th key, and nothing where nothing was found.
pub open spec fn member_frames(values: Seq<Seq<u8>>, found: Seq<Option<Seq<u8>>>) -> Seq<Seq<u8>>
    decreases values.len(),
{
    if values.len() == 0 {
        Seq::empty()
    } else {
        let before = member_frames(values.drop_last(), found);
        if values.last().len() == ID_LENGTH {
            let n = id_count(values.drop_last()) as int;
            if n < found.len() && found[n].is_some() {
                before.push(found[n].unwrap())
            } else {
                before
            }
        } else {
            before.push(values.last())
        }
    }
}

/// What each of the stored records holds, if every one of them can be read.
pub open spec fn unframed(frames: Seq<Seq<u8>>) -> Option<Seq<Seq<u8>>>
    decreases frames.len(),
{
    if frames.len() == 0 {
        Some(Seq::empty())
    } else {
        match (unframed(frames.drop_last()), gunzip_stream(frames.last())) {
            (Some(before), Some(record)) => Some(before.push(record)),
            _ => None,
        }
    }
}

/// What each byte string of a list holds.
pub open spec fn bytes_of(list: Seq<Vec<u8>>) -> Seq<Seq<u8>> {
    Seq::new(list.len(), |i: int| list[i]@)
}

/// What each optional byte string of a list holds.
pub open spec fn found_of(list: Seq<Option<Vec<u8>>>) -> Seq<Option<Seq<u8>>> {
    Seq::new(
        list.len(),
        |i: int|
            match list[i] {
                Some(v) => Some(v@),
                None => None,
            },
    )
}

impl Store {
    /// The score under which a time is entered into a sorted set: its
    /// microseconds since the Unix epoch.
    pub fn time_microsecond_score(t: &Timestamp) -> (score: i64)
        ensures
            score == *t,
    {
        *t
    }

    /// The read of the sorted set `key` between two scores. A negative
    /// `limit` asks for the last members, highest first; a positive one for
    /// the first, lowest first; zero for all.
    pub fn get_by_score(key: Vec<u8>, min: i64, max: i64, limit: i32, type_key: &'static str) -> (r:
        RangeRequest)
        ensures
            r.key@ == key@,
            r.min == min,
            r.max == max,
            r.reverse == (limit < 0),
            r.limit as int == (if limit < 0 {
                -(limit as int)
            } else {
                limit as int
            }),
            r.type_key == type_key,
    {
        let wide: i64 = limit as i64;
        if limit < 0 {
            RangeRequest { key, min, max, limit: (-wide) as usize, reverse: true, type_key }
        } else {
            RangeRequest { key, min, max, limit: wide as usize, reverse: false, type_key }
        }
    }

    /// The read of the sorted set `key` between two times, for a set that is
    /// scored by time.
    pub fn get_by_time_range(
        key: Vec<u8>,
        min: Timestamp,
        max: Timestamp,
        limit: i32,
        type_key: &'static str,
    ) -> (r: RangeRequest)
        ensures
            r.key@ == key@,
            r.min == min,
            r.max == max,
            r.reverse == (limit < 0),
            r.limit as int == (if limit < 0 {
                -(limit as int)
            } else {
                limit as int
            }),
            r.type_key == type_key,
    {
        Store::get_by_score(
            key,
            Store::time_microsecond_score(&min),
            Store::time_microsecond_score(&max),
            limit,
            type_key,
        )
    }

    /// The keys to look up for those members of a sorted set that are ids, in
    /// the order of the members. A member of `ID_LENGTH` bytes is an id.
    pub fn get_by_score_keys(values: &Vec<Vec<u8>>, type_key: &str) -> (keys: Vec<Vec<u8>>)
        ensures
            bytes_of(keys@) == member_keys(bytes_of(values@), type_key),
    {
        let mut keys: Vec<Vec<u8>> = Vec::new();
        let mut i: usize = 0;
        proof {
            assert(bytes_of(values@).take(0) =~= Seq::<Seq<u8>>::empty());
            assert(bytes_of(keys@) =~= Seq::<Seq<u8>>::empty());
        }
        while i < values.len()
            invariant
                i <= values@.len(),
                bytes_of(keys@) == member_keys(bytes_of(values@).take(i as int), type_key),
            decreases values@.len() - i,
        {
            let ghost before = bytes_of(keys@);
            proof {
                let next = bytes_of(values@).take(i + 1);
                assert(next.drop_last() =~= bytes_of(values@).take(i as int));
                assert(next.last() == values@[i as int]@);
            }
            if values[i].len() == ID_LENGTH {
                let mut key = type_key.as_key();
                push_key(&mut key, SEPARATOR);
                push_key(&mut key, &values[i]);
                keys.push(key);
                proof {
                    assert(bytes_of(keys@) =~= before.push(entity_key(type_key, values@[i as int]@)));
                }
            }
            i = i + 1;
        }
        proof {
            assert(bytes_of(values@).take(values@.len() as int) =~= bytes_of(values@));
        }
        keys
    }

    /// The records of the members of a sorted set, in the order of the
    /// members: of a member that is no id what it holds itself, of an id what
    /// was found under its key. A member under whose key nothing was found
    /// is left out. It fails if a record cannot be read.
    pub fn get_by_score_members(values: &Vec<Vec<u8>>, found: &Vec<Option<Vec<u8>>>) -> (r: Result<
        Vec<Vec<u8>>,
    >)
        ensures
            match r {
                Ok(records) => unframed(member_frames(bytes_of(values@), found_of(found@)))
                    == Some(bytes_of(records@)),
                Err(e) => unframed(member_frames(bytes_of(values@), found_of(found@))).is_none()
                    && e@ is Other,
            },
    {
        let mut records: Vec<Vec<u8>> = Vec::new();
        let mut i: usize = 0;
        let mut n: usize = 0;
        proof {
            assert(bytes_of(values@).take(0) =~= Seq::<Seq<u8>>::empty());
            assert(bytes_of(records@) =~= Seq::<Seq<u8>>::empty());
        }
        while i < values.len()
            invariant
                i <= values@.len(),
                n == id_count(bytes_of(values@).take(i as int)),
                n <= i,
                unframed(member_frames(bytes_of(values@).take(i as int), found_of(found@)))
                    == Some(bytes_of(records@)),
            decreases values@.len() - i,
        {
            let ghost before = bytes_of(records@);
            let ghost head = bytes_of(values@).take(i as int);
            let ghost next = bytes_of(values@).take(i + 1);
            proof {
                assert(next.drop_last() =~= head);
                assert(next.last() == values@[i as int]@);
            }
            if values[i].len() == ID_LENGTH {
                if n < found.len() {
                    match &found[n] {
                        Some(frame) => {
                            proof {
                                assert(found_of(found@)[n as int] == Some(frame@));
                                let frames = member_frames(next, found_of(found@));
                                assert(frames == member_frames(head, found_of(found@)).push(frame@));
                                assert(frames.drop_last() =~= member_frames(head, found_of(found@)));
                                assert(frames.last() == frame@);
                            }
                            match Store::deserialize(frame.as_slice()) {
                                Ok(record) => {
                                    records.push(record);
                                    proof {
                                        assert(bytes_of(records@) =~= before.push(record@));
                                    }
                                },
                                Err(e) => {
                                    proof {
                                        lemma_unframed_prefix(
                                            bytes_of(values@),
                                            found_of(found@),
                                            i + 1,
                                        );
                                    }
                                    return Err(e);
                                },
                            }
                        },
                        None => {
                            proof {
                                assert(found_of(found@)[n as int].is_none());
                            }
                        },
                    }
                }
                n = n + 1;
            } else {
                proof {
                    let frames = member_frames(next, found_of(found@));
                    assert(frames == member_frames(head, found_of(found@)).push(values@[i as int]@));
                    assert(frames.drop_last() =~= member_frames(head, found_of(found@)));
                    assert(frames.last() == values@[i as int]@);
                }
                match Store::deserialize(values[i].as_slice()) {
                    Ok(record) => {
                        records.push(record);
                        proof {
                            assert(bytes_of(records@) =~= before.push(record@));
                        }
                    },
                    Err(e) => {
                        proof {
                            lemma_unframed_prefix(bytes_of(values@), found_of(found@), i + 1);
                        }
                        return Err(e);
                    },
                }
            }
            i = i + 1;
        }
        proof {
            assert(bytes_of(values@).take(values@.len() as int) =~= bytes_of(values@));
        }
        Ok(records)
    }

    /// Frames an encoded record for storage: compressed, so that what is
    /// stored is of comparable size on every backend. `deserialize` reads
    /// the record back from the result. It fails exactly where the record
    /// cannot be framed.
    pub fn serialize(encoded: &Vec<u8>) -> (r: Result<Vec<u8>>)
        ensures
            match r {
                Ok(frame) => can_be_framed(encoded@) && frame@ == frame_of(encoded@)
                    && gunzip_stream(frame@) == Some(encoded@),
                Err(e) => !can_be_framed(encoded@) && e@ is Other,
            },
    {
        let outcome = gzip(encoded);
        from_io(outcome)
    }

    /// Reads the encoded record out of a stored frame. It fails exactly
    /// where the bytes are no frame.
    pub fn deserialize(buf: &[u8]) -> (r: Result<Vec<u8>>)
        ensures
            match r {
                Ok(encoded) => gunzip_stream(buf@) == Some(encoded@),
                Err(e) => gunzip_stream(buf@).is_none() && e@ is Other,
            },
    {
        from_io(gunzip(buf))
    }

    /// Reads the answer to an atomic write: a write that was refused is
    /// contention, a failure of the backend is passed on.
    pub fn committed(answer: std::result::Result<bool, BackendError>) -> (r: Result<()>)
        ensures
            match answer {
                Ok(true) => r.is_ok(),
                Ok(false) => r matches Err(e) && e@ == ErrorView::Contention,
                Err(err) => r matches Err(e) && e@ == Error::of_backend(err),
            },
    {
        match answer {
            Ok(true) => Ok(()),
            Ok(false) => Err(Error::Contention),
            Err(err) => Err(Error::from(err)),
        }
    }

    /// Reads the answer to the read of one key: the record that the stored
    /// frame holds, or nothing where the key is free. A failure of the
    /// backend is passed on; a frame that cannot be read is a failure too.
    pub fn fetched(answer: std::result::Result<Option<Vec<u8>>, BackendError>) -> (r: Result<
        Option<Vec<u8>>,
    >)
        ensures
            match answer {
                Ok(None) => r matches Ok(None),
                Ok(Some(frame)) => match gunzip_stream(frame@) {
                    Some(encoded) => r matches Ok(Some(record)) && record@ == encoded,
                    None => r matches Err(e) && e@ is Other,
                },
                Err(err) => r matches Err(e) && e@ == Error::of_backend(err),
            },
    {
        match answer {
            Ok(None) => Ok(None),
            Ok(Some(frame)) => match Store::deserialize(frame.as_slice()) {
                Ok(encoded) => Ok(Some(encoded)),
                Err(e) => Err(e),
            },
            Err(err) => Err(Error::from(err)),
        }
    }

    /// A store on memory, for tests.
    pub fn new_test_store() -> (s: Store)
        ensures
            s@ == BackendView::Memory,
    {
        Store { backend: Backend::Memory }
    }

    /// The store on the backend that `config` chooses: memory before Redis
    /// before DynamoDB. It fails where the configuration names none.
    pub fn new_with_config(config: &Config) -> (r: Result<Store>)
        ensures
            match r {
                Ok(s) => BackendView::of_config(config@) == Some(s@),
                Err(e) => BackendView::of_config(config@).is_none() && e@ == ErrorView::Other(
                    "invalid store config"@,
                ),
            },
    {
        match Backend::of_config(config) {
            Some(backend) => Ok(Store { backend }),
            None => Err(Error::Other("invalid store config".to_string())),
        }
    }

    /// The same store with relaxed reads, where its backend knows them.
    pub fn with_eventually_consistent_reads(&self) -> (s: Store)
        ensures
            s@ == self@.with_eventually_consistent_reads(),
    {
        Store { backend: self.backend.clone().with_eventually_consistent_reads() }
    }

    /// The same store read through a cache, for a short run of reads: the
    /// cache does not notice writes.
    pub fn with_read_cache(&self) -> (s: Store)
        ensures
            s@ == self@.with_read_cache(),
    {
        Store { backend: self.backend.clone().with_read_cache() }
    }
}

/// Where the records of the first members cannot all be read, those of all
/// members cannot.
pub proof fn lemma_unframed_prefix(values: Seq<Seq<u8>>, found: Seq<Option<Seq<u8>>>, i: int)
    requires
        0 <= i <= values.len(),
        unframed(member_frames(values.take(i), found)).is_none(),
    ensures
        unframed(member_frames(values, found)).is_none(),
    decreases values.len() - i,
{
    if i < values.len() {
        let next = values.take(i + 1);
        assert(next.drop_last() =~= values.take(i));
        let shorter = member_frames(values.take(i), found);
        let longer = member_frames(next, found);
        if longer != shorter {
            assert(longer.drop_last() =~= shorter);
        }
        lemma_unframed_prefix(values, found, i + 1);
    } else {
        assert(values.take(i) =~= values);
    }
}

/// The stored record of the member at `i`, if it has one: a member that is no
/// id is its own record, an id has what was found under its key.
pub open spec fn member_frame(values: Seq<Seq<u8>>, found: Seq<Option<Seq<u8>>>, i: int) -> Option<
    Seq<u8>,
>
    recommends
        0 <= i < values.len(),
{
    if values[i].len() == ID_LENGTH {
        let n = id_count(values.take(i)) as int;
        if n < found.len() {
            found[n]
        } else {
            None
        }
    } else {
        Some(values[i])
    }
}

/// The places of the members that have a stored record, lowest first.
pub open spec fn member_places(values: Seq<Seq<u8>>, found: Seq<Option<Seq<u8>>>) -> Seq<int>
    decreases values.len(),
{
    if values.len() == 0 {
        Seq::empty()
    } else {
        let before = member_places(values.drop_last(), found);
        if member_frame(values, found, values.len() - 1).is_some() {
            before.push(values.len() - 1)
        } else {
            before
        }
    }
}

/// The records of a read come in the order of the members: the record at `k`
/// is that of the member at the `k`-th place that has one, and the places
/// rise. So where the members come by rising score, the records do, and
/// where the members come by falling score, the records do.
pub proof fn lemma_members_keep_their_order(values: Seq<Seq<u8>>, found: Seq<Option<Seq<u8>>>)
    ensures
        member_places(values, found).len() == member_frames(values, found).len(),
        forall|k: int|
            0 <= k < member_places(values, found).len() ==> {
                let place = #[trigger] member_places(values, found)[k];
                &&& 0 <= place < values.len()
                &&& member_frame(values, found, place) == Some(member_frames(values, found)[k])
            },
        forall|j: int, k: int|
            0 <= j < k < member_places(values, found).len() ==> member_places(values, found)[j]
                < member_places(values, found)[k],
    decreases values.len(),
{
    if values.len() > 0 {
        let head = values.drop_last();
        let last = values.len() - 1;
        lemma_members_keep_their_order(head, found);
        assert(values.take(last) =~= head);
        assert forall|k: int| 0 <= k < member_places(head, found).len() implies member_frame(
            values,
            found,
            #[trigger] member_places(head, found)[k],
        ) == member_frame(head, found, member_places(head, found)[k]) by {
            let place = member_places(head, found)[k];
            assert(values.take(place) =~= head.take(place));
        }
    }
}

} // verus!
