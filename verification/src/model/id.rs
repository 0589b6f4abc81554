use vstd::prelude::*;

verus! {

/// The width in bytes of every id that is used as part of a key.
pub const ID_LENGTH: usize = 20;

/// A fixed-width identifier. Numeric ids are their four big-endian bytes
/// followed by zeros; dispute ids are random.
#[derive(Debug, Eq, Hash, PartialEq, PartialOrd)]
pub struct Id(pub Vec<u8>);

impl View for Id {
    type V = Seq<u8>;

    open spec fn view(&self) -> Seq<u8> {
        self.0@
    }
}

/// The bytes of the id that stands for the number `v`.
pub open spec fn numeric_id(v: u32) -> Seq<u8> {
    Seq::new(
        ID_LENGTH as nat,
        |i: int|
            if i == 0 {
                (v >> 24) as u8
            } else if i == 1 {
                ((v >> 16) & 0xff) as u8
            } else if i == 2 {
                ((v >> 8) & 0xff) as u8
            } else if i == 3 {
                (v & 0xff) as u8
            } else {
                0u8
            },
    )
}

/// The number whose big-endian bytes open `bytes`.
pub open spec fn numeric_id_value(bytes: Seq<u8>) -> int
    recommends
        bytes.len() >= 4,
{
    bytes[0] as int * 0x100_0000 + bytes[1] as int * 0x1_0000 + bytes[2] as int * 0x100
        + bytes[3] as int
}

/// Overwrites `dest` with random bytes.
///
/// Calls `rand::thread_rng` and `RngCore::fill_bytes` on the whole of `dest`.
/// The length stays; of the bytes themselves nothing is promised.
#[verifier::external_body]
fn fill_random(dest: &mut Vec<u8>)
    ensures
        final(dest)@.len() == old(dest)@.len(),
{
    rand::RngCore::fill_bytes(&mut rand::thread_rng(), dest.as_mut_slice());
}

impl Id {
    /// A fresh random id of `ID_LENGTH` bytes.
    pub fn generate() -> (id: Id)
        ensures
            id@.len() == ID_LENGTH,
    {
        let mut bytes: Vec<u8> = Vec::new();
        let mut i: usize = 0;
        while i < ID_LENGTH
            invariant
                i <= ID_LENGTH,
                bytes@.len() == i,
            decreases ID_LENGTH - i,
        {
            bytes.push(0u8);
            i = i + 1;
        }
        fill_random(&mut bytes);
        Id(bytes)
    }

    /// The bytes of the id.
    pub fn as_bytes(&self) -> (bytes: &[u8])
        ensures
            bytes@ == self@,
    {
        self.0.as_slice()
    }

    /// The id that stands for the number `v`: its four big-endian bytes, then
    /// zeros up to `ID_LENGTH`.
    pub fn from_u32(v: u32) -> (id: Id)
        ensures
            id@ == numeric_id(v),
            numeric_id_value(id@) == v,
    {
        let mut bytes: Vec<u8> = Vec::new();
        bytes.push((v >> 24) as u8);
        bytes.push(((v >> 16) & 0xff) as u8);
        bytes.push(((v >> 8) & 0xff) as u8);
        bytes.push((v & 0xff) as u8);
        let mut i: usize = 4;
        while i < ID_LENGTH
            invariant
                4 <= i <= ID_LENGTH,
                bytes@.len() == i,
                bytes@[0] == (v >> 24) as u8,
                bytes@[1] == ((v >> 16) & 0xff) as u8,
                bytes@[2] == ((v >> 8) & 0xff) as u8,
                bytes@[3] == (v & 0xff) as u8,
                forall|j: int| 4 <= j < i ==> bytes@[j] == 0u8,
            decreases ID_LENGTH - i,
        {
            bytes.push(0u8);
            i = i + 1;
        }
        proof {
            assert(bytes@ =~= numeric_id(v));
            lemma_numeric_id_value(v);
        }
        Id(bytes)
    }

    /// The id made of exactly these bytes, whatever their number.
    pub fn from_vec(v: Vec<u8>) -> (id: Id)
        ensures
            id@ == v@,
    {
        Id(v)
    }

    /// The bytes of the id, owned.
    pub fn into_vec(self) -> (v: Vec<u8>)
        ensures
            v@ == self@,
    {
        self.0
    }
}

impl Clone for Id {
    fn clone(&self) -> (id: Id)
        ensures
            id@ == self@,
    {
        let mut bytes: Vec<u8> = Vec::new();
        let mut i: usize = 0;
        while i < self.0.len()
            invariant
                i <= self.0@.len(),
                bytes@ == self.0@.subrange(0, i as int),
            decreases self.0@.len() - i,
        {
            bytes.push(self.0[i]);
            proof {
                assert(bytes@ =~= self.0@.subrange(0, i + 1));
            }
            i = i + 1;
        }
        proof {
            assert(bytes@ =~= self.0@);
        }
        Id(bytes)
    }
}

/// The big-endian bytes of a number give the number back.
pub proof fn lemma_numeric_id_value(v: u32)
    ensures
        numeric_id(v).len() == ID_LENGTH,
        numeric_id_value(numeric_id(v)) == v,
{
    assert(((v >> 24) as u8) as int * 0x100_0000 + (((v >> 16) & 0xff) as u8) as int * 0x1_0000 + (((v
        >> 8) & 0xff) as u8) as int * 0x100 + ((v & 0xff) as u8) as int == v as int) by (bit_vector);
}

/// Distinct numbers have distinct ids.
pub proof fn lemma_numeric_id_injective(a: u32, b: u32)
    requires
        numeric_id(a) == numeric_id(b),
    ensures
        a == b,
{
    lemma_numeric_id_value(a);
    lemma_numeric_id_value(b);
}

impl From<Vec<u8>> for Id {
    fn from(v: Vec<u8>) -> (id: Id)
        ensures
            id@ == v@,
    {
        Id(v)
    }
}

impl vstd::std_specs::convert::FromSpecImpl<Vec<u8>> for Id {
    open spec fn obeys_from_spec() -> bool {
        true
    }

    open spec fn from_spec(v: Vec<u8>) -> Id {
        Id(v)
    }
}

impl From<u32> for Id {
    fn from(v: u32) -> (id: Id)
        ensures
            id@ == numeric_id(v),
    {
        Id::from_u32(v)
    }
}

impl vstd::std_specs::convert::FromSpecImpl<u32> for Id {
    open spec fn obeys_from_spec() -> bool {
        false
    }

    open spec fn from_spec(v: u32) -> Id {
        arbitrary()
    }
}

} // verus!
